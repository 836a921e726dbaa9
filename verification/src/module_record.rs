//! Module records and the graph they form.
//!
//! A [`ModuleGraph`] is an arena: a module is named by its index in
//! [`ModuleGraph::modules`]. A record refers to other modules by such
//! indices, so a graph may hold cycles. An index that names no module of the
//! graph is a module that could not be loaded.

use vstd::prelude::*;

use crate::fx::{binding_map, binding_map_insert, binding_map_new, BindingMap};
use crate::span::Span;

verus! {

/// An `export * from "..."` directive of a module.
#[derive(Debug)]
pub struct ExportEntry {
    /// The module specifier of the directive, where it has one.
    pub module_request: Option<String>,
}

impl View for ExportEntry {
    type V = Option<Seq<char>>;

    open spec fn view(&self) -> Option<Seq<char>> {
        match self.module_request {
            Some(specifier) => Some(specifier@),
            None => None,
        }
    }
}

/// A specifier that a module uses, with the module it was resolved to.
#[derive(Debug)]
pub struct LoadedModule {
    pub specifier: String,
    /// The index of the module in the graph.
    pub module: usize,
}

impl View for LoadedModule {
    type V = (Seq<char>, usize);

    open spec fn view(&self) -> (Seq<char>, usize) {
        (self.specifier@, self.module)
    }
}

/// What the detector reads of one module.
#[derive(Debug)]
pub struct ModuleRecord {
    /// The names that the module exports itself, each with the place of its declaration.
    pub exported_bindings: BindingMap,
    /// The `export * from "..."` directives, in source order.
    pub star_export_entries: Vec<ExportEntry>,
    /// The modules that the specifiers of this module were resolved to. Where a
    /// specifier occurs twice, its first entry counts.
    pub loaded_modules: Vec<LoadedModule>,
}

/// A module record as a mathematical value.
pub struct ModuleRecordView {
    pub exported_bindings: Map<Seq<char>, Span>,
    pub star_export_entries: Seq<Option<Seq<char>>>,
    pub loaded_modules: Seq<(Seq<char>, usize)>,
}

/// The module of the first entry of `loaded` that has `specifier`.
pub open spec fn first_loaded(loaded: Seq<(Seq<char>, usize)>, specifier: Seq<char>) -> Option<usize>
    decreases loaded.len(),
{
    if loaded.len() == 0 {
        None
    } else if loaded[0].0 == specifier {
        Some(loaded[0].1)
    } else {
        first_loaded(loaded.drop_first(), specifier)
    }
}

impl ModuleRecordView {
    /// The module that `specifier` was resolved to, if it was resolved.
    pub open spec fn loaded(self, specifier: Seq<char>) -> Option<usize> {
        first_loaded(self.loaded_modules, specifier)
    }
}

impl View for ModuleRecord {
    type V = ModuleRecordView;

    open spec fn view(&self) -> ModuleRecordView {
        ModuleRecordView {
            exported_bindings: binding_map(self.exported_bindings),
            star_export_entries: self.star_export_entries@.map_values(|entry: ExportEntry| entry@),
            loaded_modules: self.loaded_modules@.map_values(|loaded: LoadedModule| loaded@),
        }
    }
}

impl ModuleRecord {
    /// A module without exports, directives or loaded modules.
    pub fn new() -> (record: ModuleRecord)
        ensures
            record@.exported_bindings.is_empty(),
            record@.star_export_entries.len() == 0,
            record@.loaded_modules.len() == 0,
    {
        ModuleRecord {
            exported_bindings: binding_map_new(),
            star_export_entries: Vec::new(),
            loaded_modules: Vec::new(),
        }
    }

    /// Declares the local export `name` at `span`. A name that was exported
    /// already is moved to `span`.
    pub fn add_export(&mut self, name: &str, span: Span)
        ensures
            final(self)@.exported_bindings == old(self)@.exported_bindings.insert(name@, span),
            final(self)@.star_export_entries == old(self)@.star_export_entries,
            final(self)@.loaded_modules == old(self)@.loaded_modules,
    {
        binding_map_insert(&mut self.exported_bindings, name.to_owned(), span);
    }

    /// Appends the directive `export * from specifier`; `None` stands for a
    /// directive that names no module.
    pub fn add_star_export(&mut self, specifier: Option<&str>)
        ensures
            final(self)@.exported_bindings == old(self)@.exported_bindings,
            final(self)@.star_export_entries == old(self)@.star_export_entries.push(
                match specifier {
                    Some(text) => Some(text@),
                    None => None,
                },
            ),
            final(self)@.loaded_modules == old(self)@.loaded_modules,
    {
        let module_request = match specifier {
            Some(text) => Some(text.to_owned()),
            None => None,
        };
        self.star_export_entries.push(ExportEntry { module_request });
    }

    /// Records that `specifier` was resolved to the module with index `module`.
    /// An earlier entry for the same specifier keeps its effect.
    pub fn load_module(&mut self, specifier: &str, module: usize)
        ensures
            final(self)@.exported_bindings == old(self)@.exported_bindings,
            final(self)@.star_export_entries == old(self)@.star_export_entries,
            final(self)@.loaded_modules == old(self)@.loaded_modules.push((specifier@, module)),
    {
        self.loaded_modules.push(LoadedModule { specifier: specifier.to_owned(), module });
    }

    /// The module that `specifier` was resolved to, if it was resolved.
    pub fn loaded_module(&self, specifier: &String) -> (module: Option<usize>)
        ensures
            module == self@.loaded(specifier@),
    {
        let mut i: usize = 0;
        assert(self@.loaded_modules.skip(0) =~= self@.loaded_modules);
        while i < self.loaded_modules.len()
            invariant
                i <= self.loaded_modules@.len(),
                self@.loaded(specifier@) == first_loaded(self@.loaded_modules.skip(i as int), specifier@),
            decreases self.loaded_modules@.len() - i,
        {
            let ghost rest = self@.loaded_modules.skip(i as int);
            assert(rest.drop_first() =~= self@.loaded_modules.skip(i + 1));
            if self.loaded_modules[i].specifier == *specifier {
                return Some(self.loaded_modules[i].module);
            }
            i += 1;
        }
        None
    }
}

/// The modules of one analysis, each named by its index.
#[derive(Debug)]
pub struct ModuleGraph {
    pub modules: Vec<ModuleRecord>,
}

impl View for ModuleGraph {
    type V = Seq<ModuleRecordView>;

    open spec fn view(&self) -> Seq<ModuleRecordView> {
        self.modules@.map_values(|record: ModuleRecord| record@)
    }
}

impl ModuleGraph {
    /// A graph without modules.
    pub fn new() -> (graph: ModuleGraph)
        ensures
            graph@.len() == 0,
    {
        ModuleGraph { modules: Vec::new() }
    }

    /// Adds `record` to the graph and returns its index.
    pub fn add_module(&mut self, record: ModuleRecord) -> (module: usize)
        ensures
            module == old(self)@.len(),
            final(self)@ == old(self)@.push(record@),
    {
        let module = self.modules.len();
        self.modules.push(record);
        module
    }

    /// The number of modules.
    pub fn len(&self) -> (len: usize)
        ensures
            len == self@.len(),
    {
        self.modules.len()
    }
}

} // verus!
