//! The rule: no name is exported by a module itself and again through one of
//! its `export * from "..."` directives.

use vstd::prelude::*;
use vstd::string::*;

use crate::collect::{collect_exported_recursive, marked, star_export_target};
use crate::fx::{
    binding_map_get, report_map, report_map_entries, report_map_has, report_map_insert,
    report_map_new, name_set, name_set_items, name_set_new, ReportMap, NameSet,
};
use crate::module_record::{ModuleGraph, ModuleRecord, ModuleRecordView};
use crate::reach::{
    brought_by, exports, lemma_no_directive_no_reexport, lemma_reexport_entry,
    lemma_reexport_through, lemma_seen_start_keeps_visible, reexported_names, visible_names,
};
use crate::span::Span;

verus! {

/// How grave a diagnostic is.
#[derive(Debug, Clone, Copy, PartialEq, Eq, Structural)]
pub enum Severity {
    Advice,
    Warning,
    Error,
}

/// What the rule reports.
#[derive(Debug, PartialEq, Eq)]
pub enum ExportDiagnostic {
    /// The name is exported at the span and re-exported by a directive as well.
    NamedExport(Span, String),
}

/// A report as a mathematical value: a name and the place where the module
/// declares it.
pub struct DuplicateExport {
    pub span: Span,
    pub name: Seq<char>,
}

impl View for ExportDiagnostic {
    type V = DuplicateExport;

    open spec fn view(&self) -> DuplicateExport {
        match self {
            ExportDiagnostic::NamedExport(span, name) => DuplicateExport { span: *span, name: name@ },
        }
    }
}

/// The text of the report on `name`.
pub open spec fn message_text(name: Seq<char>) -> Seq<char> {
    "Multiple exports of name '"@ + name + "'."@
}

impl ExportDiagnostic {
    /// The place of the local declaration.
    pub fn span(&self) -> (span: Span)
        ensures
            span == self@.span,
    {
        match self {
            ExportDiagnostic::NamedExport(span, _) => *span,
        }
    }

    /// The name that is exported more than once.
    pub fn name(&self) -> (name: &str)
        ensures
            name@ == self@.name,
    {
        match self {
            ExportDiagnostic::NamedExport(_, name) => name.as_str(),
        }
    }

    /// Every report of this rule is a warning.
    pub fn severity(&self) -> (severity: Severity)
        ensures
            severity == Severity::Warning,
    {
        Severity::Warning
    }

    /// The text of the report.
    pub fn message(&self) -> (message: String)
        ensures
            message@ == message_text(self@.name),
    {
        let mut message = String::from_str("Multiple exports of name '");
        message.append(self.name());
        message.append("'.");
        message
    }
}

/// Whether `module` exports `name` itself and re-exports it too.
pub open spec fn is_duplicate(graph: Seq<ModuleRecordView>, module: int, name: Seq<char>) -> bool {
    exports(graph, module, name) && reexported_names(graph, module).contains(name)
}

/// The duplicate exports of `module`, each with the place where the module
/// declares it.
pub open spec fn duplicate_exports(graph: Seq<ModuleRecordView>, module: int) -> Set<DuplicateExport> {
    Set::new(
        |found: DuplicateExport|
            is_duplicate(graph, module, found.name) && found.span
                == graph[module].exported_bindings[found.name],
    )
}

/// Whether `report` is a report on `module`: each entry gives a duplicate name
/// of the module with the place of its declaration, no two entries give the
/// same place, and the place of every duplicate name is given.
pub open spec fn reports_duplicates(
    report: Seq<DuplicateExport>,
    graph: Seq<ModuleRecordView>,
    module: int,
) -> bool {
    &&& forall|i: int|
        0 <= i < report.len() ==> {
            &&& is_duplicate(graph, module, (#[trigger] report[i]).name)
            &&& report[i].span == graph[module].exported_bindings[report[i].name]
        }
    &&& forall|i: int, j: int|
        0 <= i < j < report.len() ==> (#[trigger] report[i]).span != (#[trigger] report[j]).span
    &&& forall|name: Seq<char>| #[trigger]
        is_duplicate(graph, module, name) ==> exists|i: int|
            0 <= i < report.len() && (#[trigger] report[i]).span
                == graph[module].exported_bindings[name]
}

/// The reports of a vector of diagnostics.
pub open spec fn report_of(diagnostics: Seq<ExportDiagnostic>) -> Seq<DuplicateExport> {
    diagnostics.map_values(|diagnostic: ExportDiagnostic| diagnostic@)
}

/// A vector of `len` marks, none of them set.
fn no_marks(len: usize) -> (visited: Vec<bool>)
    ensures
        visited@.len() == len,
        forall|module: int| 0 <= module < len ==> !visited@[module],
{
    let mut visited: Vec<bool> = Vec::new();
    while visited.len() < len
        invariant
            visited@.len() <= len,
            forall|module: int| 0 <= module < visited@.len() ==> !visited@[module],
        decreases len - visited@.len(),
    {
        visited.push(false);
    }
    visited
}

/// Records each name of `names` that `record` exports under the place of its
/// declaration, unless a name is recorded for that place already.
fn record_duplicates(found: &mut ReportMap, record: &ModuleRecord, names: &NameSet)
    ensures
        forall|location: (u32, u32)| #[trigger]
            report_map(*old(found)).contains_key(location) ==> report_map(
                *final(found),
            ).contains_key(location) && report_map(*final(found))[location] == report_map(
                *old(found),
            )[location],
        forall|location: (u32, u32)| #[trigger]
            report_map(*final(found)).contains_key(location) && !report_map(
                *old(found),
            ).contains_key(location) ==> {
                let name = report_map(*final(found))[location];
                &&& name_set(*names).contains(name)
                &&& record@.exported_bindings.contains_key(name)
                &&& record@.exported_bindings[name].key() == location
            },
        forall|name: Seq<char>| #[trigger]
            name_set(*names).contains(name) && record@.exported_bindings.contains_key(name)
                ==> report_map(*final(found)).contains_key(record@.exported_bindings[name].key()),
{
    let items = name_set_items(names);
    let mut k: usize = 0;
    while k < items.len()
        invariant
            k <= items@.len(),
            forall|i: int| 0 <= i < items@.len() ==> name_set(*names).contains((#[trigger] items@[i])@),
            forall|location: (u32, u32)| #[trigger]
                report_map(*old(found)).contains_key(location) ==> report_map(*found).contains_key(
                    location,
                ) && report_map(*found)[location] == report_map(*old(found))[location],
            forall|location: (u32, u32)| #[trigger]
                report_map(*found).contains_key(location) && !report_map(
                    *old(found),
                ).contains_key(location) ==> {
                    let name = report_map(*found)[location];
                    &&& name_set(*names).contains(name)
                    &&& record@.exported_bindings.contains_key(name)
                    &&& record@.exported_bindings[name].key() == location
                },
            forall|i: int|
                0 <= i < k && record@.exported_bindings.contains_key((#[trigger] items@[i])@)
                    ==> report_map(*found).contains_key(
                    record@.exported_bindings[items@[i]@].key(),
                ),
        decreases items@.len() - k,
    {
        match binding_map_get(&record.exported_bindings, items[k].as_str()) {
            Some(span) => {
                let location = (span.start, span.end);
                if !report_map_has(found, location) {
                    report_map_insert(found, location, items[k].clone());
                }
            },
            None => {},
        }
        k += 1;
    }
    assert forall|name: Seq<char>| #[trigger]
        name_set(*names).contains(name) && record@.exported_bindings.contains_key(
            name,
        ) implies report_map(*found).contains_key(record@.exported_bindings[name].key()) by {
        let i = choose|i: int| 0 <= i < items@.len() && (#[trigger] items@[i])@ == name;
        assert(items@[i]@ == name);
    }
}

/// The rule that reports a name which a module exports itself and which one
/// of its `export * from "..."` directives exports again.
#[derive(Debug, Default, Clone, Copy)]
pub struct Export;

impl Export {
    /// The duplicate exports of `module`.
    ///
    /// Each diagnostic names a local export of `module` that is also visible
    /// in a module which one of its `export *` directives names, and gives
    /// the place of the local declaration; no two diagnostics give the same
    /// place, and the place of every such export is given. Their order is not
    /// stated. A directive without a specifier, with a specifier that was not
    /// resolved, or resolved to an index that names no module, adds nothing.
    /// A module without directives, and an index that names no module, have
    /// no diagnostics.
    pub fn run_once(&self, graph: &ModuleGraph, module: usize) -> (diagnostics: Vec<ExportDiagnostic>)
        ensures
            reports_duplicates(report_of(diagnostics@), graph@, module as int),
            module >= graph@.len() || graph@[module as int].star_export_entries.len() == 0
                ==> diagnostics@.len() == 0,
    {
        let ghost me = module as int;
        let mut diagnostics: Vec<ExportDiagnostic> = Vec::new();
        if module >= graph.modules.len() {
            return diagnostics;
        }
        let record = &graph.modules[module];
        let entries = record.star_export_entries.len();
        if entries == 0 {
            proof {
                lemma_no_directive_no_reexport(graph@, me);
            }
            return diagnostics;
        }
        let mut found = report_map_new();
        let mut entry: usize = 0;
        while entry < entries
            invariant
                module < graph@.len(),
                me == module as int,
                record@ == graph@[me],
                entries == graph@[me].star_export_entries.len(),
                entry <= entries,
                forall|location: (u32, u32)| #[trigger]
                    report_map(found).contains_key(location) ==> {
                        let name = report_map(found)[location];
                        &&& is_duplicate(graph@, me, name)
                        &&& record@.exported_bindings[name].key() == location
                    },
                forall|done: int, name: Seq<char>|
                    0 <= done < entry && #[trigger] brought_by(graph@, me, done, name)
                        && record@.exported_bindings.contains_key(name) ==> report_map(
                        found,
                    ).contains_key(record@.exported_bindings[name].key()),
            decreases entries - entry,
        {
            match star_export_target(graph, module, entry) {
                Some(target) => {
                    let ghost to = target as int;
                    let mut names = name_set_new();
                    let mut visited = no_marks(graph.modules.len());
                    let ghost before = visited@;
                    visited.set(target, true);
                    collect_exported_recursive(&mut names, graph, target, &mut visited);
                    proof {
                        assert(marked(before.update(to, true)) =~= set![to]);
                        lemma_seen_start_keeps_visible(graph@, to);
                        assert(name_set(names) =~= visible_names(graph@, to));
                    }
                    let ghost earlier = report_map(found);
                    record_duplicates(&mut found, record, &names);
                    proof {
                        assert forall|location: (u32, u32)| #[trigger]
                            report_map(found).contains_key(location) implies is_duplicate(
                            graph@,
                            me,
                            report_map(found)[location],
                        ) by {
                            if !earlier.contains_key(location) {
                                lemma_reexport_through(graph@, me, to, report_map(found)[location]);
                            }
                        }
                    }
                },
                None => {},
            }
            entry += 1;
        }
        let reports = report_map_entries(found);
        let mut i: usize = 0;
        while i < reports.len()
            invariant
                i <= reports@.len(),
                diagnostics@.len() == i,
                forall|j: int|
                    0 <= j < i ==> (#[trigger] diagnostics@[j])@ == (DuplicateExport {
                        span: Span { start: reports@[j].0.0, end: reports@[j].0.1 },
                        name: reports@[j].1@,
                    }),
            decreases reports@.len() - i,
        {
            let location = reports[i].0;
            let diagnostic = ExportDiagnostic::NamedExport(
                Span::new(location.0, location.1),
                reports[i].1.clone(),
            );
            diagnostics.push(diagnostic);
            i += 1;
        }
        proof {
            let report = report_of(diagnostics@);
            let locals = graph@[me].exported_bindings;
            // The place of every duplicate was recorded when the directive
            // that brings the name was followed.
            assert forall|name: Seq<char>| #[trigger]
                is_duplicate(graph@, me, name) implies exists|j: int|
                0 <= j < report.len() && (#[trigger] report[j]).span == locals[name] by {
                lemma_reexport_entry(graph@, me, name);
                let j = choose|j: int|
                    0 <= j < reports@.len() && (#[trigger] reports@[j]).0 == locals[name].key();
                assert(report[j].span == locals[name]);
            }
        }
        diagnostics
    }
}

} // verus!
