//! What holds of every report of the rule.
//!
//! Each statement is about a report in the sense of
//! [`reports_duplicates`](crate::export::reports_duplicates), which is what
//! [`Export::run_once`](crate::export::Export::run_once) returns.

use vstd::prelude::*;

use crate::export::{duplicate_exports, is_duplicate, reports_duplicates, DuplicateExport};
use crate::module_record::ModuleRecordView;
use crate::reach::{
    brought_by, exports, lemma_edge_leads, lemma_exported_by_one, lemma_exported_by_union,
    lemma_leads_after_edge, lemma_no_directive_no_reexport, lemma_reexport_entry,
    lemma_reexport_through, reexported_modules, reexported_names, star_edge, star_target,
    visible_names,
};
use crate::span::Span;

verus! {

/// Whether no two names of an export table are declared at the same place.
pub open spec fn distinct_locations(bindings: Map<Seq<char>, Span>) -> bool {
    forall|a: Seq<char>, b: Seq<char>|
        bindings.contains_key(a) && bindings.contains_key(b) && #[trigger] bindings[a]
            == #[trigger] bindings[b] ==> a == b
}

/// A module without `export *` directives has an empty report, whatever it
/// exports itself. So has an index that names no module.
pub proof fn lemma_no_directive_no_report(
    report: Seq<DuplicateExport>,
    graph: Seq<ModuleRecordView>,
    module: int,
)
    requires
        reports_duplicates(report, graph, module),
        !(0 <= module < graph.len()) || graph[module].star_export_entries.len() == 0,
    ensures
        report.len() == 0,
{
    lemma_no_directive_no_reexport(graph, module);
    if report.len() > 0 {
        assert(is_duplicate(graph, module, report[0].name));
    }
}

/// The place of a duplicate name is reported once and no more, however many
/// chains of re-exports lead to the name.
pub proof fn lemma_duplicate_place_reported_once(
    report: Seq<DuplicateExport>,
    graph: Seq<ModuleRecordView>,
    module: int,
    name: Seq<char>,
)
    requires
        reports_duplicates(report, graph, module),
        is_duplicate(graph, module, name),
    ensures
        exists|i: int|
            {
                &&& 0 <= i < report.len()
                &&& (#[trigger] report[i]).span == graph[module].exported_bindings[name]
                &&& forall|j: int|
                    0 <= j < report.len() && j != i ==> (#[trigger] report[j]).span
                        != graph[module].exported_bindings[name]
            },
{
    let place = graph[module].exported_bindings[name];
    let i = choose|i: int| 0 <= i < report.len() && (#[trigger] report[i]).span == place;
    assert forall|j: int| 0 <= j < report.len() && j != i implies (#[trigger] report[j]).span
        != place by {
        assert(j < i || i < j);
    }
}

/// Where no two exports of the module are declared at the same place, a
/// duplicate name is reported once and no more, with the place of its
/// declaration.
pub proof fn lemma_duplicate_reported_once(
    report: Seq<DuplicateExport>,
    graph: Seq<ModuleRecordView>,
    module: int,
    name: Seq<char>,
)
    requires
        reports_duplicates(report, graph, module),
        is_duplicate(graph, module, name),
        distinct_locations(graph[module].exported_bindings),
    ensures
        exists|i: int|
            {
                &&& 0 <= i < report.len()
                &&& (#[trigger] report[i]).name == name
                &&& report[i].span == graph[module].exported_bindings[name]
                &&& forall|j: int|
                    0 <= j < report.len() && j != i ==> (#[trigger] report[j]).name != name
                        && report[j].span != graph[module].exported_bindings[name]
            },
{
    let locals = graph[module].exported_bindings;
    lemma_duplicate_place_reported_once(report, graph, module, name);
    let i = choose|i: int|
        {
            &&& 0 <= i < report.len()
            &&& (#[trigger] report[i]).span == locals[name]
            &&& forall|j: int|
                0 <= j < report.len() && j != i ==> (#[trigger] report[j]).span != locals[name]
        };
    assert(locals[report[i].name] == locals[name]);
    assert forall|j: int| 0 <= j < report.len() && j != i implies (#[trigger] report[j]).name
        != name && report[j].span != locals[name] by {
        assert(report[j].span == locals[report[j].name]);
    }
}

/// Every name of a report is exported by the module itself and re-exported by
/// one of its directives, and the report gives the place where the module
/// declares it.
pub proof fn lemma_report_names_duplicates(
    report: Seq<DuplicateExport>,
    graph: Seq<ModuleRecordView>,
    module: int,
    i: int,
)
    requires
        reports_duplicates(report, graph, module),
        0 <= i < report.len(),
    ensures
        0 <= module < graph.len(),
        graph[module].exported_bindings.contains_key(report[i].name),
        graph[module].exported_bindings[report[i].name] == report[i].span,
        reexported_names(graph, module).contains(report[i].name),
{
    assert(is_duplicate(graph, module, report[i].name));
}

/// Two modules that re-export each other re-export the same names, their own
/// among them: every export of either is a duplicate.
pub proof fn lemma_cycle_reexports_own(graph: Seq<ModuleRecordView>, a: int, b: int)
    requires
        star_edge(graph, a, b),
        star_edge(graph, b, a),
    ensures
        reexported_modules(graph, a).contains(a),
        reexported_modules(graph, a).contains(b),
        reexported_names(graph, a) == visible_names(graph, a),
        reexported_names(graph, a) == reexported_names(graph, b),
        forall|name: Seq<char>| #[trigger]
            exports(graph, a, name) ==> is_duplicate(graph, a, name),
{
    let none = Set::<int>::empty();
    lemma_edge_leads(graph, a, b, none);
    lemma_edge_leads(graph, b, a, none);
    lemma_leads_after_edge(graph, a, b, a, none, none);
    lemma_leads_after_edge(graph, b, a, b, none, none);
    assert forall|to: int| reexported_modules(graph, a).contains(to) implies reexported_modules(
        graph,
        b,
    ).contains(to) by {
        lemma_leads_after_edge(graph, b, a, to, none, none);
    }
    assert forall|to: int| reexported_modules(graph, b).contains(to) implies reexported_modules(
        graph,
        a,
    ).contains(to) by {
        lemma_leads_after_edge(graph, a, b, to, none, none);
    }
}

/// In a report on a module that re-exports a module which re-exports it in
/// turn, the place of every export of the module is given.
pub proof fn lemma_cycle_report(
    report: Seq<DuplicateExport>,
    graph: Seq<ModuleRecordView>,
    a: int,
    b: int,
    name: Seq<char>,
)
    requires
        star_edge(graph, a, b),
        star_edge(graph, b, a),
        reports_duplicates(report, graph, a),
        exports(graph, a, name),
    ensures
        exists|i: int|
            0 <= i < report.len() && (#[trigger] report[i]).span
                == graph[a].exported_bindings[name],
{
    lemma_cycle_reexports_own(graph, a, b);
}

/// Where no two exports of the module are declared at the same place, a
/// report holds each duplicate name with its place once, and nothing else.
pub proof fn lemma_report_is_duplicate_set(
    report: Seq<DuplicateExport>,
    graph: Seq<ModuleRecordView>,
    module: int,
)
    requires
        reports_duplicates(report, graph, module),
        distinct_locations(graph[module].exported_bindings),
    ensures
        report.no_duplicates(),
        report.to_set() == duplicate_exports(graph, module),
{
    assert forall|i: int, j: int|
        0 <= i < report.len() && 0 <= j < report.len() && i != j implies report[i]
        != report[j] by {
        assert(i < j || j < i);
    }
    assert forall|found: DuplicateExport| duplicate_exports(graph, module).contains(
        found,
    ) implies report.to_set().contains(found) by {
        lemma_duplicate_reported_once(report, graph, module, found.name);
        let i = choose|i: int|
            0 <= i < report.len() && (#[trigger] report[i]).name == found.name && report[i].span
                == graph[module].exported_bindings[found.name];
        assert(report[i] == found);
    }
    assert forall|found: DuplicateExport| report.to_set().contains(found) implies duplicate_exports(
        graph,
        module,
    ).contains(found) by {
        let i = choose|i: int| 0 <= i < report.len() && report[i] == found;
        assert(is_duplicate(graph, module, report[i].name));
    }
}

/// What a module re-exports is what is visible in the modules that its
/// directives name: the order of the directives, and how often one of them
/// occurs, make no difference.
pub proof fn lemma_reexported_names_by_directive(
    graph: Seq<ModuleRecordView>,
    module: int,
    name: Seq<char>,
)
    ensures
        reexported_names(graph, module).contains(name) <==> 0 <= module < graph.len() && exists|
            entry: int,
        |
            0 <= entry < graph[module].star_export_entries.len() && #[trigger] brought_by(
                graph,
                module,
                entry,
                name,
            ),
{
    if reexported_names(graph, module).contains(name) {
        lemma_reexport_entry(graph, module, name);
    }
    if 0 <= module < graph.len() && exists|entry: int|
        0 <= entry < graph[module].star_export_entries.len() && #[trigger] brought_by(
            graph,
            module,
            entry,
            name,
        ) {
        let entry = choose|entry: int|
            0 <= entry < graph[module].star_export_entries.len() && #[trigger] brought_by(
                graph,
                module,
                entry,
                name,
            );
        let target = star_target(graph, module, entry)->0;
        lemma_reexport_through(graph, module, target, name);
    }
}

/// What is visible in a module is what it exports itself and what it re-exports.
pub proof fn lemma_visible_names(graph: Seq<ModuleRecordView>, module: int)
    requires
        0 <= module < graph.len(),
    ensures
        visible_names(graph, module) == graph[module].exported_bindings.dom().union(
            reexported_names(graph, module),
        ),
{
    let modules = reexported_modules(graph, module);
    lemma_exported_by_union(graph, set![module], modules);
    lemma_exported_by_one(graph, module);
}

} // verus!
