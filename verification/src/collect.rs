//! The traversal that gathers the names a module makes visible.

use vstd::prelude::*;

use crate::fx::{binding_map_names, name_set, name_set_insert, NameSet};
use crate::module_record::{ModuleGraph, ModuleRecord};
use crate::reach::{
    exported_by, lemma_closed_holds_reached, lemma_edge_leads, lemma_exported_by_one,
    lemma_exported_by_union, lemma_leads_after_edge, lemma_leads_before_edge,
    lemma_reached_afresh_is_fresh, reached_afresh, star_edge, star_target,
};

verus! {

/// The modules that a vector of marks has marked.
pub open spec fn marked(visited: Seq<bool>) -> Set<int> {
    Set::new(|module: int| 0 <= module < visited.len() && visited[module])
}

/// How many modules a vector of marks has not marked.
pub open spec fn unmarked_count(visited: Seq<bool>) -> nat
    decreases visited.len(),
{
    if visited.len() == 0 {
        0
    } else {
        unmarked_count(visited.drop_last()) + if visited.last() {
            0nat
        } else {
            1nat
        }
    }
}

/// Marking a module that was not marked leaves one unmarked module fewer.
pub proof fn lemma_mark_counts(visited: Seq<bool>, module: int)
    requires
        0 <= module < visited.len(),
        !visited[module],
    ensures
        unmarked_count(visited.update(module, true)) + 1 == unmarked_count(visited),
    decreases visited.len(),
{
    let after = visited.update(module, true);
    if module == visited.len() - 1 {
        assert(after.drop_last() =~= visited.drop_last());
    } else {
        assert(after.drop_last() =~= visited.drop_last().update(module, true));
        lemma_mark_counts(visited.drop_last(), module);
    }
}

/// Marks that only grow leave no more modules unmarked than before.
pub proof fn lemma_marks_grow(before: Seq<bool>, after: Seq<bool>)
    requires
        before.len() == after.len(),
        forall|module: int| 0 <= module < before.len() && before[module] ==> after[module],
    ensures
        unmarked_count(after) <= unmarked_count(before),
    decreases before.len(),
{
    if before.len() > 0 {
        lemma_marks_grow(before.drop_last(), after.drop_last());
    }
}

/// The module that directive number `entry` of `module` re-exports, if the
/// directive names a module of the graph.
pub fn star_export_target(graph: &ModuleGraph, module: usize, entry: usize) -> (target: Option<
    usize,
>)
    requires
        module < graph@.len(),
        entry < graph@[module as int].star_export_entries.len(),
    ensures
        match target {
            Some(index) => star_target(graph@, module as int, entry as int) == Some(index as int),
            None => star_target(graph@, module as int, entry as int).is_none(),
        },
{
    let record = &graph.modules[module];
    match &record.star_export_entries[entry].module_request {
        Some(specifier) => match record.loaded_module(specifier) {
            Some(index) => if index < graph.modules.len() {
                Some(index)
            } else {
                None
            },
            None => None,
        },
        None => None,
    }
}

/// Adds the names that `record` exports itself to `result`.
pub fn collect_own_exports(result: &mut NameSet, record: &ModuleRecord)
    ensures
        name_set(*final(result)) == name_set(*old(result)).union(record@.exported_bindings.dom()),
{
    let names = binding_map_names(&record.exported_bindings);
    let mut k: usize = 0;
    while k < names.len()
        invariant
            k <= names@.len(),
            forall|i: int|
                0 <= i < names@.len() ==> record@.exported_bindings.contains_key(
                    (#[trigger] names@[i])@,
                ),
            forall|name: Seq<char>|
                name_set(*result).contains(name) <==> name_set(*old(result)).contains(name) || exists|
                    i: int,
                | 0 <= i < k && (#[trigger] names@[i])@ == name,
        decreases names@.len() - k,
    {
        let ghost before = name_set(*result);
        name_set_insert(result, names[k].clone());
        assert forall|name: Seq<char>|
            name_set(*result).contains(name) <==> name_set(*old(result)).contains(name) || exists|
                i: int,
            | 0 <= i < k + 1 && (#[trigger] names@[i])@ == name by {
            if before.contains(name) && !name_set(*old(result)).contains(name) {
                let i = choose|i: int| 0 <= i < k && (#[trigger] names@[i])@ == name;
                assert(0 <= i < k + 1 && names@[i]@ == name);
            }
        }
        k += 1;
    }
}

/// Adds to `result` the names that `module` exports itself and the names of
/// every module that its `export *` directives lead to, directly or through
/// further such directives, without passing through a module that `visited`
/// has marked. Each module that is entered on the way is marked first, and no
/// marked module is entered: the traversal ends on every graph, cycles
/// included.
///
/// `visited` has one mark for each module of the graph. The caller marks
/// `module` itself where it is to count as seen.
pub fn collect_exported_recursive(
    result: &mut NameSet,
    graph: &ModuleGraph,
    module: usize,
    visited: &mut Vec<bool>,
)
    requires
        module < graph@.len(),
        old(visited)@.len() == graph@.len(),
    ensures
        final(visited)@.len() == graph@.len(),
        marked(final(visited)@) == marked(old(visited)@).union(
            reached_afresh(graph@, module as int, marked(old(visited)@)),
        ),
        name_set(*final(result)) == name_set(*old(result)).union(
            exported_by(
                graph@,
                reached_afresh(graph@, module as int, marked(old(visited)@)).insert(module as int),
            ),
        ),
    decreases unmarked_count(old(visited)@),
{
    let ghost seen = marked(old(visited)@);
    let ghost me = module as int;
    let record = &graph.modules[module];
    collect_own_exports(result, record);
    proof {
        lemma_exported_by_one(graph@, me);
    }
    let entries = record.star_export_entries.len();
    let mut entry: usize = 0;
    while entry < entries
        invariant
            module < graph@.len(),
            me == module as int,
            seen == marked(old(visited)@),
            old(visited)@.len() == graph@.len(),
            visited@.len() == graph@.len(),
            entries == graph@[me].star_export_entries.len(),
            entry <= entries,
            seen.subset_of(marked(visited@)),
            marked(visited@).difference(seen).subset_of(reached_afresh(graph@, me, seen)),
            forall|a: int, b: int|
                marked(visited@).contains(a) && !seen.contains(a) && #[trigger] star_edge(
                    graph@,
                    a,
                    b,
                ) ==> marked(visited@).contains(b),
            forall|done: int|
                0 <= done < entry ==> match #[trigger] star_target(graph@, me, done) {
                    Some(to) => marked(visited@).contains(to),
                    None => true,
                },
            name_set(*result) == name_set(*old(result)).union(
                exported_by(graph@, marked(visited@).difference(seen).insert(me)),
            ),
        decreases entries - entry,
    {
        match star_export_target(graph, module, entry) {
            Some(target) => {
                if !visited[target] {
                    let ghost before = visited@;
                    let ghost to = target as int;
                    visited.set(target, true);
                    let ghost inner = marked(visited@);
                    proof {
                        lemma_mark_counts(before, to);
                        assert forall|m: int|
                            0 <= m < before.len() && old(visited)@[m] implies before[m] by {
                            assert(marked(before).contains(m));
                        }
                        lemma_marks_grow(old(visited)@, before);
                    }
                    collect_exported_recursive(result, graph, target, visited);
                    proof {
                        let fresh = reached_afresh(graph@, to, inner);
                        lemma_reached_afresh_is_fresh(graph@, to, inner);
                        // What is marked now and was not at the start is
                        // reached afresh from `module`,
                        assert forall|m: int| #[trigger]
                            marked(visited@).contains(m) && !seen.contains(m) implies reached_afresh(
                            graph@,
                            me,
                            seen,
                        ).contains(m) by {
                            if m == to {
                                lemma_edge_leads(graph@, me, to, seen);
                            } else if fresh.contains(m) {
                                lemma_leads_after_edge(graph@, me, to, m, seen, inner);
                            }
                        }
                        // and the modules that it re-exports are marked.
                        assert forall|a: int, b: int|
                            marked(visited@).contains(a) && !seen.contains(a) && #[trigger] star_edge(
                                graph@,
                                a,
                                b,
                            ) implies marked(visited@).contains(b) by {
                            if !marked(before).contains(a) && !inner.contains(b) {
                                lemma_leads_before_edge(graph@, to, a, b, inner);
                            }
                        }
                        lemma_exported_by_union(
                            graph@,
                            marked(before).difference(seen).insert(me),
                            fresh.insert(to),
                        );
                        assert(marked(visited@).difference(seen).insert(me) =~= marked(
                            before,
                        ).difference(seen).insert(me).union(fresh.insert(to)));
                    }
                }
            },
            None => {},
        }
        entry += 1;
    }
    proof {
        // Every directive has been followed: the marks hold what `module`
        // re-exports and are closed under re-export outside `seen`.
        lemma_closed_holds_reached(graph@, me, seen, marked(visited@));
        lemma_reached_afresh_is_fresh(graph@, me, seen);
    }
}

} // verus!
