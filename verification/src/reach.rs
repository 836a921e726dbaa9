//! Where the wildcard re-exports of a module lead, as mathematics.
//!
//! A directive `export * from "s"` of module `a` is an edge from `a` to `b`
//! where `a` resolved `"s"` to `b` and `b` is a module of the graph. The
//! names that `a` re-exports are the names that the modules at the far end of
//! a chain of one or more such edges export themselves.

use vstd::prelude::*;

use crate::module_record::ModuleRecordView;

verus! {

/// The module that directive number `entry` of `module` re-exports: `None`
/// where the directive has no specifier, where the specifier was not
/// resolved, and where it was resolved to an index that names no module.
pub open spec fn star_target(graph: Seq<ModuleRecordView>, module: int, entry: int) -> Option<int> {
    match graph[module].star_export_entries[entry] {
        Some(specifier) => match graph[module].loaded(specifier) {
            Some(target) => if target < graph.len() {
                Some(target as int)
            } else {
                None
            },
            None => None,
        },
        None => None,
    }
}

/// Whether a directive of `from` re-exports `to`.
pub open spec fn star_edge(graph: Seq<ModuleRecordView>, from: int, to: int) -> bool {
    &&& 0 <= from < graph.len()
    &&& exists|entry: int|
        0 <= entry < graph[from].star_export_entries.len() && (#[trigger] star_target(
            graph,
            from,
            entry,
        )) == Some(to)
}

/// Whether `path` follows one or more re-exports and, past its first module,
/// keeps clear of `avoid`.
pub open spec fn star_walk(graph: Seq<ModuleRecordView>, path: Seq<int>, avoid: Set<int>) -> bool {
    &&& path.len() >= 2
    &&& forall|k: int| 0 <= k < path.len() - 1 ==> star_edge(graph, #[trigger] path[k], path[k + 1])
    &&& forall|k: int| 1 <= k < path.len() ==> !avoid.contains(#[trigger] path[k])
}

/// Whether one or more re-exports lead from `from` to `to` without passing
/// through `avoid` on the way or at the end.
pub open spec fn leads_afresh(
    graph: Seq<ModuleRecordView>,
    from: int,
    to: int,
    avoid: Set<int>,
) -> bool {
    exists|path: Seq<int>| #[trigger]
        star_walk(graph, path, avoid) && path[0] == from && path.last() == to
}

/// The modules that one or more re-exports lead to from `from` without
/// passing through `avoid`.
pub open spec fn reached_afresh(graph: Seq<ModuleRecordView>, from: int, avoid: Set<int>) -> Set<
    int,
> {
    Set::new(|to: int| leads_afresh(graph, from, to, avoid))
}

/// The modules that one or more re-exports lead to from `from`.
pub open spec fn reexported_modules(graph: Seq<ModuleRecordView>, from: int) -> Set<int> {
    reached_afresh(graph, from, Set::empty())
}

/// Whether `module` is a module of the graph that exports `name` itself.
pub open spec fn exports(graph: Seq<ModuleRecordView>, module: int, name: Seq<char>) -> bool {
    0 <= module < graph.len() && graph[module].exported_bindings.contains_key(name)
}

/// The names that the modules in `modules` export themselves.
pub open spec fn exported_by(graph: Seq<ModuleRecordView>, modules: Set<int>) -> Set<Seq<char>> {
    Set::new(
        |name: Seq<char>|
            exists|module: int| modules.contains(module) && #[trigger] exports(graph, module, name),
    )
}

/// The names that `module` re-exports through its `export *` directives,
/// directly or through the directives of the modules it re-exports.
pub open spec fn reexported_names(graph: Seq<ModuleRecordView>, module: int) -> Set<Seq<char>> {
    exported_by(graph, reexported_modules(graph, module))
}

/// The names that are visible in `module`: its own exports and what it re-exports.
pub open spec fn visible_names(graph: Seq<ModuleRecordView>, module: int) -> Set<Seq<char>> {
    exported_by(graph, reexported_modules(graph, module).insert(module))
}

/// A re-export that ends outside `avoid` is a walk of one step.
pub proof fn lemma_edge_leads(graph: Seq<ModuleRecordView>, from: int, to: int, avoid: Set<int>)
    requires
        star_edge(graph, from, to),
        !avoid.contains(to),
    ensures
        leads_afresh(graph, from, to, avoid),
{
    let path = seq![from, to];
    assert(star_walk(graph, path, avoid));
}

/// No module that is reached afresh is in `avoid`.
pub proof fn lemma_reached_afresh_is_fresh(graph: Seq<ModuleRecordView>, from: int, avoid: Set<int>)
    ensures
        reached_afresh(graph, from, avoid).disjoint(avoid),
{
    assert forall|to: int| reached_afresh(graph, from, avoid).contains(to) implies !avoid.contains(
        to,
    ) by {
        let path = choose|path: Seq<int>| #[trigger]
            star_walk(graph, path, avoid) && path[0] == from && path.last() == to;
        assert(!avoid.contains(path[path.len() - 1]));
    }
}

/// A walk stays one when a re-export is put in front of it, provided that the
/// module where the two meet, and the walk itself, keep clear of `avoid`.
pub proof fn lemma_leads_after_edge(
    graph: Seq<ModuleRecordView>,
    from: int,
    mid: int,
    to: int,
    avoid: Set<int>,
    inner: Set<int>,
)
    requires
        star_edge(graph, from, mid),
        !avoid.contains(mid),
        leads_afresh(graph, mid, to, inner),
        avoid.subset_of(inner),
    ensures
        leads_afresh(graph, from, to, avoid),
{
    let tail = choose|path: Seq<int>| #[trigger]
        star_walk(graph, path, inner) && path[0] == mid && path.last() == to;
    let path = seq![from] + tail;
    assert forall|k: int| 0 <= k < path.len() - 1 implies star_edge(
        graph,
        #[trigger] path[k],
        path[k + 1],
    ) by {
        if k > 0 {
            assert(path[k] == tail[k - 1] && path[k + 1] == tail[k - 1 + 1]);
        }
    }
    assert(star_walk(graph, path, avoid));
}

/// A walk stays one when a re-export that ends outside `avoid` is put behind it.
pub proof fn lemma_leads_before_edge(
    graph: Seq<ModuleRecordView>,
    from: int,
    mid: int,
    to: int,
    avoid: Set<int>,
)
    requires
        mid == from || leads_afresh(graph, from, mid, avoid),
        star_edge(graph, mid, to),
        !avoid.contains(to),
    ensures
        leads_afresh(graph, from, to, avoid),
{
    if leads_afresh(graph, from, mid, avoid) {
        let head = choose|path: Seq<int>| #[trigger]
            star_walk(graph, path, avoid) && path[0] == from && path.last() == mid;
        let path = head.push(to);
        assert forall|k: int| 0 <= k < path.len() - 1 implies star_edge(
            graph,
            #[trigger] path[k],
            path[k + 1],
        ) by {
            if k < head.len() - 1 {
                assert(path[k] == head[k] && path[k + 1] == head[k + 1]);
            }
        }
        assert(star_walk(graph, path, avoid));
    } else {
        lemma_edge_leads(graph, from, to, avoid);
    }
}

/// Every module of a walk, past the first, lies in a set that holds what the
/// first module re-exports and is closed under re-export outside `avoid`.
proof fn lemma_walk_stays_inside(
    graph: Seq<ModuleRecordView>,
    path: Seq<int>,
    avoid: Set<int>,
    closed: Set<int>,
    k: int,
)
    requires
        star_walk(graph, path, avoid),
        1 <= k < path.len(),
        forall|to: int| #[trigger]
            star_edge(graph, path[0], to) && !avoid.contains(to) ==> closed.contains(to),
        forall|a: int, b: int|
            closed.contains(a) && !avoid.contains(a) && #[trigger] star_edge(graph, a, b)
                && !avoid.contains(b) ==> closed.contains(b),
    ensures
        closed.contains(path[k]),
    decreases k,
{
    assert(star_edge(graph, path[k - 1], path[k - 1 + 1]));
    if k > 1 {
        lemma_walk_stays_inside(graph, path, avoid, closed, k - 1);
    }
}

/// A set that holds what `from` re-exports and is closed under re-export, both
/// outside `avoid`, holds every module that is reached afresh from `from`.
pub proof fn lemma_closed_holds_reached(
    graph: Seq<ModuleRecordView>,
    from: int,
    avoid: Set<int>,
    closed: Set<int>,
)
    requires
        forall|to: int| #[trigger]
            star_edge(graph, from, to) && !avoid.contains(to) ==> closed.contains(to),
        forall|a: int, b: int|
            closed.contains(a) && !avoid.contains(a) && #[trigger] star_edge(graph, a, b)
                && !avoid.contains(b) ==> closed.contains(b),
    ensures
        reached_afresh(graph, from, avoid).subset_of(closed),
{
    assert forall|to: int| reached_afresh(graph, from, avoid).contains(to) implies closed.contains(
        to,
    ) by {
        let path = choose|path: Seq<int>| #[trigger]
            star_walk(graph, path, avoid) && path[0] == from && path.last() == to;
        lemma_walk_stays_inside(graph, path, avoid, closed, path.len() - 1);
    }
}

/// The names exported by two sets of modules together are those of the one
/// and those of the other.
pub proof fn lemma_exported_by_union(graph: Seq<ModuleRecordView>, a: Set<int>, b: Set<int>)
    ensures
        exported_by(graph, a.union(b)) == exported_by(graph, a).union(exported_by(graph, b)),
{
    assert forall|name: Seq<char>| exported_by(graph, a.union(b)).contains(name) implies exported_by(
        graph,
        a,
    ).union(exported_by(graph, b)).contains(name) by {
        let module = choose|module: int|
            a.union(b).contains(module) && #[trigger] exports(graph, module, name);
        assert(a.contains(module) || b.contains(module));
    }
}

/// The names exported by one module of the graph are the names of its export table.
pub proof fn lemma_exported_by_one(graph: Seq<ModuleRecordView>, module: int)
    requires
        0 <= module < graph.len(),
    ensures
        exported_by(graph, set![module]) == graph[module].exported_bindings.dom(),
{
    assert forall|name: Seq<char>|
        graph[module].exported_bindings.dom().contains(name) implies exported_by(
        graph,
        set![module],
    ).contains(name) by {
        assert(set![module].contains(module) && exports(graph, module, name));
    }
}

/// Whether directive number `entry` of `module` names a module in which `name`
/// is visible.
pub open spec fn brought_by(
    graph: Seq<ModuleRecordView>,
    module: int,
    entry: int,
    name: Seq<char>,
) -> bool {
    match star_target(graph, module, entry) {
        Some(target) => visible_names(graph, target).contains(name),
        None => false,
    }
}

/// A module without `export *` directives, and an index that names no module,
/// re-export nothing.
pub proof fn lemma_no_directive_no_reexport(graph: Seq<ModuleRecordView>, module: int)
    requires
        !(0 <= module < graph.len()) || graph[module].star_export_entries.len() == 0,
    ensures
        reexported_modules(graph, module) == Set::<int>::empty(),
        reexported_names(graph, module) == Set::<Seq<char>>::empty(),
{
    assert forall|to: int| !reexported_modules(graph, module).contains(to) by {
        if leads_afresh(graph, module, to, Set::empty()) {
            let path = choose|path: Seq<int>| #[trigger]
                star_walk(graph, path, Set::empty()) && path[0] == module && path.last() == to;
            assert(star_edge(graph, path[0], path[0int + 1]));
        }
    }
}

/// What is visible in a module that `module` re-exports is re-exported by `module`.
pub proof fn lemma_reexport_through(
    graph: Seq<ModuleRecordView>,
    module: int,
    target: int,
    name: Seq<char>,
)
    requires
        star_edge(graph, module, target),
        visible_names(graph, target).contains(name),
    ensures
        reexported_names(graph, module).contains(name),
{
    let none = Set::<int>::empty();
    let source = choose|source: int|
        reexported_modules(graph, target).insert(target).contains(source) && #[trigger] exports(
            graph,
            source,
            name,
        );
    if source == target {
        lemma_edge_leads(graph, module, target, none);
    } else {
        lemma_leads_after_edge(graph, module, target, source, none, none);
    }
}

/// Every name that `module` re-exports is visible in the module that one of
/// its directives names.
pub proof fn lemma_reexport_entry(graph: Seq<ModuleRecordView>, module: int, name: Seq<char>)
    requires
        reexported_names(graph, module).contains(name),
    ensures
        0 <= module < graph.len(),
        exists|entry: int|
            0 <= entry < graph[module].star_export_entries.len() && #[trigger] brought_by(
                graph,
                module,
                entry,
                name,
            ),
{
    let none = Set::<int>::empty();
    let source = choose|source: int|
        reexported_modules(graph, module).contains(source) && #[trigger] exports(
            graph,
            source,
            name,
        );
    let path = choose|path: Seq<int>| #[trigger]
        star_walk(graph, path, none) && path[0] == module && path.last() == source;
    let target = path[1];
    let entry = choose|entry: int|
        0 <= entry < graph[module].star_export_entries.len() && (#[trigger] star_target(
            graph,
            module,
            entry,
        )) == Some(target);
    if path.len() > 2 {
        let tail = path.drop_first();
        assert forall|k: int| 0 <= k < tail.len() - 1 implies star_edge(
            graph,
            #[trigger] tail[k],
            tail[k + 1],
        ) by {
            assert(tail[k] == path[k + 1] && tail[k + 1] == path[k + 1 + 1]);
        }
        assert(star_walk(graph, tail, none));
    }
    assert(brought_by(graph, module, entry, name));
}

/// A walk that ends elsewhere than it began can be cut down to one that does
/// not come back to where it began.
proof fn lemma_walk_without_return(graph: Seq<ModuleRecordView>, path: Seq<int>)
    requires
        star_walk(graph, path, Set::empty()),
        path.last() != path[0],
    ensures
        leads_afresh(graph, path[0], path.last(), set![path[0]]),
    decreases path.len(),
{
    let start = path[0];
    if exists|k: int| 1 <= k < path.len() && #[trigger] path[k] == start {
        let k = choose|k: int| 1 <= k < path.len() && #[trigger] path[k] == start;
        let tail = path.skip(k);
        assert forall|i: int| 0 <= i < tail.len() - 1 implies star_edge(
            graph,
            #[trigger] tail[i],
            tail[i + 1],
        ) by {
            assert(tail[i] == path[k + i] && tail[i + 1] == path[k + i + 1]);
        }
        lemma_walk_without_return(graph, tail);
    } else {
        assert(star_walk(graph, path, set![start]));
    }
}

/// To count a module as seen before the traversal enters it takes nothing
/// from what is visible in it.
pub proof fn lemma_seen_start_keeps_visible(graph: Seq<ModuleRecordView>, module: int)
    ensures
        reached_afresh(graph, module, set![module]).insert(module) == reexported_modules(
            graph,
            module,
        ).insert(module),
{
    let none = Set::<int>::empty();
    let narrow = reached_afresh(graph, module, set![module]).insert(module);
    let wide = reexported_modules(graph, module).insert(module);
    assert forall|to: int| narrow.contains(to) implies wide.contains(to) by {
        if to != module {
            let path = choose|path: Seq<int>| #[trigger]
                star_walk(graph, path, set![module]) && path[0] == module && path.last() == to;
            assert(star_walk(graph, path, none));
        }
    }
    assert forall|to: int| wide.contains(to) implies narrow.contains(to) by {
        if to != module {
            let path = choose|path: Seq<int>| #[trigger]
                star_walk(graph, path, none) && path[0] == module && path.last() == to;
            lemma_walk_without_return(graph, path);
        }
    }
}

} // verus!
