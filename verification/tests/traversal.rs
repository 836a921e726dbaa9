use export_collision::collect::{collect_own_exports, star_export_target};
use export_collision::fx::NameSet;
use export_collision::{collect_exported_recursive, ModuleGraph, ModuleRecord, Span};

fn names(set: &NameSet) -> Vec<String> {
    let mut names: Vec<String> = set.iter().cloned().collect();
    names.sort();
    names
}

/// 0 -> 1 -> 2 -> 0, 1 -> 3, and 4 on its own; module `i` exports `m<i>`.
fn ring() -> ModuleGraph {
    let mut graph = ModuleGraph::new();
    let edges: [&[usize]; 5] = [&[1], &[2, 3], &[0], &[], &[]];
    for (i, targets) in edges.iter().enumerate() {
        let mut record = ModuleRecord::new();
        record.add_export(&format!("m{i}"), Span::new(0, 2));
        for target in targets.iter() {
            let specifier = format!("./m{target}");
            record.add_star_export(Some(&specifier));
            record.load_module(&specifier, *target);
        }
        graph.add_module(record);
    }
    graph
}

#[test]
fn collect_gathers_own_and_reexported_names() {
    let graph = ring();
    let mut result = NameSet::default();
    let mut visited = vec![false; graph.len()];
    visited[0] = true;
    collect_exported_recursive(&mut result, &graph, 0, &mut visited);
    assert_eq!(names(&result), vec!["m0", "m1", "m2", "m3"]);
    assert_eq!(visited, vec![true, true, true, true, false]);
}

#[test]
fn collect_marks_start_only_when_it_is_reached() {
    let graph = ring();
    // from 3 nothing is re-exported: 3 itself stays unmarked
    let mut result = NameSet::default();
    let mut visited = vec![false; graph.len()];
    collect_exported_recursive(&mut result, &graph, 3, &mut visited);
    assert_eq!(names(&result), vec!["m3"]);
    assert_eq!(visited, vec![false; 5]);
    // from 1 the ring leads back to 1
    let mut result = NameSet::default();
    let mut visited = vec![false; graph.len()];
    collect_exported_recursive(&mut result, &graph, 1, &mut visited);
    assert_eq!(names(&result), vec!["m0", "m1", "m2", "m3"]);
    assert_eq!(visited, vec![true, true, true, true, false]);
}

#[test]
fn collect_does_not_enter_marked_modules() {
    let graph = ring();
    let mut result = NameSet::default();
    result.insert("kept".to_string());
    let mut visited = vec![false; graph.len()];
    visited[1] = true;
    visited[2] = true;
    collect_exported_recursive(&mut result, &graph, 1, &mut visited);
    // 2 is marked, so neither 2 nor 0 behind it is entered
    assert_eq!(names(&result), vec!["kept", "m1", "m3"]);
    assert_eq!(visited, vec![false, true, true, true, false]);
}

#[test]
fn collect_on_a_long_chain_visits_every_module_once() {
    let mut graph = ModuleGraph::new();
    let len = 200;
    for i in 0..len {
        let mut record = ModuleRecord::new();
        record.add_export(&format!("n{i}"), Span::new(i as u32, i as u32 + 1));
        // each module re-exports the next one twice, and the last the first
        let next = (i + 1) % len;
        record.add_star_export(Some("./next"));
        record.add_star_export(Some("./next"));
        record.load_module("./next", next);
        graph.add_module(record);
    }
    let mut result = NameSet::default();
    let mut visited = vec![false; len];
    visited[0] = true;
    collect_exported_recursive(&mut result, &graph, 0, &mut visited);
    assert_eq!(result.len(), len);
    assert!(visited.iter().all(|mark| *mark));
}

#[test]
fn own_exports_are_added_to_what_the_set_holds() {
    let mut record = ModuleRecord::new();
    record.add_export("a", Span::new(0, 1));
    record.add_export("b", Span::new(2, 3));
    record.add_export("a", Span::new(5, 6));
    let mut result = NameSet::default();
    result.insert("z".to_string());
    result.insert("b".to_string());
    collect_own_exports(&mut result, &record);
    assert_eq!(names(&result), vec!["a", "b", "z"]);
}

#[test]
fn target_of_a_directive() {
    let mut record = ModuleRecord::new();
    record.add_star_export(Some("./a"));
    record.add_star_export(None);
    record.add_star_export(Some("./unknown"));
    record.add_star_export(Some("./far"));
    record.add_star_export(Some("./b"));
    record.load_module("./a", 1);
    record.load_module("./far", 2);
    record.load_module("./b", 0);
    let mut graph = ModuleGraph::new();
    graph.add_module(record);
    graph.add_module(ModuleRecord::new());

    assert_eq!(star_export_target(&graph, 0, 0), Some(1));
    assert_eq!(star_export_target(&graph, 0, 1), None);
    assert_eq!(star_export_target(&graph, 0, 2), None);
    assert_eq!(star_export_target(&graph, 0, 3), None);
    assert_eq!(star_export_target(&graph, 0, 4), Some(0));
}
