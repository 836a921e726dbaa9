use export_collision::{Export, ExportDiagnostic, ModuleGraph, ModuleRecord, Severity, Span};

/// The place of the `nth` occurrence of `word` in `source`.
fn span_of(source: &str, word: &str, nth: usize) -> Span {
    let (start, _) = source.match_indices(word).nth(nth).expect("the word occurs");
    Span::new(start as u32, (start + word.len()) as u32)
}

/// The reports as pairs of name and place, ordered by place.
fn sorted(diagnostics: &[ExportDiagnostic]) -> Vec<(String, u32, u32)> {
    let mut pairs: Vec<(String, u32, u32)> = diagnostics
        .iter()
        .map(|d| (d.name().to_string(), d.span().start, d.span().end))
        .collect();
    pairs.sort_by_key(|p| (p.1, p.2));
    pairs
}

#[test]
fn test() {
    let pass: Vec<(&str, Option<serde_json::Value>)> =
        vec![(r#"var foo = "foo"; export default foo;"#, None)];

    let fail: Vec<(&str, Option<serde_json::Value>)> =
        vec![(r#"let foo; export { foo }; export * from "./export-all""#, None)];

    let rule_path = "index.js";

    for (source, _) in &pass {
        // A default export only: the module has no export table to speak of.
        assert!(source.contains("export default"));
        let mut graph = ModuleGraph::new();
        let index = graph.add_module(ModuleRecord::new());
        assert!(Export.run_once(&graph, index).is_empty(), "{rule_path}: {source}");
    }

    for (source, _) in &fail {
        // The module exports `foo` and re-exports ./export-all, which hands on
        // the exports of a sibling that exports `foo` too.
        let foo = span_of(source, "foo", 1);
        let mut index_js = ModuleRecord::new();
        index_js.add_export("foo", foo);
        index_js.add_star_export(Some("./export-all"));
        index_js.load_module("./export-all", 1);
        let mut export_all = ModuleRecord::new();
        export_all.add_star_export(Some("./sibling-with-names"));
        export_all.load_module("./sibling-with-names", 2);
        let mut sibling = ModuleRecord::new();
        sibling.add_export("a", Span::new(11, 12));
        sibling.add_export("foo", Span::new(33, 36));

        let mut graph = ModuleGraph::new();
        let index = graph.add_module(index_js);
        graph.add_module(export_all);
        graph.add_module(sibling);

        let diagnostics = Export.run_once(&graph, index);
        assert_eq!(sorted(&diagnostics), vec![("foo".to_string(), 18, 21)], "{rule_path}: {source}");
        assert_eq!(diagnostics[0].message(), "Multiple exports of name 'foo'.");
        assert_eq!(diagnostics, vec![ExportDiagnostic::NamedExport(foo, "foo".to_string())]);
    }
}

#[test]
fn local_export_repeated_by_wildcard_is_reported() {
    // let foo; export { foo }; export * from "./other"   with other exporting foo
    let source = r#"let foo; export { foo }; export * from "./other""#;
    let mut module = ModuleRecord::new();
    module.add_export("foo", span_of(source, "foo", 1));
    module.add_star_export(Some("./other"));
    module.load_module("./other", 1);
    let mut other = ModuleRecord::new();
    other.add_export("foo", Span::new(13, 16));

    let mut graph = ModuleGraph::new();
    let id = graph.add_module(module);
    graph.add_module(other);

    let diagnostics = Export.run_once(&graph, id);
    assert_eq!(diagnostics.len(), 1);
    assert_eq!(diagnostics[0].name(), "foo");
    assert_eq!(diagnostics[0].span(), Span::new(18, 21));
    assert_eq!(diagnostics[0].severity(), Severity::Warning);
}

#[test]
fn default_export_alone_is_not_reported() {
    // var foo = "foo"; export default foo;
    let mut graph = ModuleGraph::new();
    let id = graph.add_module(ModuleRecord::new());
    assert!(Export.run_once(&graph, id).is_empty());
}

#[test]
fn collision_between_two_wildcards_is_not_reported() {
    let mut module = ModuleRecord::new();
    module.add_export("own", Span::new(0, 3));
    module.add_star_export(Some("./n"));
    module.add_star_export(Some("./o"));
    module.load_module("./n", 1);
    module.load_module("./o", 2);
    let mut n = ModuleRecord::new();
    n.add_export("bar", Span::new(7, 10));
    let mut o = ModuleRecord::new();
    o.add_export("bar", Span::new(20, 23));

    let mut graph = ModuleGraph::new();
    let id = graph.add_module(module);
    graph.add_module(n);
    graph.add_module(o);

    assert!(Export.run_once(&graph, id).is_empty());
}

#[test]
fn export_two_wildcards_away_is_reported() {
    let mut module = ModuleRecord::new();
    module.add_export("bar", Span::new(40, 43));
    module.add_star_export(Some("./n"));
    module.load_module("./n", 1);
    let mut n = ModuleRecord::new();
    n.add_star_export(Some("./o"));
    n.load_module("./o", 2);
    let mut o = ModuleRecord::new();
    o.add_export("bar", Span::new(13, 16));

    let mut graph = ModuleGraph::new();
    let id = graph.add_module(module);
    graph.add_module(n);
    graph.add_module(o);

    let diagnostics = Export.run_once(&graph, id);
    assert_eq!(sorted(&diagnostics), vec![("bar".to_string(), 40, 43)]);
}

#[test]
fn module_without_wildcards_has_no_report() {
    let mut module = ModuleRecord::new();
    module.add_export("a", Span::new(0, 1));
    module.add_export("b", Span::new(2, 3));
    module.load_module("./other", 1);
    let mut other = ModuleRecord::new();
    other.add_export("a", Span::new(0, 1));
    other.add_export("b", Span::new(2, 3));

    let mut graph = ModuleGraph::new();
    let id = graph.add_module(module);
    graph.add_module(other);

    assert!(Export.run_once(&graph, id).is_empty());
}

#[test]
fn name_reached_on_several_ways_is_reported_once() {
    // 0 re-exports 1 and 2; both re-export 3, which exports x; 1 exports x too.
    let mut top = ModuleRecord::new();
    top.add_export("x", Span::new(5, 6));
    top.add_export("y", Span::new(8, 9));
    top.add_star_export(Some("./left"));
    top.add_star_export(Some("./right"));
    top.add_star_export(Some("./left"));
    top.load_module("./left", 1);
    top.load_module("./right", 2);
    let mut left = ModuleRecord::new();
    left.add_export("x", Span::new(0, 1));
    left.add_star_export(Some("./base"));
    left.load_module("./base", 3);
    let mut right = ModuleRecord::new();
    right.add_star_export(Some("./base"));
    right.load_module("./base", 3);
    let mut base = ModuleRecord::new();
    base.add_export("x", Span::new(0, 1));

    let mut graph = ModuleGraph::new();
    let id = graph.add_module(top);
    graph.add_module(left);
    graph.add_module(right);
    graph.add_module(base);

    let diagnostics = Export.run_once(&graph, id);
    assert_eq!(sorted(&diagnostics), vec![("x".to_string(), 5, 6)]);
}

#[test]
fn report_holds_local_and_reexported_names_only() {
    let mut module = ModuleRecord::new();
    module.add_export("local_only", Span::new(0, 10));
    module.add_export("both", Span::new(12, 16));
    module.add_star_export(Some("./other"));
    module.load_module("./other", 1);
    module.load_module("./unrelated", 2);
    let mut other = ModuleRecord::new();
    other.add_export("both", Span::new(1, 5));
    other.add_export("remote_only", Span::new(7, 18));
    let mut unrelated = ModuleRecord::new();
    unrelated.add_export("local_only", Span::new(0, 10));

    let mut graph = ModuleGraph::new();
    let id = graph.add_module(module);
    graph.add_module(other);
    graph.add_module(unrelated);

    let diagnostics = Export.run_once(&graph, id);
    assert_eq!(sorted(&diagnostics), vec![("both".to_string(), 12, 16)]);
}

#[test]
fn several_duplicates_are_all_reported() {
    let mut module = ModuleRecord::new();
    module.add_export("a", Span::new(0, 1));
    module.add_export("b", Span::new(3, 4));
    module.add_export("c", Span::new(6, 7));
    module.add_star_export(Some("./one"));
    module.add_star_export(Some("./two"));
    module.load_module("./one", 1);
    module.load_module("./two", 2);
    let mut one = ModuleRecord::new();
    one.add_export("a", Span::new(0, 1));
    let mut two = ModuleRecord::new();
    two.add_export("c", Span::new(0, 1));
    two.add_export("a", Span::new(2, 3));

    let mut graph = ModuleGraph::new();
    let id = graph.add_module(module);
    graph.add_module(one);
    graph.add_module(two);

    let diagnostics = Export.run_once(&graph, id);
    assert_eq!(sorted(&diagnostics), vec![("a".to_string(), 0, 1), ("c".to_string(), 6, 7)]);
}

#[test]
fn cycle_of_two_modules_ends_and_reports() {
    // 0 and 1 re-export each other; 1 re-exports 2 as well.
    let mut first = ModuleRecord::new();
    first.add_export("a", Span::new(0, 1));
    first.add_export("shared", Span::new(3, 9));
    first.add_star_export(Some("./second"));
    first.load_module("./second", 1);
    let mut second = ModuleRecord::new();
    second.add_export("b", Span::new(0, 1));
    second.add_export("shared", Span::new(30, 36));
    second.add_export("deep", Span::new(40, 44));
    second.add_star_export(Some("./first"));
    second.add_star_export(Some("./third"));
    second.load_module("./first", 0);
    second.load_module("./third", 2);
    let mut third = ModuleRecord::new();
    third.add_export("deep", Span::new(0, 4));

    let mut graph = ModuleGraph::new();
    let one = graph.add_module(first);
    let two = graph.add_module(second);
    graph.add_module(third);

    // Through the cycle each module re-exports its own names as well.
    assert_eq!(
        sorted(&Export.run_once(&graph, one)),
        vec![("a".to_string(), 0, 1), ("shared".to_string(), 3, 9)]
    );
    assert_eq!(
        sorted(&Export.run_once(&graph, two)),
        vec![("b".to_string(), 0, 1), ("shared".to_string(), 30, 36), ("deep".to_string(), 40, 44)]
    );
}

#[test]
fn module_that_reexports_itself_reports_its_exports() {
    let mut module = ModuleRecord::new();
    module.add_export("a", Span::new(0, 1));
    module.add_star_export(Some("./self"));
    module.load_module("./self", 0);
    let mut graph = ModuleGraph::new();
    let id = graph.add_module(module);
    assert_eq!(sorted(&Export.run_once(&graph, id)), vec![("a".to_string(), 0, 1)]);
}

#[test]
fn directive_without_specifier_is_skipped() {
    let mut module = ModuleRecord::new();
    module.add_export("a", Span::new(0, 1));
    module.add_export("b", Span::new(2, 3));
    module.add_star_export(None);
    module.add_star_export(Some("./other"));
    module.load_module("./other", 1);
    let mut other = ModuleRecord::new();
    other.add_export("b", Span::new(0, 1));

    let mut graph = ModuleGraph::new();
    let id = graph.add_module(module);
    graph.add_module(other);

    assert_eq!(sorted(&Export.run_once(&graph, id)), vec![("b".to_string(), 2, 3)]);
}

#[test]
fn unresolved_specifier_is_skipped() {
    let mut module = ModuleRecord::new();
    module.add_export("a", Span::new(0, 1));
    module.add_export("b", Span::new(2, 3));
    module.add_star_export(Some("./missing"));
    module.add_star_export(Some("./gone"));
    module.add_star_export(Some("./other"));
    module.load_module("./other", 1);
    // resolved, but to an index that names no module
    module.load_module("./gone", 7);
    let mut other = ModuleRecord::new();
    other.add_export("a", Span::new(0, 1));
    other.add_star_export(Some("./missing-too"));

    let mut graph = ModuleGraph::new();
    let id = graph.add_module(module);
    graph.add_module(other);

    assert_eq!(sorted(&Export.run_once(&graph, id)), vec![("a".to_string(), 0, 1)]);
}

#[test]
fn only_unresolved_directives_give_no_report() {
    let mut module = ModuleRecord::new();
    module.add_export("a", Span::new(0, 1));
    module.add_star_export(Some("./missing"));
    module.add_star_export(None);
    let mut graph = ModuleGraph::new();
    let id = graph.add_module(module);
    assert!(Export.run_once(&graph, id).is_empty());
}

#[test]
fn index_that_names_no_module_has_no_report() {
    let mut module = ModuleRecord::new();
    module.add_export("a", Span::new(0, 1));
    module.add_star_export(Some("./self"));
    module.load_module("./self", 0);
    let mut graph = ModuleGraph::new();
    graph.add_module(module);
    assert!(Export.run_once(&graph, 1).is_empty());
    assert!(Export.run_once(&ModuleGraph::new(), 0).is_empty());
}

#[test]
fn names_are_case_sensitive() {
    let mut module = ModuleRecord::new();
    module.add_export("Foo", Span::new(0, 3));
    module.add_star_export(Some("./other"));
    module.load_module("./other", 1);
    let mut other = ModuleRecord::new();
    other.add_export("foo", Span::new(0, 3));
    let mut graph = ModuleGraph::new();
    let id = graph.add_module(module);
    graph.add_module(other);
    assert!(Export.run_once(&graph, id).is_empty());
}

#[test]
fn two_names_at_one_place_give_one_report() {
    let mut module = ModuleRecord::new();
    module.add_export("a", Span::new(4, 5));
    module.add_export("b", Span::new(4, 5));
    module.add_star_export(Some("./other"));
    module.load_module("./other", 1);
    let mut other = ModuleRecord::new();
    other.add_export("a", Span::new(0, 1));
    other.add_export("b", Span::new(2, 3));
    let mut graph = ModuleGraph::new();
    let id = graph.add_module(module);
    graph.add_module(other);

    let diagnostics = Export.run_once(&graph, id);
    assert_eq!(diagnostics.len(), 1);
    assert_eq!(diagnostics[0].span(), Span::new(4, 5));
    assert!(diagnostics[0].name() == "a" || diagnostics[0].name() == "b");
}

#[test]
fn spans_that_differ_in_one_offset_are_different_places() {
    let mut module = ModuleRecord::new();
    module.add_export("a", Span::new(4, 5));
    module.add_export("b", Span::new(4, 6));
    module.add_export("c", Span::new(3, 6));
    module.add_star_export(Some("./other"));
    module.load_module("./other", 1);
    let mut other = ModuleRecord::new();
    other.add_export("a", Span::new(0, 1));
    other.add_export("b", Span::new(0, 1));
    other.add_export("c", Span::new(0, 1));
    let mut graph = ModuleGraph::new();
    let id = graph.add_module(module);
    graph.add_module(other);

    assert_eq!(
        sorted(&Export.run_once(&graph, id)),
        vec![("c".to_string(), 3, 6), ("a".to_string(), 4, 5), ("b".to_string(), 4, 6)]
    );
}

#[test]
fn message_names_the_export() {
    let diagnostic = ExportDiagnostic::NamedExport(Span::new(1, 4), "bar".to_string());
    assert_eq!(diagnostic.message(), "Multiple exports of name 'bar'.");
    assert_eq!(diagnostic.name(), "bar");
    assert_eq!(diagnostic.span(), Span::new(1, 4));
    assert_eq!(diagnostic.severity(), Severity::Warning);
    let empty = ExportDiagnostic::NamedExport(Span::new(0, 0), String::new());
    assert_eq!(empty.message(), "Multiple exports of name ''.");
}

#[test]
fn running_twice_gives_the_same_report() {
    let mut module = ModuleRecord::new();
    module.add_export("a", Span::new(0, 1));
    module.add_export("b", Span::new(2, 3));
    module.add_star_export(Some("./other"));
    module.load_module("./other", 1);
    let mut other = ModuleRecord::new();
    other.add_export("a", Span::new(0, 1));
    other.add_export("b", Span::new(0, 1));
    let mut graph = ModuleGraph::new();
    let id = graph.add_module(module);
    graph.add_module(other);

    let first = sorted(&Export.run_once(&graph, id));
    let second = sorted(&Export::default().run_once(&graph, id));
    assert_eq!(first, second);
    assert_eq!(first.len(), 2);
    // the graph is only read
    assert_eq!(graph.len(), 2);
    assert_eq!(graph.modules[0].exported_bindings.len(), 2);
}
