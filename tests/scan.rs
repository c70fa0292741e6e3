use std::collections::HashMap;

use ts_vis_rs::{Container, GlobPattern, ScanState, Scanner, ScannerOptions};

fn patterns(texts: &[&str]) -> Vec<GlobPattern> {
    texts.iter().map(|t| GlobPattern::new(t).ok().unwrap()).collect()
}

fn scanner(filter: &[&str], includes: Option<&[&str]>) -> Scanner {
    Scanner::new(
        "/p".to_string(),
        ScannerOptions { filter: patterns(filter), includes: includes.map(patterns) },
    )
}

/// Drives a scan over a project given as a table from each file to the
/// resolved imports of its specifiers (`None`: did not resolve).
fn run(scanner: &Scanner, entry: &str, project: &[(&str, Vec<Option<&str>>)]) -> (Container, Vec<String>) {
    let table: HashMap<&str, &Vec<Option<&str>>> = project.iter().map(|(f, i)| (*f, i)).collect();
    let mut state: ScanState = scanner.scan(entry);
    let mut reads = Vec::new();
    let mut steps = 0;
    while let Some(file) = state.pending() {
        steps += 1;
        assert!(steps <= 100, "scan does not terminate");
        let imports = table
            .get(file.as_str())
            .map(|v| v.iter().map(|o| o.map(|s| s.to_string())).collect())
            .unwrap_or_default();
        reads.push(file);
        scanner.next(&mut state, imports);
    }
    assert!(state.is_complete());
    (state.into_container(), reads)
}

fn edges(c: &Container) -> Vec<(&str, &str)> {
    c.edges().iter().map(|(s, t)| (s.as_str(), t.as_str())).collect()
}

#[test]
fn mutual_imports_terminate() {
    let s = scanner(&["*node_modules/*"], None);
    let (c, reads) = run(&s, "/p/a.ts", &[("/p/a.ts", vec![Some("/p/b.ts")]), ("/p/b.ts", vec![Some("/p/a.ts")])]);
    assert_eq!(c.nodes(), &vec!["/p/a.ts".to_string(), "/p/b.ts".to_string()]);
    assert_eq!(edges(&c), vec![("/p/a.ts", "/p/b.ts"), ("/p/b.ts", "/p/a.ts")]);
    assert_eq!(reads.len(), 2);
}

#[test]
fn diamond_visits_each_file_once() {
    let s = scanner(&[], None);
    let (c, reads) = run(
        &s,
        "/p/i.ts",
        &[
            ("/p/i.ts", vec![Some("/p/a.ts"), Some("/p/b.ts")]),
            ("/p/a.ts", vec![Some("/p/c.ts")]),
            ("/p/b.ts", vec![Some("/p/c.ts")]),
            ("/p/c.ts", vec![]),
        ],
    );
    assert_eq!(c.nodes(), &vec!["/p/i.ts", "/p/a.ts", "/p/c.ts", "/p/b.ts"].iter().map(|s| s.to_string()).collect::<Vec<_>>());
    assert_eq!(reads.len(), 4);
    assert_eq!(
        edges(&c),
        vec![("/p/i.ts", "/p/a.ts"), ("/p/a.ts", "/p/c.ts"), ("/p/i.ts", "/p/b.ts"), ("/p/b.ts", "/p/c.ts")]
    );
}

#[test]
fn repeated_import_gives_two_edges() {
    let s = scanner(&[], None);
    let (c, _) = run(&s, "/p/a.ts", &[("/p/a.ts", vec![Some("/p/b.ts"), Some("/p/b.ts")])]);
    assert_eq!(c.nodes().len(), 2);
    assert_eq!(edges(&c), vec![("/p/a.ts", "/p/b.ts"), ("/p/a.ts", "/p/b.ts")]);
}

#[test]
fn exclusion_blocks_descent() {
    let s = scanner(&["*/vendor/*"], None);
    let (c, reads) = run(
        &s,
        "/p/a.ts",
        &[
            ("/p/a.ts", vec![Some("/p/vendor/x.js"), Some("/p/b.ts")]),
            ("/p/vendor/x.js", vec![Some("/p/y.js")]),
            ("/p/b.ts", vec![]),
        ],
    );
    assert_eq!(c.nodes(), &vec!["/p/a.ts".to_string(), "/p/b.ts".to_string()]);
    assert_eq!(edges(&c), vec![("/p/a.ts", "/p/b.ts")]);
    assert!(!reads.iter().any(|r| r == "/p/vendor/x.js" || r == "/p/y.js"));
}

#[test]
fn entry_is_visited_even_if_excluded() {
    let s = scanner(&["*/vendor/*"], None);
    let (c, _) = run(&s, "/p/vendor/e.js", &[("/p/vendor/e.js", vec![Some("/p/a.ts")])]);
    assert_eq!(c.nodes(), &vec!["/p/vendor/e.js".to_string(), "/p/a.ts".to_string()]);
}

fn src_project() -> Vec<(&'static str, Vec<Option<&'static str>>)> {
    vec![
        ("/p/src/i.ts", vec![Some("/p/src/a.ts"), Some("/p/lib/l.ts")]),
        ("/p/src/a.ts", vec![Some("/p/lib/l.ts")]),
        ("/p/lib/l.ts", vec![Some("/p/src/a.ts")]),
    ]
}

#[test]
fn inclusion_filters_export_only() {
    let plain = scanner(&[], None);
    let narrowed = scanner(&[], Some(&["*/src/*"]));
    let (c1, r1) = run(&plain, "/p/src/i.ts", &src_project());
    let (c2, r2) = run(&narrowed, "/p/src/i.ts", &src_project());
    assert_eq!(r1, r2);
    assert_eq!(c1.nodes(), c2.nodes());
    assert_eq!(c1.edges(), c2.edges());
    let all = c1.materialize();
    let some = c2.materialize();
    assert_eq!(all.nodes().len(), 3);
    assert_eq!(all.edges().len(), 4);
    assert_eq!(some.nodes(), &vec!["/p/src/i.ts".to_string(), "/p/src/a.ts".to_string()]);
    assert_eq!(some.edges(), &vec![("/p/src/i.ts".to_string(), "/p/src/a.ts".to_string())]);
    let expected: Vec<&String> = all.nodes().iter().filter(|n| n.contains("/src/")).collect();
    assert_eq!(some.nodes().iter().collect::<Vec<_>>(), expected);
    assert!(c2.is_shown(&"/p/src/x.ts".to_string()));
    assert!(!c2.is_shown(&"/p/lib/l.ts".to_string()));
}

#[test]
fn export_is_deterministic() {
    let s = scanner(&[], None);
    let (c1, _) = run(&s, "/p/src/i.ts", &src_project());
    let (c2, _) = run(&s, "/p/src/i.ts", &src_project());
    assert_eq!(c1.print_graphviz(), c2.print_graphviz());
    assert_eq!(c1.print_graphviz(), c1.print_graphviz());
}

#[test]
fn unresolved_import_is_dropped() {
    let s = scanner(&[], None);
    let (c, _) = run(&s, "/p/a.ts", &[("/p/a.ts", vec![None, Some("/p/b.ts"), None]), ("/p/b.ts", vec![None])]);
    assert_eq!(c.nodes(), &vec!["/p/a.ts".to_string(), "/p/b.ts".to_string()]);
    assert_eq!(edges(&c), vec![("/p/a.ts", "/p/b.ts")]);
}

#[test]
fn concrete_scenario() {
    let s = scanner(&["*node_modules/*"], None);
    let (c, _) = run(
        &s,
        "/p/index.ts",
        &[
            ("/p/index.ts", vec![Some("/p/a.ts"), None]),
            ("/p/a.ts", vec![Some("/p/index.ts"), Some("/p/b.ts")]),
            ("/p/b.ts", vec![]),
        ],
    );
    assert_eq!(c.nodes(), &vec!["/p/index.ts".to_string(), "/p/a.ts".to_string(), "/p/b.ts".to_string()]);
    assert_eq!(edges(&c), vec![("/p/index.ts", "/p/a.ts"), ("/p/a.ts", "/p/index.ts"), ("/p/a.ts", "/p/b.ts")]);
    let text = c.print_graphviz();
    assert_eq!(
        text,
        "digraph main {\n  \"/p/index.ts\"[shape=record]\n  \"/p/a.ts\"[shape=record]\n  \"/p/b.ts\"[shape=record]\n  \"/p/index.ts\" -> \"/p/a.ts\"\n  \"/p/a.ts\" -> \"/p/index.ts\"\n  \"/p/a.ts\" -> \"/p/b.ts\"\n}"
    );
    let at = |needle: &str| text.find(needle).unwrap();
    assert!(text.starts_with("digraph main"));
    assert_eq!(text.matches("[shape=record]").count(), 3);
    assert_eq!(text.matches("->").count(), 3);
    assert!(at("\"/p/index.ts\"[shape=record]") < at("\"/p/a.ts\"[shape=record]"));
    assert!(at("\"/p/a.ts\"[shape=record]") < at("\"/p/b.ts\"[shape=record]"));
    assert!(at("\"/p/b.ts\"[shape=record]") < at("\"/p/index.ts\" -> \"/p/a.ts\""));
    assert!(at("\"/p/index.ts\" -> \"/p/a.ts\"") < at("\"/p/a.ts\" -> \"/p/index.ts\""));
    assert!(at("\"/p/a.ts\" -> \"/p/index.ts\"") < at("\"/p/a.ts\" -> \"/p/b.ts\""));
}

#[test]
fn next_after_completion_changes_nothing() {
    let s = scanner(&[], None);
    let mut state = s.scan("/p/a.ts");
    s.next(&mut state, vec![]);
    assert!(state.is_complete());
    s.next(&mut state, vec![Some("/p/b.ts".to_string())]);
    assert_eq!(state.container().nodes(), &vec!["/p/a.ts".to_string()]);
    assert!(state.container().edges().is_empty());
}

#[test]
fn scan_uses_patterns_set_before_it() {
    let mut s = scanner(&[], None);
    s.set_filters(patterns(&["*/b.ts"]));
    s.set_includes(Some(patterns(&["*/a.ts"])));
    let (c, _) = run(&s, "/p/a.ts", &[("/p/a.ts", vec![Some("/p/b.ts"), Some("/p/c.ts")])]);
    assert_eq!(c.nodes(), &vec!["/p/a.ts".to_string(), "/p/c.ts".to_string()]);
    assert_eq!(c.materialize().nodes(), &vec!["/p/a.ts".to_string()]);
    assert!(c.materialize().edges().is_empty());
    assert_eq!(s.root(), "/p");
}

#[test]
fn position_of_finds_first() {
    let s = scanner(&[], None);
    let (c, _) = run(&s, "/p/a.ts", &[("/p/a.ts", vec![Some("/p/b.ts")])]);
    let g = c.materialize();
    assert_eq!(g.position_of(&"/p/b.ts".to_string()), Some(1));
    assert_eq!(g.position_of(&"/p/z.ts".to_string()), None);
}

#[test]
fn petgraph_holds_the_export() {
    let s = scanner(&[], Some(&["*/src/*"]));
    let (c, _) = run(&s, "/p/src/i.ts", &src_project());
    let g = c.build_petgraph();
    assert_eq!(g.node_count(), 2);
    assert_eq!(g.edge_count(), 1);
    let names: Vec<&String> = g.node_indices().map(|i| &g[i]).collect();
    assert_eq!(names, vec!["/p/src/i.ts", "/p/src/a.ts"]);
    let e = g.edge_indices().next().unwrap();
    let (a, b) = g.edge_endpoints(e).unwrap();
    assert_eq!((g[a].as_str(), g[b].as_str()), ("/p/src/i.ts", "/p/src/a.ts"));
}

#[test]
fn petgraph_keeps_cycles_and_repeats() {
    let s = scanner(&[], None);
    let (c, _) = run(&s, "/p/a.ts", &[("/p/a.ts", vec![Some("/p/b.ts"), Some("/p/b.ts")]), ("/p/b.ts", vec![Some("/p/a.ts")])]);
    let g = c.build_petgraph();
    assert_eq!(g.node_count(), 2);
    assert_eq!(g.edge_count(), 3);
}

#[test]
fn empty_inclusion_list_shows_everything() {
    let all = scanner(&[], None);
    let empty = scanner(&[], Some(&[]));
    let (c1, _) = run(&all, "/p/src/i.ts", &src_project());
    let (c2, _) = run(&empty, "/p/src/i.ts", &src_project());
    assert_eq!(c2.materialize().nodes().len(), 3);
    assert_eq!(c2.materialize().edges().len(), 4);
    assert_eq!(c1.print_graphviz(), c2.print_graphviz());
    assert_eq!(c2.build_petgraph().node_count(), 3);
    assert!(c2.is_shown(&"/anything".to_string()));
}

#[test]
fn export_escapes_quotes_and_backslashes() {
    let s = scanner(&[], None);
    let (c, _) = run(&s, "/p/a\"b.ts", &[("/p/a\"b.ts", vec![Some("/p/c\\d.ts")])]);
    assert_eq!(
        c.print_graphviz(),
        "digraph main {\n  \"/p/a\\\"b.ts\"[shape=record]\n  \"/p/c\\\\d.ts\"[shape=record]\n  \"/p/a\\\"b.ts\" -> \"/p/c\\\\d.ts\"\n}"
    );
}
