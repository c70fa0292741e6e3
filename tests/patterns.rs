use ts_vis_rs::dot::{dot_statements, quote_id, DotStmt};
use ts_vis_rs::{find_project_root, Container, GlobPattern, RootSearch, ScannerOptions};

#[test]
fn pattern_matches_path() {
    let p = GlobPattern::new("*/vendor/*").ok().unwrap();
    assert!(p.matches("/p/vendor/x.js"));
    assert!(!p.matches("/p/src/x.js"));
    assert_eq!(p.as_str(), "*/vendor/*");
}

#[test]
fn invalid_pattern_is_refused() {
    match GlobPattern::new("a***b") {
        Err(e) => assert_eq!(e.pattern, "a***b"),
        Ok(_) => panic!("accepted an invalid pattern"),
    }
    assert!(GlobPattern::new("[z-a").is_err() || GlobPattern::new("[").is_err());
}

#[test]
fn cloned_pattern_matches_alike() {
    let p = GlobPattern::new("*.ts").ok().unwrap();
    let q = p.clone();
    assert_eq!(q.as_str(), "*.ts");
    assert!(q.matches("/a/b.ts"));
    assert!(!q.matches("/a/b.js"));
}

#[test]
fn default_options_exclude_installed_packages() {
    let o = ScannerOptions::default();
    assert_eq!(o.filter.len(), 1);
    assert_eq!(o.filter[0].as_str(), "*node_modules/*");
    assert!(o.filter[0].matches("/p/node_modules/left-pad/index.js"));
    assert!(o.includes.is_none());
}

#[test]
fn empty_container_exports_empty_graph() {
    let c = Container::new(None);
    assert!(c.nodes().is_empty());
    assert!(c.edges().is_empty());
    let g = c.materialize();
    assert!(g.nodes().is_empty());
    assert_eq!(c.print_graphviz(), "digraph main {\n\n}");
}

#[test]
fn root_found_where_manifest_is() {
    match find_project_root("/p/src", true) {
        RootSearch::Found(d) => assert_eq!(d, "/p/src"),
        _ => panic!("expected the directory itself"),
    }
}

#[test]
fn root_search_goes_to_parent() {
    match find_project_root("/p/src", false) {
        RootSearch::Next(d) => assert_eq!(d, "/p"),
        _ => panic!("expected the parent"),
    }
}

#[test]
fn root_search_ends_at_filesystem_root() {
    assert!(matches!(find_project_root("/", false), RootSearch::NotFound));
}

#[test]
fn quote_id_escapes() {
    assert_eq!(quote_id("/a/b.ts"), "\"/a/b.ts\"");
    assert_eq!(quote_id("x\"y\\z"), "\"x\\\"y\\\\z\"");
    assert_eq!(quote_id(""), "\"\"");
}

#[test]
fn statements_are_nodes_then_edges() {
    let nodes = vec!["/a".to_string(), "/b".to_string()];
    let edges = vec![("/a".to_string(), "/b".to_string())];
    let stmts = dot_statements(&nodes, &edges);
    assert_eq!(stmts.len(), 3);
    match &stmts[1] {
        DotStmt::Node { id, attrs } => {
            assert_eq!(id, "\"/b\"");
            assert_eq!(attrs, &vec![("shape".to_string(), "record".to_string())]);
        }
        _ => panic!("expected a node statement"),
    }
    match &stmts[2] {
        DotStmt::Edge { source, target } => {
            assert_eq!(source, "\"/a\"");
            assert_eq!(target, "\"/b\"");
        }
        _ => panic!("expected an edge statement"),
    }
}
