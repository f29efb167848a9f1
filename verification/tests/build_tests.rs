use alta_build::closure::build_closure;
use alta_build::package::Info;
use alta_build::package::ManifestState;
use alta_build::package::Workspace;

fn path(s: &str) -> Vec<String> {
    if s.is_empty() {
        Vec::new()
    } else {
        s.split('/').map(|x| x.to_string()).collect()
    }
}

fn ws_with(files: &[(&str, Option<&str>)]) -> Workspace {
    let mut ws = Workspace::new();
    ws.add_dir(path(""), ManifestState::Parsed(Info::new()));
    for (p, contents) in files {
        ws.add_file(path(p), contents.map(|c| c.to_string()));
    }
    ws
}

fn tree_names(trees: &[alta_build::ast::root_node::RootNode]) -> Vec<String> {
    let mut names: Vec<String> = trees.iter().map(|t| t.source_path.join("/")).collect();
    names.sort();
    names
}

#[test]
fn two_files_build_cleanly() {
    let ws = ws_with(&[("main.alta", Some("import \"./util\"\n")), ("util.alta", Some(""))]);
    let (trees, had_errors) = build_closure(&ws, vec![path("main.alta")]);
    assert_eq!(trees.len(), 2);
    assert!(!had_errors);
    assert_eq!(tree_names(&trees), vec!["main.alta".to_string(), "util.alta".to_string()]);
}

#[test]
fn unresolvable_import_flags_error_but_keeps_tree() {
    let ws = ws_with(&[("a.alta", Some("import \"./missing\"\n"))]);
    let (trees, had_errors) = build_closure(&ws, vec![path("a.alta")]);
    assert_eq!(trees.len(), 1);
    assert!(had_errors);
    assert_eq!(tree_names(&trees), vec!["a.alta".to_string()]);
}

#[test]
fn shared_dependency_parsed_once() {
    let ws = ws_with(&[
        ("a.alta", Some("import \"./b\"\n")),
        ("c.alta", Some("import \"./b\"\n")),
        ("b.alta", Some("")),
    ]);
    let (trees, had_errors) = build_closure(&ws, vec![path("a.alta"), path("c.alta")]);
    assert!(!had_errors);
    assert_eq!(trees.len(), 3);
    assert_eq!(
        tree_names(&trees),
        vec!["a.alta".to_string(), "b.alta".to_string(), "c.alta".to_string()]
    );
}

#[test]
fn import_cycle_terminates_and_parses_each_once() {
    let ws = ws_with(&[
        ("a.alta", Some("import \"./b\"\n")),
        ("b.alta", Some("import \"./a\"\n")),
    ]);
    let (trees, had_errors) = build_closure(&ws, vec![path("a.alta")]);
    assert!(!had_errors);
    assert_eq!(trees.len(), 2);
    assert_eq!(tree_names(&trees), vec!["a.alta".to_string(), "b.alta".to_string()]);
}

#[test]
fn failing_dependency_flags_error_but_keeps_importer() {
    let ws = ws_with(&[
        ("a.alta", Some("import \"./b\"\n")),
        ("b.alta", Some("this is not a statement\n")),
    ]);
    let (trees, had_errors) = build_closure(&ws, vec![path("a.alta")]);
    assert!(had_errors);
    assert_eq!(trees.len(), 1);
    assert_eq!(tree_names(&trees), vec!["a.alta".to_string()]);
}

#[test]
fn unreadable_file_flags_error() {
    let ws = ws_with(&[("a.alta", Some("import \"./b\"\n")), ("b.alta", None)]);
    let (trees, had_errors) = build_closure(&ws, vec![path("a.alta")]);
    assert!(had_errors);
    assert_eq!(trees.len(), 1);
}

#[test]
fn missing_seed_flags_error() {
    let ws = ws_with(&[]);
    let (trees, had_errors) = build_closure(&ws, vec![path("nowhere.alta")]);
    assert!(had_errors);
    assert_eq!(trees.len(), 0);
}

#[test]
fn empty_seed_set_returns_immediately() {
    let ws = ws_with(&[("a.alta", Some(""))]);
    let (trees, had_errors) = build_closure(&ws, Vec::new());
    assert_eq!(trees.len(), 0);
    assert!(!had_errors);
}

#[test]
fn resolved_targets_recorded_in_trees() {
    let ws = ws_with(&[("main.alta", Some("import \"./util\"\n")), ("util.alta", Some(""))]);
    let (trees, _) = build_closure(&ws, vec![path("main.alta")]);
    let main_tree = trees
        .iter()
        .find(|t| t.source_path.join("/") == "main.alta")
        .expect("main tree present");
    assert_eq!(main_tree.statements.len(), 1);
    match &main_tree.statements[0] {
        alta_build::ast::global_statement::GlobalStatement::Import(st) => {
            assert_eq!(st.target, "./util");
            assert_eq!(st.resolved_target.as_ref().map(|p| p.join("/")), Some("util.alta".to_string()));
        }
        _ => panic!("expected an import statement"),
    }
}

#[test]
fn dedup_set_claims_each_key_once() {
    let mut d = alta_build::dedup::DedupSet::new();
    assert!(d.insert(path("a/b.alta")));
    assert!(!d.insert(path("a/b.alta")));
    assert!(d.insert(path("a/c.alta")));
    assert!(d.contains(&path("a/b.alta")));
    assert!(!d.contains(&path("a/d.alta")));
}
