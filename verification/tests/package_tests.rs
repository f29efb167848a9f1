use alta_build::package::find_package;
use alta_build::package::find_package_root;
use alta_build::package::resolve_import;
use alta_build::package::Info;
use alta_build::package::ManifestState;
use alta_build::package::Target;
use alta_build::package::TargetKind;
use alta_build::package::Workspace;
use alta_build::paths::parent_of;
use alta_build::paths::path_eq;
use alta_build::paths::resolve_chrooted;

fn path(s: &str) -> Vec<String> {
    if s.is_empty() {
        Vec::new()
    } else {
        s.split('/').map(|x| x.to_string()).collect()
    }
}

fn named_info(name: &str) -> Info {
    let mut i = Info::new();
    i.name = name.to_string();
    i
}

#[test]
fn info_new_defaults() {
    let i = Info::new();
    assert_eq!(i.name, "");
    assert_eq!(i.version, "0.0.0");
    assert_eq!(i.targets.len(), 0);
}

#[test]
fn targets_carry_their_fields() {
    let t = Target { name: "app".to_string(), main: "main.alta".to_string(), kind: TargetKind::Binary };
    assert_eq!(t.name, "app");
    assert!(matches!(t.kind, TargetKind::Binary));
    assert!(matches!(
        Target { name: String::new(), main: String::new(), kind: TargetKind::Library }.kind,
        TargetKind::Library
    ));
}

#[test]
fn chrooted_paths_normalize() {
    assert_eq!(resolve_chrooted(&path("../foo/bar")), path("foo/bar"));
    assert_eq!(resolve_chrooted(&path("./a/./b")), path("a/b"));
    assert_eq!(resolve_chrooted(&path("a/../b")), path("b"));
    assert_eq!(resolve_chrooted(&vec!["".to_string(), "x".to_string()]), path("x"));
    assert_eq!(resolve_chrooted(&path("../../..")), Vec::<String>::new());
}

#[test]
fn path_helpers_behave() {
    assert!(path_eq(&path("a/b"), &path("a/b")));
    assert!(!path_eq(&path("a/b"), &path("a/c")));
    assert_eq!(parent_of(&path("a/b/c")), path("a/b"));
    assert_eq!(parent_of(&Vec::new()), Vec::<String>::new());
}

#[test]
fn package_root_is_nearest_manifest_ancestor() {
    let mut ws = Workspace::new();
    ws.add_dir(path(""), ManifestState::Parsed(named_info("outer")));
    ws.add_dir(path("sub"), ManifestState::Missing);
    ws.add_dir(path("sub/pkg"), ManifestState::Parsed(named_info("inner")));
    ws.add_dir(path("sub/pkg/src"), ManifestState::Missing);
    let root = find_package_root(&ws, &path("sub/pkg/src/main.alta"));
    assert_eq!(root, Some(path("sub/pkg")));
    let root2 = find_package_root(&ws, &path("sub/other.alta"));
    assert_eq!(root2, Some(path("")));
}

#[test]
fn package_root_absent_without_manifest() {
    let mut ws = Workspace::new();
    ws.add_dir(path(""), ManifestState::Missing);
    assert_eq!(find_package_root(&ws, &path("a/b.alta")), None);
}

#[test]
fn find_package_checks_self_children_vendor_siblings() {
    let mut ws = Workspace::new();
    ws.add_dir(path("me"), ManifestState::Parsed(named_info("me")));
    ws.add_dir(path("me/dep"), ManifestState::Parsed(named_info("dep")));
    ws.add_dir(path("me/alta-vendor"), ManifestState::Missing);
    ws.add_dir(path("me/alta-vendor/vend"), ManifestState::Parsed(named_info("vend")));
    ws.add_dir(path("sib"), ManifestState::Parsed(named_info("sib")));
    assert_eq!(find_package(&ws, "me", &path("me")), Some(path("me")));
    assert_eq!(find_package(&ws, "dep", &path("me")), Some(path("me/dep")));
    assert_eq!(find_package(&ws, "vend", &path("me")), Some(path("me/alta-vendor/vend")));
    assert_eq!(find_package(&ws, "sib", &path("me")), Some(path("sib")));
    assert_eq!(find_package(&ws, "nobody", &path("me")), None);
}

#[test]
fn resolve_relative_import_to_sibling_file() {
    let mut ws = Workspace::new();
    ws.add_dir(path(""), ManifestState::Parsed(Info::new()));
    ws.add_file(path("util.alta"), Some(String::new()));
    let r = resolve_import(&ws, &path("main.alta"), "./util");
    assert_eq!(r, Some(path("util.alta")));
}

#[test]
fn resolve_rooted_import_from_package_root() {
    let mut ws = Workspace::new();
    ws.add_dir(path("pkg"), ManifestState::Parsed(Info::new()));
    ws.add_dir(path("pkg/src"), ManifestState::Missing);
    ws.add_file(path("pkg/lib.alta"), Some(String::new()));
    let r = resolve_import(&ws, &path("pkg/src/main.alta"), "/lib");
    assert_eq!(r, Some(path("pkg/lib.alta")));
}

#[test]
fn resolve_directory_import_to_its_main() {
    let mut ws = Workspace::new();
    ws.add_dir(path(""), ManifestState::Parsed(Info::new()));
    ws.add_dir(path("mod"), ManifestState::Missing);
    ws.add_file(path("mod/main.alta"), Some(String::new()));
    let r = resolve_import(&ws, &path("main.alta"), "./mod");
    assert_eq!(r, Some(path("mod/main.alta")));
}

#[test]
fn resolve_package_import_through_vendor() {
    let mut ws = Workspace::new();
    ws.add_dir(path("me"), ManifestState::Parsed(named_info("me")));
    ws.add_dir(path("me/alta-vendor"), ManifestState::Missing);
    ws.add_dir(path("me/alta-vendor/dep"), ManifestState::Parsed(named_info("dep")));
    ws.add_file(path("me/alta-vendor/dep/util.alta"), Some(String::new()));
    let r = resolve_import(&ws, &path("me/main.alta"), "dep/util");
    assert_eq!(r, Some(path("me/alta-vendor/dep/util.alta")));
}

#[test]
fn resolve_fails_without_package_root() {
    let mut ws = Workspace::new();
    ws.add_dir(path(""), ManifestState::Missing);
    ws.add_file(path("util.alta"), Some(String::new()));
    assert_eq!(resolve_import(&ws, &path("main.alta"), "./util"), None);
}

#[test]
fn resolve_fails_for_unknown_target() {
    let mut ws = Workspace::new();
    ws.add_dir(path(""), ManifestState::Parsed(Info::new()));
    assert_eq!(resolve_import(&ws, &path("main.alta"), "./nowhere"), None);
    assert_eq!(resolve_import(&ws, &path("main.alta"), ""), None);
}
