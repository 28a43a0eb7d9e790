use boab::workspace::{InitAction, PathKind, Workspace, DEFAULT_CONFIG};

#[test]
fn paths_under_the_workspace() {
    let ws = Workspace::open("/home/u/proj".to_string(), PathKind::Directory, true).unwrap();
    assert_eq!(ws.root(), "/home/u/proj");
    assert_eq!(ws.dir(), "/home/u/proj/.boab");
    assert_eq!(ws.config_path(), "/home/u/proj/.boab/config.toml");
    assert_eq!(ws.systems_path(), "/home/u/proj/.boab/systems.json");
    assert_eq!(ws.inventory_path(), "/home/u/proj/.boab/inventory.json");
    assert_eq!(ws.scans_dir(), "/home/u/proj/.boab/scans");
    assert_eq!(ws.plans_dir(), "/home/u/proj/.boab/plans");
    assert_eq!(ws.reports_dir(), "/home/u/proj/.boab/reports");
    assert_eq!(ws.vendor_overrides_path(), "/home/u/proj/.boab/vendor-overrides.json");
    let root = Workspace::open("/".to_string(), PathKind::Directory, true).unwrap();
    assert_eq!(root.dir(), "/.boab");
}

#[test]
fn open_refuses_missing_or_malformed_workspace() {
    let e = Workspace::open("/p".to_string(), PathKind::Missing, false).unwrap_err();
    assert_eq!(e.message(), "workspace not initialised: /p/.boab is missing. Run `boab init` first.");
    let e = Workspace::open("/p".to_string(), PathKind::Other, false).unwrap_err();
    assert_eq!(e.message(), "/p/.boab exists but is not a directory");
    let e = Workspace::open("/p".to_string(), PathKind::Directory, false).unwrap_err();
    assert_eq!(e.message(), "workspace at /p/.boab is malformed: missing config.toml");
}

#[test]
fn init_decisions() {
    let (_, a) = Workspace::init("/p".to_string(), false, false, false).unwrap();
    assert_eq!(a, InitAction::Create { remove_existing: false });
    let (_, a) = Workspace::init("/p".to_string(), true, true, false).unwrap();
    assert_eq!(a, InitAction::AlreadyInitialised);
    let (_, a) = Workspace::init("/p".to_string(), true, false, true).unwrap();
    assert_eq!(a, InitAction::Create { remove_existing: true });
    let e = Workspace::init("/p".to_string(), true, false, false).unwrap_err();
    assert_eq!(
        e.message(),
        "/p/.boab exists but is malformed (no config.toml). Use `boab init --force --yes` to recreate."
    );
}

#[test]
fn layout_of_a_new_workspace() {
    let ws = Workspace::open("/p".to_string(), PathKind::Directory, true).unwrap();
    let dirs = ws.layout_dirs();
    assert_eq!(dirs, vec!["/p/.boab", "/p/.boab/scans", "/p/.boab/plans", "/p/.boab/reports"]);
    let files = ws.layout_files();
    assert_eq!(files[0].0, "/p/.boab/config.toml");
    assert_eq!(files[0].1, DEFAULT_CONFIG);
    assert!(DEFAULT_CONFIG.contains("air_gapped = true"));
    assert_eq!(files[3].1, "{\"entries\":[]}\n");
}

#[test]
fn init_creates_workspace_layout() {
    let (ws, a) = Workspace::init("/tmp/w".to_string(), false, false, false).unwrap();
    assert_eq!(a, InitAction::Create { remove_existing: false });
    let dirs = ws.layout_dirs();
    for d in [".boab", ".boab/scans", ".boab/plans", ".boab/reports"] {
        assert!(dirs.contains(&format!("/tmp/w/{}", d)), "missing directory {}", d);
    }
    let files: Vec<String> = ws.layout_files().into_iter().map(|(p, _)| p).collect();
    for f in ["config.toml", "systems.json", "inventory.json", "vendor-overrides.json"] {
        assert!(files.contains(&format!("/tmp/w/.boab/{}", f)), "missing file {}", f);
    }
}

#[test]
fn init_is_idempotent() {
    let (_, first) = Workspace::init("/tmp/w".to_string(), false, false, false).unwrap();
    assert_eq!(first, InitAction::Create { remove_existing: false });
    let (_, second) = Workspace::init("/tmp/w".to_string(), true, true, false).unwrap();
    assert_eq!(second, InitAction::AlreadyInitialised);
}

#[test]
fn workspace_not_initialised_errors() {
    let e = Workspace::open("/tmp/w".to_string(), PathKind::Missing, false).unwrap_err();
    assert!(e.message().contains("not initialised"));
}
