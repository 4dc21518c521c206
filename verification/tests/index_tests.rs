use spotcast::index::{
    app_tree_step, enter_app_directory, enter_tree_directory, fs_event_action, has_extension,
    index_entry, is_application_path, needs_index_reset, should_exclude_directory,
    should_index_file, subtree_prefix, tree_step, FsEventAction, FsEventKind, IndexLookup, IndexerAction,
    SearchIndexState, TreeStep,
};

#[test]
fn new_state_is_idle() {
    let s = SearchIndexState::new();
    assert!(!s.is_ready());
    assert!(!s.is_building());
    assert_eq!(s.get_db_path(), None);
}

#[test]
fn indexer_without_path_is_unavailable() {
    let mut s = SearchIndexState::new();
    assert!(matches!(s.begin_indexing(), IndexerAction::Unavailable));
    assert!(!s.is_building());
}

#[test]
fn indexer_builds_then_ready() {
    let mut s = SearchIndexState::new();
    s.set_db_path("index.sqlite3".to_string());
    match s.begin_indexing() {
        IndexerAction::Build(p) => assert_eq!(p, "index.sqlite3"),
        _ => panic!("expected a build"),
    }
    assert!(s.is_building());
    s.finish_indexing(true);
    assert!(s.is_ready());
    assert!(!s.is_building());
    match s.begin_indexing() {
        IndexerAction::Watch(p) => assert_eq!(p, "index.sqlite3"),
        _ => panic!("expected watching"),
    }
}

#[test]
fn failed_build_is_not_ready() {
    let mut s = SearchIndexState::new();
    s.set_db_path("db".to_string());
    let _ = s.begin_indexing();
    s.finish_indexing(false);
    assert!(!s.is_ready());
    assert!(!s.is_building());
}

#[test]
fn loaded_index_is_ready_when_not_empty() {
    let mut s = SearchIndexState::new();
    s.record_loaded_index("db".to_string(), 0);
    assert!(!s.is_ready());
    assert_eq!(s.get_db_path(), Some("db".to_string()));
    s.record_loaded_index("db".to_string(), 12);
    assert!(s.is_ready());
}

#[test]
fn lookup_reports_status_while_not_ready() {
    let mut s = SearchIndexState::new();
    match s.lookup() {
        IndexLookup::Status(item) => {
            assert_eq!(item.id, "indexing");
            assert_eq!(item.title, "Search index unavailable");
            assert_eq!(item.subtitle, "Try again in a moment");
            assert_eq!(item.category, "status");
            assert_eq!(item.action_payload, "");
        }
        _ => panic!("expected a status item"),
    }
    s.set_db_path("db".to_string());
    let _ = s.begin_indexing();
    match s.lookup() {
        IndexLookup::Status(item) => {
            assert_eq!(item.title, "Building search index...");
            assert_eq!(item.subtitle, "Your files are being indexed in the background");
        }
        _ => panic!("expected a status item"),
    }
    s.finish_indexing(true);
    match s.lookup() {
        IndexLookup::Query(p) => assert_eq!(p, "db"),
        _ => panic!("expected a query"),
    }
}

#[test]
fn index_version_check() {
    assert!(!needs_index_reset(Some("2")));
    assert!(needs_index_reset(Some("1")));
    assert!(needs_index_reset(None));
}

#[test]
fn excluded_directories_any_case() {
    assert!(should_exclude_directory(Some("node_modules")));
    assert!(should_exclude_directory(Some("Program Files (x86)")));
    assert!(should_exclude_directory(Some("$Recycle.Bin")));
    assert!(!should_exclude_directory(Some("Documents")));
    assert!(!should_exclude_directory(None));
}

#[test]
fn extensions() {
    assert!(has_extension("Discord.lnk", "lnk", "url"));
    assert!(has_extension("site.URL", "lnk", "url"));
    assert!(has_extension("a.b.exe", "lnk", "exe"));
    assert!(!has_extension(".lnk", "lnk", "url"));
    assert!(!has_extension("lnk", "lnk", "url"));
    assert!(!has_extension("file.lnk.txt", "lnk", "url"));
}

#[test]
fn tree_walk_rules() {
    assert!(enter_tree_directory(0, Some("D:\\"), false));
    assert!(!enter_tree_directory(65, Some("code"), false));
    assert!(enter_tree_directory(64, Some("code"), false));
    assert!(!enter_tree_directory(1, Some("target"), false));
    assert!(!enter_tree_directory(1, Some("code"), true));
    assert_eq!(tree_step(Some(".git"), false, true), TreeStep::Skip);
    assert_eq!(tree_step(Some("src"), false, true), TreeStep::Descend);
    assert_eq!(tree_step(Some("dist"), false, true), TreeStep::Skip);
    assert_eq!(tree_step(Some("notes.txt"), false, false), TreeStep::Index("file"));
    assert_eq!(tree_step(Some("Discord.lnk"), false, false), TreeStep::Skip);
    assert_eq!(tree_step(Some("notes.txt"), true, false), TreeStep::Skip);
    assert_eq!(tree_step(None, false, false), TreeStep::Skip);
}

#[test]
fn app_walk_rules() {
    assert!(enter_app_directory(12, true));
    assert!(!enter_app_directory(13, true));
    assert!(!enter_app_directory(0, false));
    assert_eq!(app_tree_step(Some("Discord.lnk"), false, false), TreeStep::Index("app"));
    assert_eq!(app_tree_step(Some("tool.EXE"), false, false), TreeStep::Index("app"));
    assert_eq!(app_tree_step(Some("readme.txt"), false, false), TreeStep::Skip);
    assert_eq!(app_tree_step(Some("Games"), false, true), TreeStep::Descend);
    assert_eq!(app_tree_step(Some("Games"), true, true), TreeStep::Skip);
}

#[test]
fn changed_files() {
    assert!(!should_index_file(Some(".hidden")));
    assert!(should_index_file(Some("visible.lnk")));
    assert!(should_index_file(None));
    let path = r"C:\Users\me\AppData\Roaming\Microsoft\Windows\Start Menu\Programs\Discord.lnk";
    assert!(is_application_path(path, Some("Discord.lnk"), false));
    assert!(!is_application_path(r"D:\docs\Discord.lnk", Some("Discord.lnk"), false));
    assert!(is_application_path(r"D:\Desktop\Tool.exe", Some("Tool.exe"), true));
    assert!(!is_application_path(r"D:\Desktop\notes.txt", Some("notes.txt"), true));
}

#[test]
fn file_system_events() {
    let none: Vec<String> = Vec::new();
    assert_eq!(fs_event_action(FsEventKind::Remove, false, false, "x", Some("x"), &none, false), FsEventAction::Delete);
    assert_eq!(fs_event_action(FsEventKind::Other, true, false, "x", Some("x"), &none, false), FsEventAction::Ignore);
    assert_eq!(
        fs_event_action(FsEventKind::Create, true, false, "d", Some("d"), &none, false),
        FsEventAction::DeleteAndIndexTree
    );
    assert_eq!(
        fs_event_action(FsEventKind::Modify, false, true, "a.txt", Some("a.txt"), &none, false),
        FsEventAction::DeleteAndIndexFile("file")
    );
    assert_eq!(
        fs_event_action(FsEventKind::Modify, false, true, r"D:\Desktop\a.lnk", Some("a.lnk"), &none, true),
        FsEventAction::DeleteAndIndexFile("app")
    );
    assert_eq!(
        fs_event_action(FsEventKind::Create, false, true, ".env", Some(".env"), &none, false),
        FsEventAction::Delete
    );
    assert_eq!(
        fs_event_action(FsEventKind::Create, false, false, "gone", Some("gone"), &none, false),
        FsEventAction::Ignore
    );
}

fn names(v: &[&str]) -> Vec<String> {
    v.iter().map(|s| s.to_string()).collect()
}

#[test]
fn file_system_events_under_left_out_directories() {
    let under_modules = names(&["proj", "node_modules"]);
    assert_eq!(
        fs_event_action(
            FsEventKind::Create,
            false,
            true,
            "D:/proj/node_modules/x.js",
            Some("x.js"),
            &under_modules,
            false
        ),
        FsEventAction::Delete
    );
    assert_eq!(
        fs_event_action(FsEventKind::Create, true, false, "D:/proj/node_modules/pkg", Some("pkg"), &under_modules, false),
        FsEventAction::Delete
    );
    let under_git = names(&["proj", ".git"]);
    assert_eq!(
        fs_event_action(FsEventKind::Modify, false, true, "D:/proj/.git/HEAD", Some("HEAD"), &under_git, false),
        FsEventAction::Delete
    );
    let under_target = names(&["Target"]);
    assert_eq!(
        fs_event_action(FsEventKind::Modify, false, true, "D:/Target/a.txt", Some("a.txt"), &under_target, false),
        FsEventAction::Delete
    );
    // A new excluded or hidden directory is not walked either.
    let plain = names(&["proj"]);
    assert_eq!(
        fs_event_action(FsEventKind::Create, true, false, "D:/proj/build", Some("build"), &plain, false),
        FsEventAction::Delete
    );
    assert_eq!(
        fs_event_action(FsEventKind::Create, true, false, "D:/proj/.cache", Some(".cache"), &plain, false),
        FsEventAction::Delete
    );
    // Elsewhere the usual rules hold.
    assert_eq!(
        fs_event_action(FsEventKind::Create, false, true, "D:/proj/src/x.js", Some("x.js"), &names(&["proj", "src"]), false),
        FsEventAction::DeleteAndIndexFile("file")
    );
    assert_eq!(
        fs_event_action(FsEventKind::Create, true, false, "D:/proj/docs", Some("docs"), &plain, false),
        FsEventAction::DeleteAndIndexTree
    );
    assert_eq!(
        fs_event_action(FsEventKind::Remove, false, false, "D:/proj/node_modules/x.js", Some("x.js"), &under_modules, false),
        FsEventAction::Delete
    );
    assert_eq!(
        fs_event_action(FsEventKind::Create, false, false, "D:/proj/node_modules/gone", Some("gone"), &under_modules, false),
        FsEventAction::Ignore
    );
}

#[test]
fn index_entries() {
    let e = index_entry(r"D:\code\app", Some("app"), "project");
    assert_eq!(e.path, r"D:\code\app");
    assert_eq!(e.title, "app");
    assert_eq!(e.subtitle, r"D:\code\app");
    assert_eq!(e.category, "project");
    let root = index_entry(r"D:\", None, "project");
    assert_eq!(root.title, r"D:\");
}

#[test]
fn subtree_prefix_adds_a_backslash() {
    assert_eq!(subtree_prefix(r"D:\proj"), r"D:\proj\");
    assert_eq!(subtree_prefix(""), r"\");
}
