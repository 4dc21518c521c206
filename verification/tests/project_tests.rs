use spotcast::model::ProjectApp;
use spotcast::project::{
    detect_best_app, is_jetbrains_product, launch_error, launch_project,
    open_fallback_error, open_path_action, visual_studio_executable, visual_studio_paths,
    with_project_app, LaunchPlan, OpenAction, ProjectDir,
};
use spotcast::model::SearchResultItem;

fn dir(names: &[&str], cargo: bool) -> ProjectDir {
    ProjectDir {
        entries: names.iter().map(|s| s.to_string()).collect(),
        cargo_toml_is_file: cargo,
    }
}

#[test]
fn detect_android_needs_android_xml_and_gradle() {
    assert_eq!(
        detect_best_app(&dir(&["AndroidManifest.xml", "gradlew"], false)),
        Some(ProjectApp::AndroidStudio)
    );
    assert_eq!(detect_best_app(&dir(&["AndroidManifest.xml"], false)), None);
    assert_eq!(detect_best_app(&dir(&["gradlew"], false)), Some(ProjectApp::IntelliJ));
}

#[test]
fn detect_rule_order() {
    assert_eq!(detect_best_app(&dir(&["pom.xml", "venv"], true)), Some(ProjectApp::IntelliJ));
    assert_eq!(detect_best_app(&dir(&["pyproject.toml"], true)), Some(ProjectApp::PyCharm));
    assert_eq!(detect_best_app(&dir(&["package.json"], true)), Some(ProjectApp::RustRover));
    assert_eq!(
        detect_best_app(&dir(&["App.sln", "package.json"], false)),
        Some(ProjectApp::VisualStudio)
    );
    assert_eq!(detect_best_app(&dir(&["bun.lock"], false)), Some(ProjectApp::VsCode));
    assert_eq!(detect_best_app(&dir(&["README.md"], false)), Some(ProjectApp::VsCode));
    assert_eq!(detect_best_app(&dir(&[], false)), None);
    assert_eq!(detect_best_app(&dir(&["notes.txt"], false)), None);
}

#[test]
fn detect_markers_ignore_ascii_case() {
    assert_eq!(detect_best_app(&dir(&["Readme.md"], false)), Some(ProjectApp::VsCode));
    assert_eq!(detect_best_app(&dir(&["PACKAGE.JSON"], false)), Some(ProjectApp::VsCode));
    assert_eq!(detect_best_app(&dir(&["POM.xml"], false)), Some(ProjectApp::IntelliJ));
    assert_eq!(detect_best_app(&dir(&["Src"], false)), Some(ProjectApp::VsCode));
    assert_eq!(detect_best_app(&dir(&["readme.mdx"], false)), None);
}

#[test]
fn detect_visual_studio_by_extension() {
    assert_eq!(
        detect_best_app(&dir(&["App.sln", "App.csproj"], false)),
        Some(ProjectApp::VisualStudio)
    );
    assert_eq!(detect_best_app(&dir(&["Tool.FSPROJ"], false)), Some(ProjectApp::VisualStudio));
    assert_eq!(detect_best_app(&dir(&["lib.vbproj", "src"], false)), Some(ProjectApp::VisualStudio));
    assert_eq!(detect_best_app(&dir(&["All.slnx"], false)), Some(ProjectApp::VisualStudio));
    // A name that only starts with a dot has no extension.
    assert_eq!(detect_best_app(&dir(&[".sln"], false)), None);
    assert_eq!(detect_best_app(&dir(&["notes.sln.txt"], false)), None);
    // Earlier rules come first.
    assert_eq!(detect_best_app(&dir(&["App.sln"], true)), Some(ProjectApp::RustRover));
    assert_eq!(detect_best_app(&dir(&["App.sln", "setup.py"], false)), Some(ProjectApp::PyCharm));
}

#[test]
fn project_app_names() {
    assert_eq!(ProjectApp::VsCode.name(), "VS Code");
    assert_eq!(ProjectApp::IntelliJ.name(), "IntelliJ IDEA");
    assert_eq!(ProjectApp::PyCharm.name(), "PyCharm");
    assert_eq!(ProjectApp::RustRover.name(), "RustRover");
    assert_eq!(ProjectApp::VisualStudio.name(), "Visual Studio");
    assert_eq!(ProjectApp::AndroidStudio.name(), "Android Studio");
}

#[test]
fn launch_plans() {
    assert!(matches!(launch_project(ProjectApp::VsCode), LaunchPlan::VsCode));
    assert!(matches!(launch_project(ProjectApp::VisualStudio), LaunchPlan::VisualStudio));
    match launch_project(ProjectApp::PyCharm) {
        LaunchPlan::JetBrains { executables, app_name } => {
            assert_eq!(executables, vec!["pycharm64.exe", "pycharm.exe", "pycharm.bat"]);
            assert_eq!(app_name, "PyCharm");
        }
        _ => panic!("expected a JetBrains plan"),
    }
    match launch_project(ProjectApp::AndroidStudio) {
        LaunchPlan::JetBrains { executables, app_name } => {
            assert_eq!(executables[0], "studio64.exe");
            assert_eq!(app_name, "Android Studio");
        }
        _ => panic!("expected a JetBrains plan"),
    }
}

#[test]
fn visual_studio_choice() {
    let paths = visual_studio_paths();
    assert_eq!(paths.len(), 6);
    assert_eq!(visual_studio_executable(true, &vec![true; 6]), Ok("devenv"));
    assert_eq!(
        visual_studio_executable(false, &vec![false, false, true, true, false, false]),
        Ok(paths[2])
    );
    assert_eq!(
        visual_studio_executable(false, &vec![false; 6]),
        Err("Visual Studio could not be found")
    );
    assert_eq!(
        paths[0],
        r"C:\Program Files\Microsoft Visual Studio\2022\Community\Common7\IDE\devenv.exe"
    );
}

#[test]
fn jetbrains_products() {
    assert!(is_jetbrains_product("IntelliJ IDEA Community Edition"));
    assert!(is_jetbrains_product("Android Studio"));
    assert!(!is_jetbrains_product("Microsoft VS Code"));
}

#[test]
fn open_path_actions() {
    match open_path_action("C:\\x", false, false, None) {
        OpenAction::Fail(m) => assert_eq!(m, "Path does not exist: C:\\x"),
        _ => panic!("expected a failure"),
    }
    assert!(matches!(open_path_action("f", true, false, Some(ProjectApp::VsCode)), OpenAction::OpenDefault));
    assert!(matches!(
        open_path_action("d", true, true, Some(ProjectApp::RustRover)),
        OpenAction::Launch(ProjectApp::RustRover)
    ));
    assert!(matches!(open_path_action("d", true, true, None), OpenAction::VsCodeThenDefault));
    assert_eq!(launch_error(ProjectApp::PyCharm, "boom"), "Could not launch PyCharm: boom");
    assert_eq!(open_fallback_error("a", "b"), "VS Code failed: a; Explorer failed: b");
}

#[test]
fn project_subtitle_names_app() {
    let item = SearchResultItem::new(
        "project:D:\\code\\app".to_string(),
        "app".to_string(),
        "D:\\code\\app".to_string(),
        "project".to_string(),
        "D:\\code\\app".to_string(),
    );
    let shown = with_project_app(item.clone(), Some(ProjectApp::RustRover));
    assert_eq!(shown.subtitle, "D:\\code\\app • Open with RustRover");
    assert_eq!(shown.title, "app");
    let plain = with_project_app(item.clone(), None);
    assert_eq!(plain, item);
    let mut file = item.clone();
    file.category = "file".to_string();
    assert_eq!(with_project_app(file.clone(), Some(ProjectApp::VsCode)), file);
}
