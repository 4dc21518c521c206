use vstd::prelude::*;

use crate::index::{extension_in, has_extension_in};
use crate::model::{item, ItemView, ProjectApp, SearchResultItem};
use crate::text::{
    chars_of, contains_chars, contains_seq, eq_ignore_ascii_case, eq_ignore_ascii_case_range,
    to_lower, push_str, str_eq, str_to_lowercase, str_views, string_of,
};

verus! {

/// What is known of a directory when choosing the application that opens it:
/// the names of its entries, and whether its `Cargo.toml` is a regular file.
pub struct ProjectDir {
    pub entries: Vec<String>,
    pub cargo_toml_is_file: bool,
}

impl ProjectDir {
    /// `name` exists in the directory: some entry has that name up to ASCII
    /// case, as file names are compared on Windows.
    pub open spec fn has(self, name: Seq<char>) -> bool {
        exists|i: int|
            0 <= i < self.entries@.len() && eq_ignore_ascii_case(
                #[trigger] self.entries@[i]@,
                name,
            )
    }

    /// Some entry of the directory is a .NET solution or project file.
    pub open spec fn has_dotnet_project(self) -> bool {
        exists|i: int|
            0 <= i < self.entries@.len() && extension_in(
                #[trigger] self.entries@[i]@,
                dotnet_extensions(),
            )
    }

    /// Some name of `names` exists in the directory.
    pub open spec fn has_any_of(self, names: Seq<Seq<char>>) -> bool {
        exists|i: int| 0 <= i < names.len() && self.has(#[trigger] names[i])
    }
}

pub open spec fn android_markers() -> Seq<Seq<char>> {
    seq!["AndroidManifest.xml"@]
}

pub open spec fn gradle_markers() -> Seq<Seq<char>> {
    seq![
        "build.gradle"@,
        "build.gradle.kts"@,
        "settings.gradle"@,
        "settings.gradle.kts"@,
        "gradle"@,
        "gradlew"@,
        "gradlew.bat"@,
    ]
}

pub open spec fn jvm_markers() -> Seq<Seq<char>> {
    seq![
        ".gradle"@,
        "gradle"@,
        "gradle.properties"@,
        "settings.gradle"@,
        "settings.gradle.kts"@,
        "build.gradle"@,
        "build.gradle.kts"@,
        "gradlew"@,
        "gradlew.bat"@,
        "pom.xml"@,
        "mvnw"@,
        "mvnw.cmd"@,
    ]
}

pub open spec fn python_markers() -> Seq<Seq<char>> {
    seq![
        ".venv"@,
        "venv"@,
        "pyproject.toml"@,
        "requirements.txt"@,
        "Pipfile"@,
        "setup.py"@,
        "setup.cfg"@,
    ]
}

/// Extensions (lower case) of .NET solution and project files.
pub open spec fn dotnet_extensions() -> Seq<Seq<char>> {
    seq!["sln"@, "slnx"@, "csproj"@, "fsproj"@, "vbproj"@]
}

pub open spec fn web_markers() -> Seq<Seq<char>> {
    seq![
        "node_modules"@,
        "package.json"@,
        "bun.lock"@,
        "bun.lockb"@,
        "pnpm-lock.yaml"@,
        "yarn.lock"@,
        "package-lock.json"@,
        "vite.config.ts"@,
        "vite.config.js"@,
        "svelte.config.js"@,
        "svelte.config.ts"@,
        "next.config.js"@,
        "next.config.ts"@,
        "astro.config.js"@,
        "astro.config.ts"@,
    ]
}

pub open spec fn generic_markers() -> Seq<Seq<char>> {
    seq!["src"@, "README.md"@, "README"@]
}

/// The application a project directory is opened with, by the first rule
/// that applies: `AndroidManifest.xml` with Gradle files, JVM build files, Python
/// files, a `Cargo.toml` file, a .NET solution or project file (an entry
/// whose extension is one of `dotnet_extensions`, in any case), web tooling
/// files, and last a source folder or README.
pub open spec fn spec_detect_best_app(dir: ProjectDir) -> Option<ProjectApp> {
    if dir.has_any_of(android_markers()) && dir.has_any_of(gradle_markers()) {
        Some(ProjectApp::AndroidStudio)
    } else if dir.has_any_of(jvm_markers()) {
        Some(ProjectApp::IntelliJ)
    } else if dir.has_any_of(python_markers()) {
        Some(ProjectApp::PyCharm)
    } else if dir.cargo_toml_is_file {
        Some(ProjectApp::RustRover)
    } else if dir.has_dotnet_project() {
        Some(ProjectApp::VisualStudio)
    } else if dir.has_any_of(web_markers()) {
        Some(ProjectApp::VsCode)
    } else if dir.has_any_of(generic_markers()) {
        Some(ProjectApp::VsCode)
    } else {
        None
    }
}

/// A directory that has a name of a group has some name of the group.
proof fn lemma_has_marker(dir: ProjectDir, group: Seq<Seq<char>>, names: Seq<Seq<char>>, n: Seq<char>)
    requires
        group == names,
        names.contains(n),
        dir.has(n),
    ensures
        dir.has_any_of(group),
{
    let i = choose|i: int| 0 <= i < names.len() && names[i] == n;
    assert(dir.has(group[i]));
}

/// A folder with `AndroidManifest.xml` and a Gradle build file or wrapper
/// opens in Android Studio.
pub proof fn law_android_projects_open_in_android_studio(dir: ProjectDir, g: Seq<char>)
    requires
        dir.has("AndroidManifest.xml"@),
        seq![
            "build.gradle"@,
            "build.gradle.kts"@,
            "settings.gradle"@,
            "settings.gradle.kts"@,
            "gradle"@,
            "gradlew"@,
            "gradlew.bat"@,
        ].contains(g),
        dir.has(g),
    ensures
        spec_detect_best_app(dir) == Some(ProjectApp::AndroidStudio),
{
    assert(dir.has(android_markers()[0]));
    lemma_has_marker(
        dir,
        gradle_markers(),
        seq![
            "build.gradle"@,
            "build.gradle.kts"@,
            "settings.gradle"@,
            "settings.gradle.kts"@,
            "gradle"@,
            "gradlew"@,
            "gradlew.bat"@,
        ],
        g,
    );
}

/// A folder with a Gradle or Maven file that is not an Android project
/// opens in IntelliJ IDEA.
pub proof fn law_jvm_projects_open_in_intellij(dir: ProjectDir, n: Seq<char>)
    requires
        !(dir.has_any_of(android_markers()) && dir.has_any_of(gradle_markers())),
        seq![
            ".gradle"@,
            "gradle"@,
            "gradle.properties"@,
            "settings.gradle"@,
            "settings.gradle.kts"@,
            "build.gradle"@,
            "build.gradle.kts"@,
            "gradlew"@,
            "gradlew.bat"@,
            "pom.xml"@,
            "mvnw"@,
            "mvnw.cmd"@,
        ].contains(n),
        dir.has(n),
    ensures
        spec_detect_best_app(dir) == Some(ProjectApp::IntelliJ),
{
    lemma_has_marker(
        dir,
        jvm_markers(),
        seq![
            ".gradle"@,
            "gradle"@,
            "gradle.properties"@,
            "settings.gradle"@,
            "settings.gradle.kts"@,
            "build.gradle"@,
            "build.gradle.kts"@,
            "gradlew"@,
            "gradlew.bat"@,
            "pom.xml"@,
            "mvnw"@,
            "mvnw.cmd"@,
        ],
        n,
    );
}

/// A folder with a Python environment or Python packaging file, and no
/// Android or JVM build file, opens in PyCharm.
pub proof fn law_python_projects_open_in_pycharm(dir: ProjectDir, n: Seq<char>)
    requires
        !(dir.has_any_of(android_markers()) && dir.has_any_of(gradle_markers())),
        !dir.has_any_of(jvm_markers()),
        seq![
            ".venv"@,
            "venv"@,
            "pyproject.toml"@,
            "requirements.txt"@,
            "Pipfile"@,
            "setup.py"@,
            "setup.cfg"@,
        ].contains(n),
        dir.has(n),
    ensures
        spec_detect_best_app(dir) == Some(ProjectApp::PyCharm),
{
    lemma_has_marker(
        dir,
        python_markers(),
        seq![
            ".venv"@,
            "venv"@,
            "pyproject.toml"@,
            "requirements.txt"@,
            "Pipfile"@,
            "setup.py"@,
            "setup.cfg"@,
        ],
        n,
    );
}

/// A folder with a `Cargo.toml` file, and no Android, JVM or Python marker,
/// opens in RustRover.
pub proof fn law_rust_projects_open_in_rustrover(dir: ProjectDir)
    requires
        !(dir.has_any_of(android_markers()) && dir.has_any_of(gradle_markers())),
        !dir.has_any_of(jvm_markers()),
        !dir.has_any_of(python_markers()),
        dir.cargo_toml_is_file,
    ensures
        spec_detect_best_app(dir) == Some(ProjectApp::RustRover),
{
}

/// A folder holding a `.sln`, `.slnx`, `.csproj`, `.fsproj` or `.vbproj`
/// file (in any case), and no earlier marker, opens in Visual Studio.
pub proof fn law_dotnet_projects_open_in_visual_studio(dir: ProjectDir, i: int)
    requires
        !(dir.has_any_of(android_markers()) && dir.has_any_of(gradle_markers())),
        !dir.has_any_of(jvm_markers()),
        !dir.has_any_of(python_markers()),
        !dir.cargo_toml_is_file,
        0 <= i < dir.entries@.len(),
        extension_in(dir.entries@[i]@, seq!["sln"@, "slnx"@, "csproj"@, "fsproj"@, "vbproj"@]),
    ensures
        spec_detect_best_app(dir) == Some(ProjectApp::VisualStudio),
{
    assert(dotnet_extensions() =~= seq!["sln"@, "slnx"@, "csproj"@, "fsproj"@, "vbproj"@]);
    assert(extension_in(dir.entries@[i]@, dotnet_extensions()));
}

/// A folder with web tooling files (Node, Bun, pnpm, Yarn, Vite, Svelte,
/// Next, Astro), and no earlier marker, opens in VS Code.
pub proof fn law_web_projects_open_in_vscode(dir: ProjectDir, n: Seq<char>)
    requires
        !(dir.has_any_of(android_markers()) && dir.has_any_of(gradle_markers())),
        !dir.has_any_of(jvm_markers()),
        !dir.has_any_of(python_markers()),
        !dir.cargo_toml_is_file,
        !dir.has_dotnet_project(),
        seq![
            "node_modules"@,
            "package.json"@,
            "bun.lock"@,
            "bun.lockb"@,
            "pnpm-lock.yaml"@,
            "yarn.lock"@,
            "package-lock.json"@,
            "vite.config.ts"@,
            "vite.config.js"@,
            "svelte.config.js"@,
            "svelte.config.ts"@,
            "next.config.js"@,
            "next.config.ts"@,
            "astro.config.js"@,
            "astro.config.ts"@,
        ].contains(n),
        dir.has(n),
    ensures
        spec_detect_best_app(dir) == Some(ProjectApp::VsCode),
{
    lemma_has_marker(
        dir,
        web_markers(),
        seq![
            "node_modules"@,
            "package.json"@,
            "bun.lock"@,
            "bun.lockb"@,
            "pnpm-lock.yaml"@,
            "yarn.lock"@,
            "package-lock.json"@,
            "vite.config.ts"@,
            "vite.config.js"@,
            "svelte.config.js"@,
            "svelte.config.ts"@,
            "next.config.js"@,
            "next.config.ts"@,
            "astro.config.js"@,
            "astro.config.ts"@,
        ],
        n,
    );
}

/// A folder with a `src` folder or a README, and no earlier marker, opens in
/// VS Code; a folder without any marker gets no application.
pub proof fn law_other_folders_open_in_vscode_or_nothing(dir: ProjectDir, n: Seq<char>)
    requires
        !(dir.has_any_of(android_markers()) && dir.has_any_of(gradle_markers())),
        !dir.has_any_of(jvm_markers()),
        !dir.has_any_of(python_markers()),
        !dir.cargo_toml_is_file,
        !dir.has_dotnet_project(),
        !dir.has_any_of(web_markers()),
    ensures
        seq!["src"@, "README.md"@, "README"@].contains(n) && dir.has(n) ==> spec_detect_best_app(
            dir,
        ) == Some(ProjectApp::VsCode),
        !dir.has("src"@) && !dir.has("README.md"@) && !dir.has("README"@)
            ==> spec_detect_best_app(dir) is None,
{
    if seq!["src"@, "README.md"@, "README"@].contains(n) && dir.has(n) {
        lemma_has_marker(dir, generic_markers(), seq!["src"@, "README.md"@, "README"@], n);
    }
    if !dir.has("src"@) && !dir.has("README.md"@) && !dir.has("README"@) {
        assert forall|i: int| 0 <= i < generic_markers().len() implies !dir.has(
            #[trigger] generic_markers()[i],
        ) by {
            assert(generic_markers()[i] == "src"@ || generic_markers()[i] == "README.md"@
                || generic_markers()[i] == "README"@);
        }
    }
}

/// Whether `name` exists in the directory.
fn dir_has(dir: &ProjectDir, name: &str) -> (r: bool)
    ensures
        r == dir.has(name@),
{
    let n = chars_of(name);
    let mut i: usize = 0;
    while i < dir.entries.len()
        invariant
            i <= dir.entries.len(),
            n@ == name@,
            forall|k: int|
                0 <= k < i ==> !eq_ignore_ascii_case(#[trigger] dir.entries@[k]@, name@),
        decreases dir.entries.len() - i,
    {
        let e = chars_of(dir.entries[i].as_str());
        assert(e@.subrange(0, e@.len() as int) == e@);
        if eq_ignore_ascii_case_range(&e, 0, e.len(), &n) {
            return true;
        }
        i = i + 1;
    }
    false
}

/// Whether some name of `names` exists in the directory.
pub fn has_any(dir: &ProjectDir, names: &Vec<&str>) -> (r: bool)
    ensures
        r == dir.has_any_of(str_views(names@)),
{
    let ghost ns = str_views(names@);
    let mut i: usize = 0;
    while i < names.len()
        invariant
            i <= names.len(),
            ns == str_views(names@),
            forall|k: int| 0 <= k < i ==> !dir.has(#[trigger] ns[k]),
        decreases names.len() - i,
    {
        if dir_has(dir, names[i]) {
            assert(ns[i as int] == names@[i as int]@);
            return true;
        }
        assert(ns[i as int] == names@[i as int]@);
        i = i + 1;
    }
    false
}

fn android_marker_list() -> (v: Vec<&'static str>)
    ensures
        str_views(v@) == android_markers(),
{
    let v = vec!["AndroidManifest.xml"];
    assert(str_views(v@) =~= android_markers());
    v
}

fn gradle_marker_list() -> (v: Vec<&'static str>)
    ensures
        str_views(v@) == gradle_markers(),
{
    let v = vec!["build.gradle", "build.gradle.kts", "settings.gradle", "settings.gradle.kts", "gradle", "gradlew", "gradlew.bat"];
    assert(str_views(v@) =~= gradle_markers());
    v
}

fn jvm_marker_list() -> (v: Vec<&'static str>)
    ensures
        str_views(v@) == jvm_markers(),
{
    let v = vec![".gradle", "gradle", "gradle.properties", "settings.gradle", "settings.gradle.kts", "build.gradle", "build.gradle.kts", "gradlew", "gradlew.bat", "pom.xml", "mvnw", "mvnw.cmd"];
    assert(str_views(v@) =~= jvm_markers());
    v
}

fn python_marker_list() -> (v: Vec<&'static str>)
    ensures
        str_views(v@) == python_markers(),
{
    let v = vec![".venv", "venv", "pyproject.toml", "requirements.txt", "Pipfile", "setup.py", "setup.cfg"];
    assert(str_views(v@) =~= python_markers());
    v
}

fn dotnet_extension_list() -> (v: Vec<&'static str>)
    ensures
        str_views(v@) == dotnet_extensions(),
{
    let v = vec!["sln", "slnx", "csproj", "fsproj", "vbproj"];
    assert(str_views(v@) =~= dotnet_extensions());
    v
}

/// Whether some entry of the directory is a .NET solution or project file.
fn has_dotnet_project(dir: &ProjectDir) -> (r: bool)
    ensures
        r == dir.has_dotnet_project(),
{
    let exts = dotnet_extension_list();
    let mut i: usize = 0;
    while i < dir.entries.len()
        invariant
            i <= dir.entries.len(),
            str_views(exts@) == dotnet_extensions(),
            forall|k: int|
                0 <= k < i ==> !extension_in(#[trigger] dir.entries@[k]@, dotnet_extensions()),
        decreases dir.entries.len() - i,
    {
        if has_extension_in(dir.entries[i].as_str(), &exts) {
            return true;
        }
        i = i + 1;
    }
    false
}

fn web_marker_list() -> (v: Vec<&'static str>)
    ensures
        str_views(v@) == web_markers(),
{
    let v = vec!["node_modules", "package.json", "bun.lock", "bun.lockb", "pnpm-lock.yaml", "yarn.lock", "package-lock.json", "vite.config.ts", "vite.config.js", "svelte.config.js", "svelte.config.ts", "next.config.js", "next.config.ts", "astro.config.js", "astro.config.ts"];
    assert(str_views(v@) =~= web_markers());
    v
}

fn generic_marker_list() -> (v: Vec<&'static str>)
    ensures
        str_views(v@) == generic_markers(),
{
    let v = vec!["src", "README.md", "README"];
    assert(str_views(v@) =~= generic_markers());
    v
}

/// Chooses the application that opens a project directory (see
/// `spec_detect_best_app`); `None` when no rule applies.
pub fn detect_best_app(dir: &ProjectDir) -> (r: Option<ProjectApp>)
    ensures
        r == spec_detect_best_app(*dir),
{
    if has_any(dir, &android_marker_list()) && has_any(dir, &gradle_marker_list()) {
        return Some(ProjectApp::AndroidStudio);
    }
    if has_any(dir, &jvm_marker_list()) {
        return Some(ProjectApp::IntelliJ);
    }
    if has_any(dir, &python_marker_list()) {
        return Some(ProjectApp::PyCharm);
    }
    if dir.cargo_toml_is_file {
        return Some(ProjectApp::RustRover);
    }
    if has_dotnet_project(dir) {
        return Some(ProjectApp::VisualStudio);
    }
    if has_any(dir, &web_marker_list()) {
        return Some(ProjectApp::VsCode);
    }
    if has_any(dir, &generic_marker_list()) {
        return Some(ProjectApp::VsCode);
    }
    None
}

/// How a project is opened with an application.
pub enum LaunchPlan {
    /// With VS Code.
    VsCode,
    /// With a JetBrains IDE: the executables to look for, in order, and the
    /// IDE's name for messages.
    JetBrains { executables: Vec<&'static str>, app_name: &'static str },
    /// With Visual Studio.
    VisualStudio,
}

/// The executables looked for, in order, and the name, of the JetBrains IDE
/// that stands for `app`; `None` for the applications that are not JetBrains IDEs.
pub open spec fn jetbrains_launch(app: ProjectApp) -> Option<(Seq<Seq<char>>, Seq<char>)> {
    match app {
        ProjectApp::IntelliJ => Some(
            (seq!["idea64.exe"@, "idea.exe"@, "idea.bat"@], "IntelliJ IDEA"@),
        ),
        ProjectApp::PyCharm => Some(
            (seq!["pycharm64.exe"@, "pycharm.exe"@, "pycharm.bat"@], "PyCharm"@),
        ),
        ProjectApp::RustRover => Some(
            (seq!["rustrover64.exe"@, "rustrover.exe"@, "rustrover.bat"@], "RustRover"@),
        ),
        ProjectApp::AndroidStudio => Some(
            (seq!["studio64.exe"@, "studio.exe"@, "studio.bat"@], "Android Studio"@),
        ),
        _ => None,
    }
}

/// Decides how a project is opened with `app`: VS Code and Visual Studio
/// each have their own launcher, the JetBrains IDEs share one that is given
/// the IDE's executables and name.
pub fn launch_project(app: ProjectApp) -> (r: LaunchPlan)
    ensures
        app == ProjectApp::VsCode ==> r is VsCode,
        app == ProjectApp::VisualStudio ==> r is VisualStudio,
        jetbrains_launch(app) matches Some((exes, name)) ==> (r matches LaunchPlan::JetBrains {
            executables,
            app_name,
        } && str_views(executables@) == exes && app_name@ == name),
{
    match app {
        ProjectApp::VsCode => LaunchPlan::VsCode,
        ProjectApp::IntelliJ => {
            let v = vec!["idea64.exe", "idea.exe", "idea.bat"];
            assert(str_views(v@) =~= seq!["idea64.exe"@, "idea.exe"@, "idea.bat"@]);
            LaunchPlan::JetBrains { executables: v, app_name: "IntelliJ IDEA" }
        },
        ProjectApp::PyCharm => {
            let v = vec!["pycharm64.exe", "pycharm.exe", "pycharm.bat"];
            assert(str_views(v@) =~= seq!["pycharm64.exe"@, "pycharm.exe"@, "pycharm.bat"@]);
            LaunchPlan::JetBrains { executables: v, app_name: "PyCharm" }
        },
        ProjectApp::RustRover => {
            let v = vec!["rustrover64.exe", "rustrover.exe", "rustrover.bat"];
            assert(str_views(v@) =~= seq![
                "rustrover64.exe"@,
                "rustrover.exe"@,
                "rustrover.bat"@,
            ]);
            LaunchPlan::JetBrains { executables: v, app_name: "RustRover" }
        },
        ProjectApp::AndroidStudio => {
            let v = vec!["studio64.exe", "studio.exe", "studio.bat"];
            assert(str_views(v@) =~= seq!["studio64.exe"@, "studio.exe"@, "studio.bat"@]);
            LaunchPlan::JetBrains { executables: v, app_name: "Android Studio" }
        },
        ProjectApp::VisualStudio => LaunchPlan::VisualStudio,
    }
}

/// The usual install places of Visual Studio's `devenv.exe`, in the order
/// they are tried.
pub open spec fn visual_studio_install_paths() -> Seq<Seq<char>> {
    seq![
        "C:\\Program Files\\Microsoft Visual Studio\\2022\\Community\\Common7\\IDE\\devenv.exe"@,
        "C:\\Program Files\\Microsoft Visual Studio\\2022\\Professional\\Common7\\IDE\\devenv.exe"@,
        "C:\\Program Files\\Microsoft Visual Studio\\2022\\Enterprise\\Common7\\IDE\\devenv.exe"@,
        "C:\\Program Files\\Microsoft Visual Studio\\2019\\Community\\Common7\\IDE\\devenv.exe"@,
        "C:\\Program Files\\Microsoft Visual Studio\\2019\\Professional\\Common7\\IDE\\devenv.exe"@,
        "C:\\Program Files\\Microsoft Visual Studio\\2019\\Enterprise\\Common7\\IDE\\devenv.exe"@,
    ]
}

/// The usual install places of Visual Studio's `devenv.exe`, in the order
/// they are tried.
pub fn visual_studio_paths() -> (r: Vec<&'static str>)
    ensures
        str_views(r@) == visual_studio_install_paths(),
{
    let v = vec![
        "C:\\Program Files\\Microsoft Visual Studio\\2022\\Community\\Common7\\IDE\\devenv.exe",
        "C:\\Program Files\\Microsoft Visual Studio\\2022\\Professional\\Common7\\IDE\\devenv.exe",
        "C:\\Program Files\\Microsoft Visual Studio\\2022\\Enterprise\\Common7\\IDE\\devenv.exe",
        "C:\\Program Files\\Microsoft Visual Studio\\2019\\Community\\Common7\\IDE\\devenv.exe",
        "C:\\Program Files\\Microsoft Visual Studio\\2019\\Professional\\Common7\\IDE\\devenv.exe",
        "C:\\Program Files\\Microsoft Visual Studio\\2019\\Enterprise\\Common7\\IDE\\devenv.exe",
    ];
    assert(str_views(v@) =~= visual_studio_install_paths());
    v
}

/// The Visual Studio executable to start: `devenv` when it is on the search
/// path, else the first install place (of `visual_studio_paths`) that holds
/// it, else the message `Visual Studio could not be found`. `installed[i]`
/// says whether install place `i` holds `devenv.exe`.
pub fn visual_studio_executable(devenv_on_path: bool, installed: &Vec<bool>) -> (r: Result<
    &'static str,
    &'static str,
>)
    ensures
        devenv_on_path ==> (r matches Ok(e) && e@ == "devenv"@),
        !devenv_on_path ==> match r {
            Ok(e) => exists|i: int|
                0 <= i < installed@.len() && i < 6 && installed@[i] && e@
                    == visual_studio_install_paths()[i] && forall|k: int|
                    0 <= k < i ==> !#[trigger] installed@[k],
            Err(m) => m@ == "Visual Studio could not be found"@ && forall|k: int|
                0 <= k < installed@.len() && k < 6 ==> !#[trigger] installed@[k],
        },
{
    if devenv_on_path {
        return Ok("devenv");
    }
    let paths = visual_studio_paths();
    assert(str_views(paths@).len() == paths@.len());
    let mut i: usize = 0;
    while i < paths.len() && i < installed.len()
        invariant
            i <= paths.len(),
            str_views(paths@) == visual_studio_install_paths(),
            paths@.len() == 6,
            !devenv_on_path,
            forall|k: int| 0 <= k < i ==> !#[trigger] installed@[k],
        decreases paths.len() - i,
    {
        if installed[i] {
            assert(str_views(paths@)[i as int] == paths@[i as int]@);
            return Ok(paths[i]);
        }
        i = i + 1;
    }
    Err("Visual Studio could not be found")
}

/// A project result names the application it opens with in its subtitle.
pub open spec fn with_app_item(x: ItemView, app: Option<ProjectApp>) -> ItemView {
    if x.category == "project"@ && app is Some {
        item(
            x.id,
            x.title,
            x.action_payload + " • Open with "@ + app->0.spec_name(),
            x.category,
            x.action_payload,
        )
    } else {
        x
    }
}

/// Adds to a project result (category `project`) the application its
/// directory opens with, when there is one; other results stay as they are.
pub fn with_project_app(x: SearchResultItem, app: Option<ProjectApp>) -> (r: SearchResultItem)
    ensures
        r@ == with_app_item(x@, app),
{
    if !str_eq(x.category.as_str(), "project") {
        return x;
    }
    match app {
        None => x,
        Some(a) => {
            let mut subtitle = x.action_payload.clone();
            push_str(&mut subtitle, " • Open with ");
            push_str(&mut subtitle, a.name());
            SearchResultItem::new(x.id, x.title, subtitle, x.category, x.action_payload)
        },
    }
}

/// A folder under `Programs` belongs to a JetBrains product when its
/// lower-case name holds one of these.
pub open spec fn jetbrains_product_words() -> Seq<Seq<char>> {
    seq!["intellij"@, "pycharm"@, "rustrover"@, "android"@, "jetbrains"@]
}

/// Whether a folder with this name holds a JetBrains product.
pub fn is_jetbrains_product(name: &str) -> (r: bool)
    ensures
        r == exists|i: int|
            0 <= i < 5 && contains_seq(to_lower(name@), #[trigger] jetbrains_product_words()[i]),
{
    let lower = str_to_lowercase(name);
    let l = chars_of(lower.as_str());
    let list = vec!["intellij", "pycharm", "rustrover", "android", "jetbrains"];
    let ghost words = jetbrains_product_words();
    assert(str_views(list@) =~= words);
    let mut i: usize = 0;
    while i < list.len()
        invariant
            i <= list.len(),
            list@.len() == 5,
            str_views(list@) == words,
            words == jetbrains_product_words(),
            l@ == to_lower(name@),
            forall|k: int| 0 <= k < i ==> !contains_seq(l@, #[trigger] words[k]),
        decreases list.len() - i,
    {
        let w = chars_of(list[i]);
        assert(words[i as int] == list@[i as int]@);
        if contains_chars(&l, &w) {
            return true;
        }
        i = i + 1;
    }
    false
}

/// What opening a path does.
pub enum OpenAction {
    /// Fail with this message.
    Fail(String),
    /// Open the path with the system's default handler.
    OpenDefault,
    /// Open the project directory with this application.
    Launch(ProjectApp),
    /// Open the directory with VS Code, else with the default handler.
    VsCodeThenDefault,
}

/// Decides how a path is opened: a missing path fails, a file opens with the
/// default handler, a directory with the application detected for it, or
/// else VS Code and then the default handler.
pub fn open_path_action(path: &str, exists: bool, is_dir: bool, app: Option<ProjectApp>) -> (r:
    OpenAction)
    ensures
        !exists ==> (r matches OpenAction::Fail(m) && m@ == "Path does not exist: "@ + path@),
        exists && !is_dir ==> r is OpenDefault,
        exists && is_dir ==> match app {
            Some(a) => r == OpenAction::Launch(a),
            None => r is VsCodeThenDefault,
        },
{
    if !exists {
        let mut m = string_of("Path does not exist: ");
        push_str(&mut m, path);
        return OpenAction::Fail(m);
    }
    if !is_dir {
        return OpenAction::OpenDefault;
    }
    match app {
        Some(a) => OpenAction::Launch(a),
        None => OpenAction::VsCodeThenDefault,
    }
}

/// The message when launching a project with `app` failed with `error`.
pub fn launch_error(app: ProjectApp, error: &str) -> (r: String)
    ensures
        r@ == "Could not launch "@ + app.spec_name() + ": "@ + error@,
{
    let mut m = string_of("Could not launch ");
    push_str(&mut m, app.name());
    push_str(&mut m, ": ");
    push_str(&mut m, error);
    m
}

/// The message when both VS Code and the default handler failed.
pub fn open_fallback_error(vscode_error: &str, explorer_error: &str) -> (r: String)
    ensures
        r@ == "VS Code failed: "@ + vscode_error@ + "; Explorer failed: "@ + explorer_error@,
{
    let mut m = string_of("VS Code failed: ");
    push_str(&mut m, vscode_error);
    push_str(&mut m, "; Explorer failed: ");
    push_str(&mut m, explorer_error);
    m
}

} // verus!
