use vstd::prelude::*;

use crate::model::SearchResultItem;
use crate::text::{
    chars_of, contains_chars, contains_seq, to_lower, push_char, str_eq, str_to_lowercase,
    str_to_uppercase, str_views, string_from_range, string_of, string_views, to_upper,
};

verus! {

/// What the search index state holds: where the index database is, whether
/// the index can be searched, and whether it is being built.
pub struct IndexStatus {
    pub db_path: Option<Seq<char>>,
    pub ready: bool,
    pub building: bool,
}

/// The state of the persistent search index, shared by the launcher's commands.
pub struct SearchIndexState {
    db_path: Option<String>,
    ready: bool,
    building: bool,
}

/// What starting the indexer should do.
pub enum IndexerAction {
    /// The index has no database path: nothing can be done.
    Unavailable,
    /// The index is ready: only watch the file system, on the database at this path.
    Watch(String),
    /// Build the index into the database at this path, then watch.
    Build(String),
}

/// How a query reaches the index.
pub enum IndexLookup {
    /// The index cannot be searched yet: this status item is the only result.
    Status(SearchResultItem),
    /// The index has no database: no results.
    NoResults,
    /// Search the database at this path.
    Query(String),
}

pub open spec fn opt_view(p: Option<String>) -> Option<Seq<char>> {
    match p {
        Some(s) => Some(s@),
        None => None,
    }
}

impl View for SearchIndexState {
    type V = IndexStatus;

    closed spec fn view(&self) -> IndexStatus {
        IndexStatus { db_path: opt_view(self.db_path), ready: self.ready, building: self.building }
    }
}

fn clone_opt(p: &Option<String>) -> (r: Option<String>)
    ensures
        opt_view(r) == opt_view(*p),
{
    match p {
        Some(s) => Some(s.clone()),
        None => None,
    }
}

/// The state after an index database at `path` holding `count` entries was
/// opened: the path is recorded, and the index is ready when it holds entries.
pub open spec fn loaded(st: IndexStatus, path: Seq<char>, count: int) -> IndexStatus {
    IndexStatus { db_path: Some(path), ready: st.ready || count > 0, building: st.building }
}

/// The state after the indexer started: building when there is a database
/// path and the index is not ready yet.
pub open spec fn begun(st: IndexStatus) -> IndexStatus {
    if st.db_path is Some && !st.ready {
        IndexStatus { building: true, ..st }
    } else {
        st
    }
}

/// The state after a build ended, successfully or not.
pub open spec fn finished(st: IndexStatus, built: bool) -> IndexStatus {
    IndexStatus { ready: st.ready || built, building: false, ..st }
}

/// An index that is ready stays ready: opening the database, starting the
/// indexer and ending a build never take readiness away.
pub proof fn law_ready_is_kept(st: IndexStatus, path: Seq<char>, count: int, built: bool)
    requires
        st.ready,
    ensures
        loaded(st, path, count).ready,
        begun(st).ready,
        finished(st, built).ready,
{
}

/// Building is marked exactly while a build runs: starting the indexer on
/// an index that is not ready (with a database path) marks it, and ending a
/// build clears it; a successful build makes the index ready.
pub proof fn law_building_brackets_a_build(st: IndexStatus, built: bool)
    ensures
        st.db_path is Some && !st.ready ==> begun(st).building,
        !finished(st, built).building,
        built ==> finished(st, built).ready,
{
}

impl SearchIndexState {
    /// A state with no database path, not ready and not building.
    pub fn new() -> (r: SearchIndexState)
        ensures
            r@ == (IndexStatus { db_path: None, ready: false, building: false }),
    {
        SearchIndexState { db_path: None, ready: false, building: false }
    }

    /// Records where the index database is.
    pub fn set_db_path(&mut self, path: String)
        ensures
            final(self)@ == (IndexStatus { db_path: Some(path@), ..old(self)@ }),
    {
        self.db_path = Some(path);
    }

    /// Where the index database is, once known.
    pub fn get_db_path(&self) -> (r: Option<String>)
        ensures
            opt_view(r) == self@.db_path,
    {
        clone_opt(&self.db_path)
    }

    /// Whether the index can be searched.
    pub fn is_ready(&self) -> (r: bool)
        ensures
            r == self@.ready,
    {
        self.ready
    }

    /// Whether the index is being built.
    pub fn is_building(&self) -> (r: bool)
        ensures
            r == self@.building,
    {
        self.building
    }

    /// Records an index database opened at `path` that holds `entry_count`
    /// entries: the index is ready when it holds any.
    pub fn record_loaded_index(&mut self, path: String, entry_count: i64)
        ensures
            final(self)@ == loaded(old(self)@, path@, entry_count as int),
    {
        self.db_path = Some(path);
        if entry_count > 0 {
            self.ready = true;
        }
    }

    /// Decides what starting the indexer does: nothing without a database
    /// path, only watching when the index is ready, else building (and the
    /// state is marked as building).
    pub fn begin_indexing(&mut self) -> (r: IndexerAction)
        ensures
            final(self)@ == begun(old(self)@),
            old(self)@.db_path is None ==> r is Unavailable,
            old(self)@.db_path matches Some(p) ==> if old(self)@.ready {
                r matches IndexerAction::Watch(q) && q@ == p
            } else {
                r matches IndexerAction::Build(q) && q@ == p
            },
    {
        match clone_opt(&self.db_path) {
            None => IndexerAction::Unavailable,
            Some(p) => {
                if self.ready {
                    IndexerAction::Watch(p)
                } else {
                    self.building = true;
                    IndexerAction::Build(p)
                }
            },
        }
    }

    /// Records the end of a build: the index is ready when the build
    /// succeeded, and is no longer building either way.
    pub fn finish_indexing(&mut self, built: bool)
        ensures
            final(self)@ == finished(old(self)@, built),
    {
        if built {
            self.ready = true;
        }
        self.building = false;
    }

    /// How a query reaches the index: a status item while it is not ready
    /// (telling apart building and unavailable), no results without a
    /// database path, else a query of the database.
    pub fn lookup(&self) -> (r: IndexLookup)
        ensures
            !self@.ready ==> (r matches IndexLookup::Status(item) && item.holds(
                "indexing"@,
                status_title(self@.building),
                status_subtitle(self@.building),
                "status"@,
                Seq::empty(),
            )),
            self@.ready && self@.db_path is None ==> r is NoResults,
            self@.ready ==> (self@.db_path matches Some(p) ==> (r matches IndexLookup::Query(q)
                && q@ == p)),
    {
        if !self.ready {
            let title = if self.building {
                string_of("Building search index...")
            } else {
                string_of("Search index unavailable")
            };
            let subtitle = if self.building {
                string_of("Your files are being indexed in the background")
            } else {
                string_of("Try again in a moment")
            };
            return IndexLookup::Status(
                SearchResultItem::new(
                    string_of("indexing"),
                    title,
                    subtitle,
                    string_of("status"),
                    String::new(),
                ),
            );
        }
        match clone_opt(&self.db_path) {
            None => IndexLookup::NoResults,
            Some(p) => IndexLookup::Query(p),
        }
    }
}

/// Title of the status item shown while the index cannot be searched.
pub open spec fn status_title(building: bool) -> Seq<char> {
    if building {
        "Building search index..."@
    } else {
        "Search index unavailable"@
    }
}

/// Subtitle of the status item shown while the index cannot be searched.
pub open spec fn status_subtitle(building: bool) -> Seq<char> {
    if building {
        "Your files are being indexed in the background"@
    } else {
        "Try again in a moment"@
    }
}

/// Whether an index database must be emptied and re-stamped: its recorded
/// version is not the current one, `2`.
pub fn needs_index_reset(version: Option<&str>) -> (r: bool)
    ensures
        r == !(version matches Some(v) && v@ == "2"@),
{
    match version {
        Some(v) => !str_eq(v, "2"),
        None => true,
    }
}

/// Index of the last `.` in `name`, or -1.
pub open spec fn last_dot(name: Seq<char>) -> int
    decreases name.len(),
{
    if name.len() == 0 {
        -1
    } else if name.last() == '.' {
        name.len() - 1
    } else {
        last_dot(name.drop_last())
    }
}

/// The extension of a file name (`Path::extension`): the text after the last
/// `.`, unless there is none or it is the name's first character.
pub open spec fn file_extension(name: Seq<char>) -> Option<Seq<char>> {
    let i = last_dot(name);
    if i <= 0 {
        None
    } else {
        Some(name.skip(i + 1))
    }
}

proof fn lemma_last_dot_at(name: Seq<char>, j: int)
    requires
        -1 <= j < name.len(),
        forall|k: int| j < k < name.len() ==> #[trigger] name[k] != '.',
        j == -1 || name[j] == '.',
    ensures
        last_dot(name) == j,
    decreases name.len(),
{
    if name.len() > 0 && j < name.len() - 1 {
        let t = name.drop_last();
        assert forall|k: int| j < k < t.len() implies #[trigger] t[k] != '.' by {
            assert(t[k] == name[k]);
        }
        lemma_last_dot_at(t, j);
    }
}

/// The characters of the file extension of `name`.
fn extension_chars(name: &str) -> (r: Option<Vec<char>>)
    ensures
        file_extension(name@) matches Some(e) ==> (r matches Some(v) && v@ == e),
        file_extension(name@) is None ==> r is None,
{
    let v = chars_of(name);
    let mut j: usize = v.len();
    while j > 0 && v[j - 1] != '.'
        invariant
            j <= v.len(),
            forall|k: int| j <= k < v.len() ==> #[trigger] v@[k] != '.',
        decreases j,
    {
        j = j - 1;
    }
    proof {
        lemma_last_dot_at(v@, j - 1);
    }
    if j <= 1 {
        None
    } else {
        let mut e: Vec<char> = Vec::new();
        let mut i: usize = j;
        while i < v.len()
            invariant
                j <= i <= v.len(),
                e@ == v@.subrange(j as int, i as int),
            decreases v.len() - i,
        {
            e.push(v[i]);
            assert(v@.subrange(j as int, i + 1) == v@.subrange(j as int, i as int).push(v@[i as int]));
            i = i + 1;
        }
        assert(v@.skip(j as int) == v@.subrange(j as int, v@.len() as int));
        Some(e)
    }
}

/// `name` has an extension whose lower-case form is `a` or `b`.
pub open spec fn extension_is_one_of(name: Seq<char>, a: Seq<char>, b: Seq<char>) -> bool {
    file_extension(name) matches Some(e) && (to_lower(e) == a || to_lower(e) == b)
}

/// Whether `name` has an extension whose lower-case form is `a` or `b`.
pub fn has_extension(name: &str, a: &str, b: &str) -> (r: bool)
    ensures
        r == extension_is_one_of(name@, a@, b@),
{
    match extension_chars(name) {
        None => false,
        Some(e) => {
            let s = string_from_range(&e, 0, e.len());
            assert(e@.subrange(0, e@.len() as int) == e@);
            let l = str_to_lowercase(s.as_str());
            str_eq(l.as_str(), a) || str_eq(l.as_str(), b)
        },
    }
}

/// `name` has an extension whose lower-case form is one of `exts`.
pub open spec fn extension_in(name: Seq<char>, exts: Seq<Seq<char>>) -> bool {
    file_extension(name) matches Some(e) && exts.contains(to_lower(e))
}

/// Whether `name` has an extension whose lower-case form is one of `exts`.
pub fn has_extension_in(name: &str, exts: &Vec<&str>) -> (r: bool)
    ensures
        r == extension_in(name@, str_views(exts@)),
{
    match extension_chars(name) {
        None => false,
        Some(e) => {
            let s = string_from_range(&e, 0, e.len());
            assert(e@.subrange(0, e@.len() as int) == e@);
            let l = str_to_lowercase(s.as_str());
            let ghost xs = str_views(exts@);
            let mut i: usize = 0;
            while i < exts.len()
                invariant
                    i <= exts.len(),
                    xs == str_views(exts@),
                    xs.len() == exts@.len(),
                    l@ == to_lower(e@),
                    file_extension(name@) == Some(e@),
                    forall|k: int| 0 <= k < i ==> xs[k] != l@,
                decreases exts.len() - i,
            {
                assert(xs[i as int] == exts@[i as int]@);
                if str_eq(l.as_str(), exts[i]) {
                    assert(xs.contains(l@));
                    return true;
                }
                i = i + 1;
            }
            false
        },
    }
}

/// Directory names (upper case) that are never indexed.
pub open spec fn excluded_directories() -> Seq<Seq<char>> {
    seq![
        "$RECYCLE.BIN"@,
        "SYSTEM VOLUME INFORMATION"@,
        "RECOVERY"@,
        "CONFIG.MSI"@,
        "MSOCACHE"@,
        "PERFLOGS"@,
        "WINDOWS"@,
        "WINDOWSAPPS"@,
        "WPSYSTEM"@,
        "XBOXGAMES"@,
        "PROGRAM FILES"@,
        "PROGRAM FILES (X86)"@,
        "PROGRAMDATA"@,
        "TEMP"@,
        "TMP"@,
        "CACHE"@,
        "CACHES"@,
        "NODE_MODULES"@,
        "TARGET"@,
        "DIST"@,
        "BUILD"@,
    ]
}

/// A directory is excluded when it has a name whose upper-case form is one
/// of `excluded_directories`.
pub open spec fn spec_should_exclude_directory(name: Option<Seq<char>>) -> bool {
    name matches Some(n) && excluded_directories().contains(to_upper(n))
}

/// Whether the directory with this file name (`None` when the path has
/// none) is left out of the index.
pub fn should_exclude_directory(name: Option<&str>) -> (r: bool)
    ensures
        r == spec_should_exclude_directory(name_view(name)),
{
    match name {
        None => false,
        Some(n) => {
            let upper = str_to_uppercase(n);
            let list = vec![
                "$RECYCLE.BIN",
                "SYSTEM VOLUME INFORMATION",
                "RECOVERY",
                "CONFIG.MSI",
                "MSOCACHE",
                "PERFLOGS",
                "WINDOWS",
                "WINDOWSAPPS",
                "WPSYSTEM",
                "XBOXGAMES",
                "PROGRAM FILES",
                "PROGRAM FILES (X86)",
                "PROGRAMDATA",
                "TEMP",
                "TMP",
                "CACHE",
                "CACHES",
                "NODE_MODULES",
                "TARGET",
                "DIST",
                "BUILD",
            ];
            let ghost ex = excluded_directories();
            assert(str_views(list@) =~= ex);
            let mut i: usize = 0;
            while i < list.len()
                invariant
                    i <= list.len(),
                    str_views(list@) == ex,
                    upper@ == to_upper(n@),
                    ex == excluded_directories(),
                    name_view(name) == Some(n@),
                    forall|k: int| 0 <= k < i ==> ex[k] != upper@,
                decreases list.len() - i,
            {
                assert(ex[i as int] == list@[i as int]@);
                if str_eq(upper.as_str(), list[i]) {
                    assert(ex.contains(upper@));
                    return true;
                }
                i = i + 1;
            }
            assert(str_views(list@).len() == list@.len());
            false
        },
    }
}

pub open spec fn name_view(name: Option<&str>) -> Option<Seq<char>> {
    match name {
        Some(n) => Some(n@),
        None => None,
    }
}

/// `name` starts with a `.` (a hidden entry).
pub open spec fn is_hidden(name: Seq<char>) -> bool {
    name.len() > 0 && name[0] == '.'
}

fn starts_with_dot(name: &str) -> (r: bool)
    ensures
        r == is_hidden(name@),
{
    let v = chars_of(name);
    v.len() > 0 && v[0] == '.'
}

/// What the indexer does with one directory entry.
#[derive(Clone, Copy, Debug, PartialEq, Eq)]
pub enum TreeStep {
    /// Leave it out.
    Skip,
    /// Index the directory and what it holds.
    Descend,
    /// Index the entry under the given category.
    Index(&'static str),
}

/// The index walk enters a directory not deeper than 64 levels, not
/// excluded, and not a symbolic link.
pub open spec fn spec_enter_tree_directory(depth: int, name: Option<Seq<char>>, is_symlink: bool) -> bool {
    depth <= 64 && !spec_should_exclude_directory(name) && !is_symlink
}

/// Whether the index walk enters a directory at this depth with this file
/// name.
pub fn enter_tree_directory(depth: usize, name: Option<&str>, is_symlink: bool) -> (r: bool)
    ensures
        r == spec_enter_tree_directory(depth as int, name_view(name), is_symlink),
{
    if depth > 64 {
        return false;
    }
    if should_exclude_directory(name) {
        return false;
    }
    !is_symlink
}

/// The step for an entry, as text.
pub enum StepView {
    Skip,
    Descend,
    Index(Seq<char>),
}

impl View for TreeStep {
    type V = StepView;

    open spec fn view(&self) -> StepView {
        match self {
            TreeStep::Skip => StepView::Skip,
            TreeStep::Descend => StepView::Descend,
            TreeStep::Index(c) => StepView::Index(c@),
        }
    }
}

/// The index walk leaves out symbolic links, nameless and hidden entries,
/// excluded directories and `.lnk`/`.url` files; it walks other directories
/// and indexes other files as `file`.
pub open spec fn spec_tree_step(name: Option<Seq<char>>, is_symlink: bool, is_dir: bool) -> StepView {
    if is_symlink {
        StepView::Skip
    } else {
        match name {
            None => StepView::Skip,
            Some(n) => if is_hidden(n) {
                StepView::Skip
            } else if is_dir {
                if spec_should_exclude_directory(Some(n)) {
                    StepView::Skip
                } else {
                    StepView::Descend
                }
            } else if extension_is_one_of(n, "lnk"@, "url"@) {
                StepView::Skip
            } else {
                StepView::Index("file"@)
            },
        }
    }
}

/// What the index walk does with an entry of a directory it entered.
pub fn tree_step(name: Option<&str>, is_symlink: bool, is_dir: bool) -> (r: TreeStep)
    ensures
        r@ == spec_tree_step(name_view(name), is_symlink, is_dir),
{
    if is_symlink {
        return TreeStep::Skip;
    }
    match name {
        None => TreeStep::Skip,
        Some(n) => {
            if starts_with_dot(n) {
                TreeStep::Skip
            } else if is_dir {
                if should_exclude_directory(Some(n)) {
                    TreeStep::Skip
                } else {
                    TreeStep::Descend
                }
            } else if has_extension(n, "lnk", "url") {
                TreeStep::Skip
            } else {
                TreeStep::Index("file")
            }
        },
    }
}

/// Whether the application walk (Start Menu and desktop) enters a directory
/// at this depth: not below depth 12, and only a directory.
pub fn enter_app_directory(depth: usize, is_dir: bool) -> (r: bool)
    ensures
        r == (depth <= 12 && is_dir),
{
    depth <= 12 && is_dir
}

/// The application walk leaves out symbolic links, walks directories,
/// indexes `.lnk` and `.exe` files as `app` and leaves out the rest.
pub open spec fn spec_app_tree_step(name: Option<Seq<char>>, is_symlink: bool, is_dir: bool) -> StepView {
    if is_symlink {
        StepView::Skip
    } else if is_dir {
        StepView::Descend
    } else {
        match name {
            Some(n) => if extension_is_one_of(n, "lnk"@, "exe"@) {
                StepView::Index("app"@)
            } else {
                StepView::Skip
            },
            None => StepView::Skip,
        }
    }
}

/// What the application walk (Start Menu and desktop) does with an entry.
pub fn app_tree_step(name: Option<&str>, is_symlink: bool, is_dir: bool) -> (r: TreeStep)
    ensures
        r@ == spec_app_tree_step(name_view(name), is_symlink, is_dir),
{
    if is_symlink {
        return TreeStep::Skip;
    }
    if is_dir {
        return TreeStep::Descend;
    }
    match name {
        Some(n) => {
            if has_extension(n, "lnk", "exe") {
                TreeStep::Index("app")
            } else {
                TreeStep::Skip
            }
        },
        None => TreeStep::Skip,
    }
}

/// Whether a changed file is indexed: not when its name is hidden.
pub fn should_index_file(name: Option<&str>) -> (r: bool)
    ensures
        r == !(name matches Some(n) && is_hidden(n@)),
{
    match name {
        Some(n) => !starts_with_dot(n),
        None => true,
    }
}

/// A file is an application when it is a `.lnk` or `.exe` file that lies
/// under a `\start menu\programs\` folder (in any case) or on the desktop.
pub open spec fn spec_is_application_path(
    path: Seq<char>,
    name: Option<Seq<char>>,
    parent_is_desktop: bool,
) -> bool {
    &&& name matches Some(n) && extension_is_one_of(n, "lnk"@, "exe"@)
    &&& contains_seq(to_lower(path), "\\start menu\\programs\\"@) || parent_is_desktop
}

/// Whether the file at `path` (with file name `name`; `parent_is_desktop`
/// says whether its folder is the desktop) is indexed as an application.
pub fn is_application_path(path: &str, name: Option<&str>, parent_is_desktop: bool) -> (r: bool)
    ensures
        r == spec_is_application_path(path@, name_view(name), parent_is_desktop),
{
    let is_app_file = match name {
        Some(n) => has_extension(n, "lnk", "exe"),
        None => false,
    };
    if !is_app_file {
        return false;
    }
    let lower = str_to_lowercase(path);
    let lower_chars = chars_of(lower.as_str());
    let needle = chars_of("\\start menu\\programs\\");
    contains_chars(&lower_chars, &needle) || parent_is_desktop
}

/// One row of the search index.
pub struct IndexEntry {
    pub path: String,
    pub title: String,
    pub subtitle: String,
    pub category: String,
}

/// The index row for the entry at `path`: titled by its file name, or by
/// the whole path when it has none; its subtitle is the path.
pub fn index_entry(path: &str, name: Option<&str>, category: &str) -> (r: IndexEntry)
    ensures
        r.path@ == path@,
        r.title@ == (match name {
            Some(n) => n@,
            None => path@,
        }),
        r.subtitle@ == path@,
        r.category@ == category@,
{
    let title = match name {
        Some(n) => string_of(n),
        None => string_of(path),
    };
    IndexEntry {
        path: string_of(path),
        title,
        subtitle: string_of(path),
        category: string_of(category),
    }
}

/// A file system change, as far as the index cares.
#[derive(Clone, Copy, Debug, PartialEq, Eq)]
pub enum FsEventKind {
    Create,
    Modify,
    Remove,
    Other,
}

/// The text that the paths of the entries under the directory at `path`
/// start with: the path and a backslash. Together with the path itself it says
/// which index rows a change at `path` removes.
pub fn subtree_prefix(path: &str) -> (r: String)
    ensures
        r@ == path@.push('\\'),
{
    let mut r = string_of(path);
    push_char(&mut r, '\\');
    r
}

/// What a file system change does to the index.
#[derive(Clone, Copy, Debug, PartialEq, Eq)]
pub enum FsEventAction {
    /// Nothing.
    Ignore,
    /// Remove the rows of the path and of everything under it.
    Delete,
    /// Remove the rows of the path and of everything under it, then index the
    /// directory tree again.
    DeleteAndIndexTree,
    /// Remove the row of the path, then index the file under the given category.
    DeleteAndIndexFile(&'static str),
}

/// What a file system change does to the index, as text.
pub enum FsActionView {
    Ignore,
    Delete,
    DeleteAndIndexTree,
    DeleteAndIndexFile(Seq<char>),
}

impl View for FsEventAction {
    type V = FsActionView;

    open spec fn view(&self) -> FsActionView {
        match self {
            FsEventAction::Ignore => FsActionView::Ignore,
            FsEventAction::Delete => FsActionView::Delete,
            FsEventAction::DeleteAndIndexTree => FsActionView::DeleteAndIndexTree,
            FsEventAction::DeleteAndIndexFile(c) => FsActionView::DeleteAndIndexFile(c@),
        }
    }
}

/// A directory the index leaves out: hidden (its name starts with `.`) or
/// excluded (`spec_should_exclude_directory`).
pub open spec fn is_skipped_directory(name: Seq<char>) -> bool {
    is_hidden(name) || spec_should_exclude_directory(Some(name))
}

/// Some directory of `dirs` is left out of the index.
pub open spec fn any_skipped_directory(dirs: Seq<Seq<char>>) -> bool {
    exists|i: int| 0 <= i < dirs.len() && is_skipped_directory(#[trigger] dirs[i])
}

/// Whether some directory named in `dirs` is left out of the index.
fn in_skipped_directory(dirs: &Vec<String>) -> (r: bool)
    ensures
        r == any_skipped_directory(string_views(dirs@)),
{
    let ghost ds = string_views(dirs@);
    let mut i: usize = 0;
    while i < dirs.len()
        invariant
            i <= dirs.len(),
            ds == string_views(dirs@),
            forall|k: int| 0 <= k < i ==> !is_skipped_directory(#[trigger] ds[k]),
        decreases dirs.len() - i,
    {
        assert(ds[i as int] == dirs@[i as int]@);
        if starts_with_dot(dirs[i].as_str()) || should_exclude_directory(Some(dirs[i].as_str())) {
            return true;
        }
        i = i + 1;
    }
    false
}

/// A removal deletes the path's rows. A creation or modification deletes them
/// too and then, unless a directory on the way from the watched root
/// (`ancestors`) is left out of the index, indexes it again: a directory's
/// tree, unless the directory itself is hidden or excluded; a file, unless
/// hidden, as `app` or `file`. Anything else is ignored.
pub open spec fn spec_fs_event_action(
    kind: FsEventKind,
    is_dir: bool,
    is_file: bool,
    path: Seq<char>,
    name: Option<Seq<char>>,
    ancestors: Seq<Seq<char>>,
    parent_is_desktop: bool,
) -> FsActionView {
    match kind {
        FsEventKind::Remove => FsActionView::Delete,
        FsEventKind::Other => FsActionView::Ignore,
        _ => if is_dir {
            if any_skipped_directory(ancestors) || (name matches Some(n) && is_skipped_directory(n)) {
                FsActionView::Delete
            } else {
                FsActionView::DeleteAndIndexTree
            }
        } else if is_file {
            if any_skipped_directory(ancestors) || (name matches Some(n) && is_hidden(n)) {
                FsActionView::Delete
            } else if spec_is_application_path(path, name, parent_is_desktop) {
                FsActionView::DeleteAndIndexFile("app"@)
            } else {
                FsActionView::DeleteAndIndexFile("file"@)
            }
        } else {
            FsActionView::Ignore
        },
    }
}

/// What a change at `path` does to the index (see `spec_fs_event_action`).
/// `ancestors` are the names of the directories between the watched root and
/// the path, the path itself not included.
pub fn fs_event_action(
    kind: FsEventKind,
    is_dir: bool,
    is_file: bool,
    path: &str,
    name: Option<&str>,
    ancestors: &Vec<String>,
    parent_is_desktop: bool,
) -> (r: FsEventAction)
    ensures
        r@ == spec_fs_event_action(
            kind,
            is_dir,
            is_file,
            path@,
            name_view(name),
            string_views(ancestors@),
            parent_is_desktop,
        ),
{
    match kind {
        FsEventKind::Remove => FsEventAction::Delete,
        FsEventKind::Create | FsEventKind::Modify => {
            if is_dir {
                let own_skipped = match name {
                    Some(n) => starts_with_dot(n) || should_exclude_directory(Some(n)),
                    None => false,
                };
                if in_skipped_directory(ancestors) || own_skipped {
                    FsEventAction::Delete
                } else {
                    FsEventAction::DeleteAndIndexTree
                }
            } else if is_file {
                if in_skipped_directory(ancestors) || !should_index_file(name) {
                    FsEventAction::Delete
                } else if is_application_path(path, name, parent_is_desktop) {
                    FsEventAction::DeleteAndIndexFile("app")
                } else {
                    FsEventAction::DeleteAndIndexFile("file")
                }
            } else {
                FsEventAction::Ignore
            }
        },
        FsEventKind::Other => FsEventAction::Ignore,
    }
}

/// Nothing under a hidden or excluded directory is indexed by the watcher:
/// a change there at most deletes rows.
pub proof fn law_watcher_skips_left_out_directories(
    kind: FsEventKind,
    is_dir: bool,
    is_file: bool,
    path: Seq<char>,
    name: Option<Seq<char>>,
    ancestors: Seq<Seq<char>>,
    parent_is_desktop: bool,
    i: int,
)
    requires
        0 <= i < ancestors.len(),
        is_skipped_directory(ancestors[i]),
    ensures
        spec_fs_event_action(kind, is_dir, is_file, path, name, ancestors, parent_is_desktop)
            is Delete || spec_fs_event_action(
            kind,
            is_dir,
            is_file,
            path,
            name,
            ancestors,
            parent_is_desktop,
        ) is Ignore,
{
    assert(any_skipped_directory(ancestors));
}

/// Hidden entries (a name starting with `.`), symbolic links and nameless
/// entries are never indexed, walked into or listed by the index walk.
pub proof fn law_hidden_and_linked_entries_are_skipped(
    name: Option<Seq<char>>,
    is_symlink: bool,
    is_dir: bool,
)
    requires
        is_symlink || name is None || is_hidden(name->0),
    ensures
        spec_tree_step(name, is_symlink, is_dir) == StepView::Skip,
{
}

/// Excluded directories (`node_modules`, `target`, `Windows`, ... in any
/// case) are never walked into: neither as the start of a walk nor as an entry.
pub proof fn law_excluded_directories_are_not_walked(name: Seq<char>, depth: int, is_symlink: bool)
    requires
        spec_should_exclude_directory(Some(name)),
    ensures
        spec_tree_step(Some(name), is_symlink, true) == StepView::Skip,
        !spec_enter_tree_directory(depth, Some(name), is_symlink),
{
}

} // verus!
