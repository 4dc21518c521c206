use vstd::prelude::*;

verus! {

/// One entry of the launcher's result list.
#[derive(Clone, Debug, PartialEq, Eq)]
pub struct SearchResultItem {
    pub id: String,
    pub title: String,
    pub subtitle: String,
    pub category: String,
    pub action_payload: String,
}

/// A result item as text.
pub struct ItemView {
    pub id: Seq<char>,
    pub title: Seq<char>,
    pub subtitle: Seq<char>,
    pub category: Seq<char>,
    pub action_payload: Seq<char>,
}

impl View for SearchResultItem {
    type V = ItemView;

    open spec fn view(&self) -> ItemView {
        ItemView {
            id: self.id@,
            title: self.title@,
            subtitle: self.subtitle@,
            category: self.category@,
            action_payload: self.action_payload@,
        }
    }
}

/// The result items of a list, as text.
pub open spec fn item_views(v: Seq<SearchResultItem>) -> Seq<ItemView> {
    v.map_values(|x: SearchResultItem| x@)
}

/// The item with these five texts.
pub open spec fn item(
    id: Seq<char>,
    title: Seq<char>,
    subtitle: Seq<char>,
    category: Seq<char>,
    action_payload: Seq<char>,
) -> ItemView {
    ItemView { id, title, subtitle, category, action_payload }
}

impl SearchResultItem {
    /// The item's five fields hold exactly these texts.
    pub open spec fn holds(
        self,
        id: Seq<char>,
        title: Seq<char>,
        subtitle: Seq<char>,
        category: Seq<char>,
        action_payload: Seq<char>,
    ) -> bool {
        &&& self.id@ == id
        &&& self.title@ == title
        &&& self.subtitle@ == subtitle
        &&& self.category@ == category
        &&& self.action_payload@ == action_payload
    }

    /// The item with these five fields.
    pub fn new(
        id: String,
        title: String,
        subtitle: String,
        category: String,
        action_payload: String,
    ) -> (r: SearchResultItem)
        ensures
            r.holds(id@, title@, subtitle@, category@, action_payload@),
    {
        SearchResultItem { id, title, subtitle, category, action_payload }
    }
}

/// A saved bookmark.
#[derive(Clone, Debug, PartialEq, Eq)]
pub struct Bookmark {
    pub id: String,
    pub title: String,
    pub url: String,
}

/// The application that a project directory is opened with.
#[derive(Clone, Copy, Debug, PartialEq, Eq)]
pub enum ProjectApp {
    VsCode,
    IntelliJ,
    PyCharm,
    RustRover,
    VisualStudio,
    AndroidStudio,
}

impl ProjectApp {
    /// The display name of the application.
    pub open spec fn spec_name(self) -> Seq<char> {
        match self {
            ProjectApp::VsCode => "VS Code"@,
            ProjectApp::IntelliJ => "IntelliJ IDEA"@,
            ProjectApp::PyCharm => "PyCharm"@,
            ProjectApp::RustRover => "RustRover"@,
            ProjectApp::VisualStudio => "Visual Studio"@,
            ProjectApp::AndroidStudio => "Android Studio"@,
        }
    }

    /// The display name of the application.
    pub fn name(self) -> (r: &'static str)
        ensures
            r@ == self.spec_name(),
    {
        match self {
            ProjectApp::VsCode => "VS Code",
            ProjectApp::IntelliJ => "IntelliJ IDEA",
            ProjectApp::PyCharm => "PyCharm",
            ProjectApp::RustRover => "RustRover",
            ProjectApp::VisualStudio => "Visual Studio",
            ProjectApp::AndroidStudio => "Android Studio",
        }
    }
}

} // verus!
