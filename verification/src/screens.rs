//! The screen catalog: the screens a user can stand on and, per screen,
//! its fixed menu of labeled options. Labels and variants form a
//! bidirectional mapping that the navigation machine resolves through.

use vstd::prelude::*;
use vstd::string::*;
use crate::list::StatefulList;
use crate::strutil::str_eq;

verus! {

/// One node of the menu navigation graph.
#[derive(Clone, Copy, Debug, PartialEq, Eq, Structural)]
pub enum SelectedScreen {
    Home,
    Posts,
    BrowsePosts,
    Feeds,
    CreateSession,
    SelectSession,
    Procedures,
    Authors,
}

/// A screen's menu: each option has one label, the menu is the ordered
/// list of those labels, and a label resolves back to its option.
pub trait Options: Sized {
    /// The label of this option in a rendered menu.
    spec fn spec_label(&self) -> Seq<char>;

    /// The ordered labels of the whole menu.
    spec fn spec_labels() -> Seq<Seq<char>>;

    /// The label of this option.
    fn as_string(&self) -> (r: String)
        ensures
            r@ == self.spec_label(),
    ;

    /// The option carrying the given label. A label outside the menu is a
    /// contract violation: the catalog and the rendered list move in
    /// lock-step, so such a label means corrupted state.
    fn from_string(text: &str) -> (r: Self)
        requires
            Self::spec_labels().contains(text@),
        ensures
            r.spec_label() == text@,
    ;

    /// The whole menu, in order.
    fn as_vec_of_strings() -> (r: Vec<String>)
        ensures
            r.deep_view() == Self::spec_labels(),
    ;
}

/// Options on the home screen.
#[derive(Clone, Copy, Debug, PartialEq, Eq, Structural)]
pub enum HomeScreenOptions {
    ViewPosts,
    AddRemoveSources,
    CreateSession,
    ChangeSession,
    Procedures,
}

impl Options for HomeScreenOptions {
    open spec fn spec_label(&self) -> Seq<char> {
        match self {
            HomeScreenOptions::ViewPosts => "View Posts"@,
            HomeScreenOptions::CreateSession => "Create New Session"@,
            HomeScreenOptions::ChangeSession => "Change Session"@,
            HomeScreenOptions::AddRemoveSources => "Add or Remove Sources"@,
            HomeScreenOptions::Procedures => "Procedures"@,
        }
    }

    open spec fn spec_labels() -> Seq<Seq<char>> {
        seq![
            "View Posts"@,
            "Create New Session"@,
            "Change Session"@,
            "Add or Remove Sources"@,
            "Procedures"@,
        ]
    }

    fn as_string(&self) -> (r: String) {
        match self {
            HomeScreenOptions::ViewPosts => String::from_str("View Posts"),
            HomeScreenOptions::CreateSession => String::from_str("Create New Session"),
            HomeScreenOptions::ChangeSession => String::from_str("Change Session"),
            HomeScreenOptions::AddRemoveSources => String::from_str("Add or Remove Sources"),
            HomeScreenOptions::Procedures => String::from_str("Procedures"),
        }
    }

    fn from_string(text: &str) -> (r: Self) {
        if str_eq(text, "View Posts") {
            HomeScreenOptions::ViewPosts
        } else if str_eq(text, "Create New Session") {
            HomeScreenOptions::CreateSession
        } else if str_eq(text, "Change Session") {
            HomeScreenOptions::ChangeSession
        } else if str_eq(text, "Add or Remove Sources") {
            HomeScreenOptions::AddRemoveSources
        } else if str_eq(text, "Procedures") {
            HomeScreenOptions::Procedures
        } else {
            proof {
                let i = choose|i: int|
                    0 <= i < Self::spec_labels().len() && Self::spec_labels()[i] == text@;
                assert(false);
            }
            vstd::pervasive::unreached()
        }
    }

    fn as_vec_of_strings() -> (r: Vec<String>) {
        let mut r: Vec<String> = Vec::new();
        r.push(HomeScreenOptions::ViewPosts.as_string());
        r.push(HomeScreenOptions::CreateSession.as_string());
        r.push(HomeScreenOptions::ChangeSession.as_string());
        r.push(HomeScreenOptions::AddRemoveSources.as_string());
        r.push(HomeScreenOptions::Procedures.as_string());
        proof {
            assert(r.deep_view() =~= Self::spec_labels());
        }
        r
    }
}

/// Options on the posts screen.
#[derive(Clone, Copy, Debug, PartialEq, Eq, Structural)]
pub enum PostsOptions {
    Browse,
    Search,
    Categories,
    Authors,
    Home,
}

impl Options for PostsOptions {
    open spec fn spec_label(&self) -> Seq<char> {
        match self {
            PostsOptions::Browse => "Browse Posts"@,
            PostsOptions::Search => "Search Posts"@,
            PostsOptions::Categories => "Browse Categories"@,
            PostsOptions::Authors => "Change Session"@,
            PostsOptions::Home => "Home"@,
        }
    }

    open spec fn spec_labels() -> Seq<Seq<char>> {
        seq![
            "Home"@,
            "Search Posts"@,
            "Browse Posts"@,
            "Change Session"@,
            "Browse Categories"@,
        ]
    }

    fn as_string(&self) -> (r: String) {
        match self {
            PostsOptions::Browse => String::from_str("Browse Posts"),
            PostsOptions::Search => String::from_str("Search Posts"),
            PostsOptions::Categories => String::from_str("Browse Categories"),
            PostsOptions::Authors => String::from_str("Change Session"),
            PostsOptions::Home => String::from_str("Home"),
        }
    }

    fn from_string(text: &str) -> (r: Self) {
        if str_eq(text, "Browse Posts") {
            PostsOptions::Browse
        } else if str_eq(text, "Search Posts") {
            PostsOptions::Search
        } else if str_eq(text, "Browse Categories") {
            PostsOptions::Categories
        } else if str_eq(text, "Change Session") {
            PostsOptions::Authors
        } else if str_eq(text, "Home") {
            PostsOptions::Home
        } else {
            proof {
                let i = choose|i: int|
                    0 <= i < Self::spec_labels().len() && Self::spec_labels()[i] == text@;
                assert(false);
            }
            vstd::pervasive::unreached()
        }
    }

    fn as_vec_of_strings() -> (r: Vec<String>) {
        let mut r: Vec<String> = Vec::new();
        r.push(PostsOptions::Home.as_string());
        r.push(PostsOptions::Search.as_string());
        r.push(PostsOptions::Browse.as_string());
        r.push(PostsOptions::Authors.as_string());
        r.push(PostsOptions::Categories.as_string());
        proof {
            assert(r.deep_view() =~= Self::spec_labels());
        }
        r
    }
}

/// Options on the feeds screen.
#[derive(Clone, Copy, Debug, PartialEq, Eq, Structural)]
pub enum FeedsOptions {
    ViewFeeds,
    AddFeed,
    Home,
}

impl Options for FeedsOptions {
    open spec fn spec_label(&self) -> Seq<char> {
        match self {
            FeedsOptions::Home => "Home"@,
            FeedsOptions::AddFeed => "Add Feed"@,
            FeedsOptions::ViewFeeds => "View Feeds"@,
        }
    }

    open spec fn spec_labels() -> Seq<Seq<char>> {
        seq!["Home"@, "Add Feed"@, "View Feeds"@]
    }

    fn as_string(&self) -> (r: String) {
        match self {
            FeedsOptions::Home => String::from_str("Home"),
            FeedsOptions::AddFeed => String::from_str("Add Feed"),
            FeedsOptions::ViewFeeds => String::from_str("View Feeds"),
        }
    }

    fn from_string(text: &str) -> (r: Self) {
        if str_eq(text, "Home") {
            FeedsOptions::Home
        } else if str_eq(text, "Add Feed") {
            FeedsOptions::AddFeed
        } else if str_eq(text, "View Feeds") {
            FeedsOptions::ViewFeeds
        } else {
            proof {
                let i = choose|i: int|
                    0 <= i < Self::spec_labels().len() && Self::spec_labels()[i] == text@;
                assert(false);
            }
            vstd::pervasive::unreached()
        }
    }

    fn as_vec_of_strings() -> (r: Vec<String>) {
        let mut r: Vec<String> = Vec::new();
        r.push(FeedsOptions::Home.as_string());
        r.push(FeedsOptions::AddFeed.as_string());
        r.push(FeedsOptions::ViewFeeds.as_string());
        proof {
            assert(r.deep_view() =~= Self::spec_labels());
        }
        r
    }
}

/// Options on the procedures screen.
#[derive(Clone, Copy, Debug, PartialEq, Eq, Structural)]
pub enum ProceduresOptions {
    UpdatePosts,
    AddSource,
    DumpSessionData,
    Home,
}

impl Options for ProceduresOptions {
    open spec fn spec_label(&self) -> Seq<char> {
        match self {
            ProceduresOptions::UpdatePosts => "Update Posts"@,
            ProceduresOptions::AddSource => "Add Source"@,
            ProceduresOptions::DumpSessionData => "Save"@,
            ProceduresOptions::Home => "Home"@,
        }
    }

    open spec fn spec_labels() -> Seq<Seq<char>> {
        seq!["Update Posts"@, "Add Source"@, "Save"@, "Home"@]
    }

    fn as_string(&self) -> (r: String) {
        match self {
            ProceduresOptions::UpdatePosts => String::from_str("Update Posts"),
            ProceduresOptions::AddSource => String::from_str("Add Source"),
            ProceduresOptions::DumpSessionData => String::from_str("Save"),
            ProceduresOptions::Home => String::from_str("Home"),
        }
    }

    fn from_string(text: &str) -> (r: Self) {
        if str_eq(text, "Update Posts") {
            ProceduresOptions::UpdatePosts
        } else if str_eq(text, "Add Source") {
            ProceduresOptions::AddSource
        } else if str_eq(text, "Save") {
            ProceduresOptions::DumpSessionData
        } else if str_eq(text, "Home") {
            ProceduresOptions::Home
        } else {
            proof {
                let i = choose|i: int|
                    0 <= i < Self::spec_labels().len() && Self::spec_labels()[i] == text@;
                assert(false);
            }
            vstd::pervasive::unreached()
        }
    }

    fn as_vec_of_strings() -> (r: Vec<String>) {
        let mut r: Vec<String> = Vec::new();
        r.push(ProceduresOptions::UpdatePosts.as_string());
        r.push(ProceduresOptions::AddSource.as_string());
        r.push(ProceduresOptions::DumpSessionData.as_string());
        r.push(ProceduresOptions::Home.as_string());
        proof {
            assert(r.deep_view() =~= Self::spec_labels());
        }
        r
    }
}

/// The two questions of the session-creation form, in the order asked.
pub open spec fn spec_create_session_questions() -> Seq<Seq<char>> {
    seq!["User name: "@, "Session name: "@]
}

/// The session-creation form's questions, in the order asked.
pub fn create_session_questions() -> (r: Vec<String>)
    ensures
        r.deep_view() == spec_create_session_questions(),
{
    let mut r: Vec<String> = Vec::new();
    r.push(String::from_str("User name: "));
    r.push(String::from_str("Session name: "));
    proof {
        assert(r.deep_view() =~= spec_create_session_questions());
    }
    r
}

/// The fixed option labels of a screen. Screens whose lists are derived
/// from session data (browsing and authors) have no fixed labels, nor does
/// the stub session-selection screen.
pub open spec fn spec_static_options(s: SelectedScreen) -> Seq<Seq<char>> {
    match s {
        SelectedScreen::Home => HomeScreenOptions::spec_labels(),
        SelectedScreen::Posts => PostsOptions::spec_labels(),
        SelectedScreen::Feeds => FeedsOptions::spec_labels(),
        SelectedScreen::Procedures => ProceduresOptions::spec_labels(),
        SelectedScreen::CreateSession => spec_create_session_questions(),
        SelectedScreen::SelectSession => Seq::<Seq<char>>::empty(),
        SelectedScreen::BrowsePosts => Seq::<Seq<char>>::empty(),
        SelectedScreen::Authors => Seq::<Seq<char>>::empty(),
    }
}

/// The catalog's expected menu length for every screen with a fixed menu
/// (the data-driven screens derive theirs from the session instead).
pub proof fn lemma_catalog_lengths()
    ensures
        spec_static_options(SelectedScreen::Home).len() == 5,
        spec_static_options(SelectedScreen::Posts).len() == 5,
        spec_static_options(SelectedScreen::Feeds).len() == 3,
        spec_static_options(SelectedScreen::Procedures).len() == 4,
        spec_static_options(SelectedScreen::CreateSession).len() == 2,
        spec_static_options(SelectedScreen::SelectSession).len() == 0,
{
}

/// The human-readable title of a screen.
pub open spec fn spec_screen_name(s: SelectedScreen) -> Seq<char> {
    match s {
        SelectedScreen::Home => "Home"@,
        SelectedScreen::Posts => "Posts"@,
        SelectedScreen::Feeds => "Edit Feeds"@,
        SelectedScreen::CreateSession => "Create Session"@,
        SelectedScreen::SelectSession => "Select Session"@,
        SelectedScreen::Procedures => "Procedures"@,
        SelectedScreen::BrowsePosts => "Browse Posts"@,
        SelectedScreen::Authors => "Authors"@,
    }
}

impl SelectedScreen {
    /// A fresh navigable list over this screen's fixed options.
    pub fn get_list_items(&self) -> (r: StatefulList<String>)
        ensures
            r.items.deep_view() == spec_static_options(*self),
            r.selected is None,
            r.wf(),
    {
        let items: Vec<String> = match self {
            SelectedScreen::Home => HomeScreenOptions::as_vec_of_strings(),
            SelectedScreen::Posts => PostsOptions::as_vec_of_strings(),
            SelectedScreen::Feeds => FeedsOptions::as_vec_of_strings(),
            SelectedScreen::Procedures => ProceduresOptions::as_vec_of_strings(),
            SelectedScreen::CreateSession => create_session_questions(),
            SelectedScreen::SelectSession => Vec::new(),
            SelectedScreen::BrowsePosts => Vec::new(),
            SelectedScreen::Authors => Vec::new(),
        };
        proof {
            if spec_static_options(*self).len() == 0 {
                assert(items.deep_view() =~= spec_static_options(*self));
            }
        }
        StatefulList::with_items(items)
    }

    /// The human-readable title of this screen.
    pub fn get_screen_name(&self) -> (r: String)
        ensures
            r@ == spec_screen_name(*self),
    {
        match self {
            SelectedScreen::Home => String::from_str("Home"),
            SelectedScreen::Posts => String::from_str("Posts"),
            SelectedScreen::Feeds => String::from_str("Edit Feeds"),
            SelectedScreen::CreateSession => String::from_str("Create Session"),
            SelectedScreen::SelectSession => String::from_str("Select Session"),
            SelectedScreen::Procedures => String::from_str("Procedures"),
            SelectedScreen::BrowsePosts => String::from_str("Browse Posts"),
            SelectedScreen::Authors => String::from_str("Authors"),
        }
    }
}

} // verus!
