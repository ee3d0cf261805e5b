//! The navigation state machine: the current and previous screen, the
//! cursor into the displayed option list, the input mode with its editing
//! buffer, and the dispatch of one key event per tick. Effects the machine
//! cannot perform itself (persisting, fetching, opening a link) are returned
//! as outcomes for the caller to carry out.

use vstd::prelude::*;
use vstd::string::*;
use crate::list::StatefulList;
use crate::screens::{
    create_session_questions, spec_create_session_questions, spec_static_options, FeedsOptions,
    HomeScreenOptions, Options, PostsOptions, ProceduresOptions, SelectedScreen,
};
use crate::session::{spec_all_entry_titles, spec_unique_authors, Session, SessionV, User, UserV};
use crate::strutil::{pop_char, push_char};

verus! {

/// Whether a key stroke navigates or edits the text buffer.
#[derive(Clone, Copy, Debug, PartialEq, Eq, Structural)]
pub enum InputMode {
    Normal,
    Editing,
}

/// One key event, as the machine understands it.
#[derive(Clone, Copy, Debug, PartialEq, Eq, Structural)]
pub enum Key {
    Up,
    Down,
    Left,
    Enter,
    Backspace,
    Esc,
    Char(char),
    Other,
}

/// What the caller must do after a key was handled.
#[derive(Clone, Copy, Debug, PartialEq, Eq, Structural)]
pub enum KeyOutcome {
    /// Keep running; nothing external to do.
    Continue,
    /// End the run loop.
    Quit,
    /// Persist the session.
    SaveRequested,
    /// Run the sync pipeline over all feeds, then persist.
    SyncRequested,
    /// The chosen option is a deliberate stub; show that, change nothing.
    NotImplemented,
}

/// Model of one form question: the prompt and the answer given so far.
#[verifier::ext_equal]
pub ghost struct QuestionV {
    pub question: Seq<char>,
    pub response: Option<Seq<char>>,
}

/// One question of a modal form, plus the answer committed so far.
#[derive(Debug)]
pub struct QuestionWithResponse {
    pub question: String,
    pub response: Option<String>,
}

impl View for QuestionWithResponse {
    type V = QuestionV;

    open spec fn view(&self) -> QuestionV {
        QuestionV { question: self.question@, response: self.response.deep_view() }
    }
}

impl DeepView for QuestionWithResponse {
    type V = QuestionV;

    open spec fn deep_view(&self) -> QuestionV {
        self.view()
    }
}

impl QuestionWithResponse {
    /// A question not yet answered.
    pub fn new(question: String) -> (r: QuestionWithResponse)
        ensures
            r@ == (QuestionV { question: question@, response: None }),
    {
        QuestionWithResponse { question, response: None }
    }
}

/// Model of the whole application state.
#[verifier::ext_equal]
pub ghost struct AppV {
    pub scroll: u16,
    pub session: Option<SessionV>,
    pub selected_screen: SelectedScreen,
    pub previous_screen: SelectedScreen,
    pub items: Seq<Seq<char>>,
    pub cursor: Option<usize>,
    pub show_popup: bool,
    pub should_open_link: bool,
    pub input: Seq<char>,
    pub input_mode: InputMode,
    pub messages: Seq<Seq<char>>,
    pub form: Option<Seq<QuestionV>>,
}

/// The application state one key event is dispatched against.
#[derive(Debug)]
pub struct App {
    pub scroll: u16,
    pub session: Option<Session>,
    pub selected_screen: SelectedScreen,
    pub previous_screen: SelectedScreen,
    pub items: StatefulList<String>,
    pub show_popup: bool,
    pub should_open_link: bool,
    pub input: String,
    pub input_mode: InputMode,
    pub messages: Vec<String>,
    pub current_form_questions: Option<Vec<QuestionWithResponse>>,
}

impl View for App {
    type V = AppV;

    open spec fn view(&self) -> AppV {
        AppV {
            scroll: self.scroll,
            session: match self.session {
                Some(s) => Some(s@),
                None => None,
            },
            selected_screen: self.selected_screen,
            previous_screen: self.previous_screen,
            items: self.items.items.deep_view(),
            cursor: self.items.selected,
            show_popup: self.show_popup,
            should_open_link: self.should_open_link,
            input: self.input@,
            input_mode: self.input_mode,
            messages: self.messages.deep_view(),
            form: match self.current_form_questions {
                Some(qs) => Some(qs.deep_view()),
                None => None,
            },
        }
    }
}

/// The fresh, unanswered session-creation form.
pub open spec fn spec_fresh_questions() -> Seq<QuestionV> {
    spec_create_session_questions().map_values(
        |q: Seq<char>| QuestionV { question: q, response: None },
    )
}

/// The option list a screen shows: the catalog's fixed labels, or, for the
/// data-driven screens, lists derived from the session.
pub open spec fn spec_screen_options(screen: SelectedScreen, session: Option<SessionV>) -> Seq<
    Seq<char>,
> {
    match screen {
        SelectedScreen::BrowsePosts => spec_all_entry_titles(session->0),
        SelectedScreen::Authors => spec_unique_authors(session->0),
        _ => spec_static_options(screen),
    }
}

/// What moving to a screen does: remember where we came from, recompute the
/// option list, reset the cursor, and (re)start the form exactly on the
/// session-creation screen.
pub open spec fn spec_select_screen(pre: AppV, screen: SelectedScreen) -> AppV {
    AppV {
        selected_screen: screen,
        previous_screen: pre.selected_screen,
        items: spec_screen_options(screen, pre.session),
        cursor: Some(0usize),
        form: if screen is CreateSession {
            Some(spec_fresh_questions())
        } else {
            None
        },
        ..pre
    }
}

/// One step back: move to the single remembered previous screen. Two steps
/// oscillate between two screens; there is no deeper history.
pub open spec fn spec_back(pre: AppV) -> AppV {
    spec_select_screen(pre, pre.previous_screen)
}

/// The cursor position a dispatch works with (an unset cursor reads as the
/// first position).
pub open spec fn spec_cursor(pre: AppV) -> usize {
    match pre.cursor {
        Some(i) => i,
        None => 0usize,
    }
}

/// The state with its cursor repaired to a set position.
pub open spec fn spec_repaired(pre: AppV) -> AppV {
    AppV { cursor: Some(spec_cursor(pre)), ..pre }
}

/// Committing the editing buffer as the answer to the question under the
/// cursor (a no-op without a form), clearing the buffer.
pub open spec fn spec_save_buffer(pre: AppV) -> AppV {
    match pre.form {
        Some(qs) => AppV {
            form: Some(
                qs.update(
                    spec_cursor(pre) as int,
                    QuestionV {
                        question: qs[spec_cursor(pre) as int].question,
                        response: Some(pre.input),
                    },
                ),
            ),
            input: Seq::<char>::empty(),
            ..pre
        },
        None => pre,
    }
}

/// The session the completed form commits: the first answer names the user,
/// the second names the session, and the feed list starts empty.
pub open spec fn spec_committed_session(pre: AppV) -> SessionV {
    SessionV {
        user: UserV { name: pre.form->0[0].response->0 },
        name: pre.form->0[1].response->0,
        blog_feeds: Seq::<crate::feeds::BlogFeedV>::empty(),
    }
}

/// What one key does in editing mode (the outcome is always to continue).
pub open spec fn spec_editing_step(pre: AppV, key: Key) -> AppV {
    match key {
        Key::Enter => {
            let saved = spec_save_buffer(pre);
            AppV {
                messages: saved.messages.push(saved.input),
                input: Seq::<char>::empty(),
                input_mode: InputMode::Normal,
                ..saved
            }
        },
        Key::Char(c) => AppV { input: pre.input.push(c), ..pre },
        Key::Backspace => AppV {
            input: if pre.input.len() > 0 {
                pre.input.drop_last()
            } else {
                pre.input
            },
            ..pre
        },
        Key::Esc => AppV { input_mode: InputMode::Normal, ..spec_save_buffer(pre) },
        _ => pre,
    }
}

/// The cursor moved one down, clamped at the last position.
pub open spec fn spec_cursor_down(pre: AppV) -> AppV {
    AppV {
        cursor: Some(
            if pre.items.len() > 0 && spec_cursor(pre) + 1 < pre.items.len() {
                (spec_cursor(pre) + 1) as usize
            } else {
                spec_cursor(pre)
            },
        ),
        ..pre
    }
}

/// The cursor moved one up, clamped at the first position.
pub open spec fn spec_cursor_up(pre: AppV) -> AppV {
    AppV {
        cursor: Some(
            if spec_cursor(pre) > 0 {
                (spec_cursor(pre) - 1) as usize
            } else {
                0usize
            },
        ),
        ..pre
    }
}

/// What pressing enter does, per screen, resolving the label under the
/// cursor through the catalog.
pub open spec fn spec_enter_step(pre: AppV) -> (AppV, KeyOutcome) {
    let label = pre.items[spec_cursor(pre) as int];
    match pre.selected_screen {
        SelectedScreen::Authors => (pre, KeyOutcome::Continue),
        SelectedScreen::BrowsePosts => (
            AppV { should_open_link: true, ..pre },
            KeyOutcome::Continue,
        ),
        SelectedScreen::SelectSession => (pre, KeyOutcome::NotImplemented),
        SelectedScreen::Home => if label == "View Posts"@ {
            (spec_select_screen(pre, SelectedScreen::Posts), KeyOutcome::Continue)
        } else if label == "Create New Session"@ {
            (spec_select_screen(pre, SelectedScreen::CreateSession), KeyOutcome::Continue)
        } else if label == "Change Session"@ {
            (spec_select_screen(pre, SelectedScreen::SelectSession), KeyOutcome::Continue)
        } else if label == "Add or Remove Sources"@ {
            (spec_select_screen(pre, SelectedScreen::Feeds), KeyOutcome::Continue)
        } else if label == "Procedures"@ {
            (spec_select_screen(pre, SelectedScreen::Procedures), KeyOutcome::Continue)
        } else {
            (pre, KeyOutcome::Continue)
        },
        SelectedScreen::Posts => if label == "Browse Posts"@ {
            (spec_select_screen(pre, SelectedScreen::BrowsePosts), KeyOutcome::Continue)
        } else if label == "Search Posts"@ {
            (pre, KeyOutcome::NotImplemented)
        } else if label == "Browse Categories"@ {
            (pre, KeyOutcome::NotImplemented)
        } else if label == "Change Session"@ {
            (spec_select_screen(pre, SelectedScreen::Authors), KeyOutcome::Continue)
        } else if label == "Home"@ {
            (spec_select_screen(pre, SelectedScreen::Home), KeyOutcome::Continue)
        } else {
            (pre, KeyOutcome::Continue)
        },
        SelectedScreen::Feeds => if label == "Home"@ {
            (spec_select_screen(pre, SelectedScreen::Home), KeyOutcome::Continue)
        } else if label == "Add Feed"@ {
            (pre, KeyOutcome::NotImplemented)
        } else if label == "View Feeds"@ {
            (pre, KeyOutcome::NotImplemented)
        } else {
            (pre, KeyOutcome::Continue)
        },
        SelectedScreen::Procedures => if label == "Update Posts"@ {
            (pre, KeyOutcome::SyncRequested)
        } else if label == "Add Source"@ {
            (pre, KeyOutcome::NotImplemented)
        } else if label == "Save"@ {
            (pre, KeyOutcome::SaveRequested)
        } else if label == "Home"@ {
            (spec_select_screen(pre, SelectedScreen::Home), KeyOutcome::Continue)
        } else {
            (pre, KeyOutcome::Continue)
        },
        SelectedScreen::CreateSession => if spec_cursor(pre) + 1 < pre.items.len() {
            (AppV { cursor: Some((spec_cursor(pre) + 1) as usize), ..pre }, KeyOutcome::Continue)
        } else {
            (
                spec_select_screen(
                    AppV { session: Some(spec_committed_session(pre)), form: None, ..pre },
                    SelectedScreen::Home,
                ),
                KeyOutcome::Continue,
            )
        },
    }
}

/// What one key does in normal mode.
pub open spec fn spec_normal_step(pre: AppV, key: Key) -> (AppV, KeyOutcome) {
    match key {
        Key::Left => (spec_back(pre), KeyOutcome::Continue),
        Key::Up => (spec_cursor_up(pre), KeyOutcome::Continue),
        Key::Down => (spec_cursor_down(pre), KeyOutcome::Continue),
        Key::Enter => spec_enter_step(pre),
        Key::Char(c) => if c == 'q' {
            (pre, KeyOutcome::Quit)
        } else if c == 'j' {
            (spec_cursor_down(pre), KeyOutcome::Continue)
        } else if c == 'k' {
            (spec_cursor_up(pre), KeyOutcome::Continue)
        } else if c == 'b' {
            (spec_back(pre), KeyOutcome::Continue)
        } else if c == 'p' {
            (AppV { show_popup: !pre.show_popup, ..pre }, KeyOutcome::Continue)
        } else if c == 'i' {
            (AppV { input_mode: InputMode::Editing, ..pre }, KeyOutcome::Continue)
        } else {
            (pre, KeyOutcome::Continue)
        },
        _ => (pre, KeyOutcome::Continue),
    }
}

/// The whole dispatch of one key event: repair the cursor, then step by the
/// input mode.
pub open spec fn spec_handle_key(pre: AppV, key: Key) -> (AppV, KeyOutcome) {
    let p = spec_repaired(pre);
    match p.input_mode {
        InputMode::Editing => (spec_editing_step(p, key), KeyOutcome::Continue),
        InputMode::Normal => spec_normal_step(p, key),
    }
}

/// The inputs a key dispatch owes work for: committing the session-creation
/// form needs both answers in place (the machine's own guards make every
/// other state safe).
pub open spec fn spec_key_allowed(pre: AppV, key: Key) -> bool {
    let p = spec_repaired(pre);
    (p.input_mode is Normal && key is Enter && p.selected_screen is CreateSession && !(spec_cursor(
        p,
    ) + 1 < p.items.len())) ==> (p.form matches Some(qs) && qs.len() >= 2 && qs[0].response is Some
        && qs[1].response is Some)
}

/// The session-creation form, freshly opened: every question unanswered.
#[verifier::loop_isolation(false)]
fn fresh_questions() -> (r: Vec<QuestionWithResponse>)
    ensures
        r.deep_view() == spec_fresh_questions(),
{
    let labels = create_session_questions();
    let mut qs: Vec<QuestionWithResponse> = Vec::new();
    let ghost f = (|q: Seq<char>| QuestionV { question: q, response: None });
    proof {
        assert(labels.deep_view().take(0).map_values(f) =~= Seq::<QuestionV>::empty());
        assert(qs.deep_view() =~= Seq::<QuestionV>::empty());
    }
    let mut i: usize = 0;
    while i < labels.len()
        invariant
            i <= labels@.len(),
            labels.deep_view() == spec_create_session_questions(),
            labels.deep_view().len() == labels@.len(),
            qs.deep_view() == labels.deep_view().take(i as int).map_values(f),
        decreases labels@.len() - i,
    {
        let ghost dv = labels.deep_view();
        let ghost prev = qs.deep_view();
        let q = QuestionWithResponse::new(labels[i].clone());
        proof {
            assert(dv[i as int] == labels@[i as int]@);
            assert(q@ =~= f(dv[i as int]));
        }
        qs.push(q);
        proof {
            assert(qs.deep_view() =~= prev.push(q@));
            assert(dv.take(i + 1 as int) =~= dv.take(i as int).push(dv[i as int]));
            assert(dv.take(i + 1 as int).map_values(f) =~= dv.take(i as int).map_values(f).push(
                f(dv[i as int]),
            ));
            assert(qs.deep_view() =~= dv.take(i + 1 as int).map_values(f));
        }
        i = i + 1;
    }
    proof {
        assert(labels.deep_view().take(labels@.len() as int) =~= labels.deep_view());
    }
    qs
}

/// No two options of the home menu share a label.
proof fn lemma_home_labels_distinct()
    ensures
        "View Posts"@ != "Create New Session"@,
        "View Posts"@ != "Change Session"@,
        "View Posts"@ != "Add or Remove Sources"@,
        "View Posts"@ != "Procedures"@,
        "Create New Session"@ != "Change Session"@,
        "Create New Session"@ != "Add or Remove Sources"@,
        "Create New Session"@ != "Procedures"@,
        "Change Session"@ != "Add or Remove Sources"@,
        "Change Session"@ != "Procedures"@,
        "Add or Remove Sources"@ != "Procedures"@,
{
    reveal_strlit("View Posts");
    reveal_strlit("Create New Session");
    reveal_strlit("Change Session");
    reveal_strlit("Add or Remove Sources");
    reveal_strlit("Procedures");
    assert("View Posts"@ != "Create New Session"@) by {
        if "View Posts"@ == "Create New Session"@ {
            assert("View Posts"@.len() == "Create New Session"@.len());
        }
    }
    assert("View Posts"@ != "Change Session"@) by {
        if "View Posts"@ == "Change Session"@ {
            assert("View Posts"@.len() == "Change Session"@.len());
        }
    }
    assert("View Posts"@ != "Add or Remove Sources"@) by {
        if "View Posts"@ == "Add or Remove Sources"@ {
            assert("View Posts"@.len() == "Add or Remove Sources"@.len());
        }
    }
    assert("View Posts"@ != "Procedures"@) by {
        if "View Posts"@ == "Procedures"@ {
            assert("View Posts"@[0] == "Procedures"@[0]);
        }
    }
    assert("Create New Session"@ != "Change Session"@) by {
        if "Create New Session"@ == "Change Session"@ {
            assert("Create New Session"@.len() == "Change Session"@.len());
        }
    }
    assert("Create New Session"@ != "Add or Remove Sources"@) by {
        if "Create New Session"@ == "Add or Remove Sources"@ {
            assert("Create New Session"@.len() == "Add or Remove Sources"@.len());
        }
    }
    assert("Create New Session"@ != "Procedures"@) by {
        if "Create New Session"@ == "Procedures"@ {
            assert("Create New Session"@.len() == "Procedures"@.len());
        }
    }
    assert("Change Session"@ != "Add or Remove Sources"@) by {
        if "Change Session"@ == "Add or Remove Sources"@ {
            assert("Change Session"@.len() == "Add or Remove Sources"@.len());
        }
    }
    assert("Change Session"@ != "Procedures"@) by {
        if "Change Session"@ == "Procedures"@ {
            assert("Change Session"@.len() == "Procedures"@.len());
        }
    }
    assert("Add or Remove Sources"@ != "Procedures"@) by {
        if "Add or Remove Sources"@ == "Procedures"@ {
            assert("Add or Remove Sources"@.len() == "Procedures"@.len());
        }
    }
}

/// No two options of the posts menu share a label.
proof fn lemma_posts_labels_distinct()
    ensures
        "Browse Posts"@ != "Search Posts"@,
        "Browse Posts"@ != "Browse Categories"@,
        "Browse Posts"@ != "Change Session"@,
        "Browse Posts"@ != "Home"@,
        "Search Posts"@ != "Browse Categories"@,
        "Search Posts"@ != "Change Session"@,
        "Search Posts"@ != "Home"@,
        "Browse Categories"@ != "Change Session"@,
        "Browse Categories"@ != "Home"@,
        "Change Session"@ != "Home"@,
{
    reveal_strlit("Browse Posts");
    reveal_strlit("Search Posts");
    reveal_strlit("Browse Categories");
    reveal_strlit("Change Session");
    reveal_strlit("Home");
    assert("Browse Posts"@ != "Search Posts"@) by {
        if "Browse Posts"@ == "Search Posts"@ {
            assert("Browse Posts"@[0] == "Search Posts"@[0]);
        }
    }
    assert("Browse Posts"@ != "Browse Categories"@) by {
        if "Browse Posts"@ == "Browse Categories"@ {
            assert("Browse Posts"@.len() == "Browse Categories"@.len());
        }
    }
    assert("Browse Posts"@ != "Change Session"@) by {
        if "Browse Posts"@ == "Change Session"@ {
            assert("Browse Posts"@.len() == "Change Session"@.len());
        }
    }
    assert("Browse Posts"@ != "Home"@) by {
        if "Browse Posts"@ == "Home"@ {
            assert("Browse Posts"@.len() == "Home"@.len());
        }
    }
    assert("Search Posts"@ != "Browse Categories"@) by {
        if "Search Posts"@ == "Browse Categories"@ {
            assert("Search Posts"@.len() == "Browse Categories"@.len());
        }
    }
    assert("Search Posts"@ != "Change Session"@) by {
        if "Search Posts"@ == "Change Session"@ {
            assert("Search Posts"@.len() == "Change Session"@.len());
        }
    }
    assert("Search Posts"@ != "Home"@) by {
        if "Search Posts"@ == "Home"@ {
            assert("Search Posts"@.len() == "Home"@.len());
        }
    }
    assert("Browse Categories"@ != "Change Session"@) by {
        if "Browse Categories"@ == "Change Session"@ {
            assert("Browse Categories"@.len() == "Change Session"@.len());
        }
    }
    assert("Browse Categories"@ != "Home"@) by {
        if "Browse Categories"@ == "Home"@ {
            assert("Browse Categories"@.len() == "Home"@.len());
        }
    }
    assert("Change Session"@ != "Home"@) by {
        if "Change Session"@ == "Home"@ {
            assert("Change Session"@.len() == "Home"@.len());
        }
    }
}

/// No two options of the feeds menu share a label.
proof fn lemma_feeds_labels_distinct()
    ensures
        "Home"@ != "Add Feed"@,
        "Home"@ != "View Feeds"@,
        "Add Feed"@ != "View Feeds"@,
{
    reveal_strlit("Home");
    reveal_strlit("Add Feed");
    reveal_strlit("View Feeds");
    assert("Home"@ != "Add Feed"@) by {
        if "Home"@ == "Add Feed"@ {
            assert("Home"@.len() == "Add Feed"@.len());
        }
    }
    assert("Home"@ != "View Feeds"@) by {
        if "Home"@ == "View Feeds"@ {
            assert("Home"@.len() == "View Feeds"@.len());
        }
    }
    assert("Add Feed"@ != "View Feeds"@) by {
        if "Add Feed"@ == "View Feeds"@ {
            assert("Add Feed"@.len() == "View Feeds"@.len());
        }
    }
}

/// No two options of the procedures menu share a label.
proof fn lemma_procedures_labels_distinct()
    ensures
        "Update Posts"@ != "Add Source"@,
        "Update Posts"@ != "Save"@,
        "Update Posts"@ != "Home"@,
        "Add Source"@ != "Save"@,
        "Add Source"@ != "Home"@,
        "Save"@ != "Home"@,
{
    reveal_strlit("Update Posts");
    reveal_strlit("Add Source");
    reveal_strlit("Save");
    reveal_strlit("Home");
    assert("Update Posts"@ != "Add Source"@) by {
        if "Update Posts"@ == "Add Source"@ {
            assert("Update Posts"@.len() == "Add Source"@.len());
        }
    }
    assert("Update Posts"@ != "Save"@) by {
        if "Update Posts"@ == "Save"@ {
            assert("Update Posts"@.len() == "Save"@.len());
        }
    }
    assert("Update Posts"@ != "Home"@) by {
        if "Update Posts"@ == "Home"@ {
            assert("Update Posts"@.len() == "Home"@.len());
        }
    }
    assert("Add Source"@ != "Save"@) by {
        if "Add Source"@ == "Save"@ {
            assert("Add Source"@.len() == "Save"@.len());
        }
    }
    assert("Add Source"@ != "Home"@) by {
        if "Add Source"@ == "Home"@ {
            assert("Add Source"@.len() == "Home"@.len());
        }
    }
    assert("Save"@ != "Home"@) by {
        if "Save"@ == "Home"@ {
            assert("Save"@[0] == "Home"@[0]);
        }
    }
}

/// Going back twice oscillates between the two remembered screens: the
/// first step lands on the remembered previous screen, the second returns
/// to where the first started — a single-slot swap, not a history stack.
pub proof fn lemma_back_twice(a: AppV)
    ensures
        spec_back(a).selected_screen == a.previous_screen,
        spec_back(spec_back(a)).selected_screen == a.selected_screen,
        spec_back(spec_back(a)).previous_screen == a.previous_screen,
{
}

impl App {
    /// The machine's invariant: the cursor stays inside the option list; on
    /// screens with a fixed menu the list equals the catalog's; the form
    /// exists exactly on the session-creation screen and has one slot per
    /// question; and without a session the machine stands (and stood) on the
    /// session-creation screen, so every other screen can rely on one.
    pub open spec fn wf(&self) -> bool {
        &&& self.items.wf()
        &&& match self.selected_screen {
            SelectedScreen::BrowsePosts => true,
            SelectedScreen::Authors => true,
            _ => self@.items == spec_static_options(self.selected_screen),
        }
        &&& (self.selected_screen is CreateSession <==> self.current_form_questions is Some)
        &&& match self@.form {
            Some(qs) => qs.len() == spec_create_session_questions().len(),
            None => true,
        }
        &&& (self.session is None ==> self.selected_screen is CreateSession
            && self.previous_screen is CreateSession)
        &&& ((self.selected_screen is BrowsePosts || self.selected_screen is Authors
            || self.previous_screen is BrowsePosts || self.previous_screen is Authors)
            ==> self.session is Some)
    }

    /// A fresh machine. With a session it starts at home; without one it
    /// starts on the session-creation screen with the form open.
    pub fn new(session: Option<Session>) -> (r: App)
        ensures
            r.wf(),
            r@ == (AppV {
                scroll: 0u16,
                session: match session {
                    Some(s) => Some(s@),
                    None => None,
                },
                selected_screen: if session is Some {
                    SelectedScreen::Home
                } else {
                    SelectedScreen::CreateSession
                },
                previous_screen: if session is Some {
                    SelectedScreen::Home
                } else {
                    SelectedScreen::CreateSession
                },
                items: spec_static_options(
                    if session is Some {
                        SelectedScreen::Home
                    } else {
                        SelectedScreen::CreateSession
                    },
                ),
                cursor: None,
                show_popup: false,
                should_open_link: false,
                input: Seq::<char>::empty(),
                input_mode: InputMode::Normal,
                messages: Seq::<Seq<char>>::empty(),
                form: if session is Some {
                    None
                } else {
                    Some(spec_fresh_questions())
                },
            }),
    {
        let r = match session {
            Some(x) => App {
                scroll: 0,
                session: Some(x),
                selected_screen: SelectedScreen::Home,
                previous_screen: SelectedScreen::Home,
                items: SelectedScreen::Home.get_list_items(),
                show_popup: false,
                should_open_link: false,
                input: String::new(),
                input_mode: InputMode::Normal,
                messages: Vec::new(),
                current_form_questions: None,
            },
            None => App {
                scroll: 0,
                session: None,
                selected_screen: SelectedScreen::CreateSession,
                previous_screen: SelectedScreen::CreateSession,
                items: SelectedScreen::CreateSession.get_list_items(),
                show_popup: false,
                should_open_link: false,
                input: String::new(),
                input_mode: InputMode::Normal,
                messages: Vec::new(),
                current_form_questions: Some(fresh_questions()),
            },
        };
        proof {
            assert(r.messages.deep_view() =~= Seq::<Seq<char>>::empty());
        }
        r
    }

    /// Ticks the idle scroll counter around its ten positions.
    pub fn on_tick(&mut self)
        ensures
            final(self)@ == (AppV {
                scroll: if old(self).scroll >= 9 {
                    0u16
                } else {
                    (old(self).scroll + 1) as u16
                },
                ..old(self)@
            }),
    {
        self.scroll = if self.scroll >= 9 {
            0
        } else {
            self.scroll + 1
        };
        proof {
            assert(self@ =~= (AppV {
                scroll: if old(self).scroll >= 9 {
                    0u16
                } else {
                    (old(self).scroll + 1) as u16
                },
                ..old(self)@
            }));
        }
    }

    /// Moves to the given screen: remembers the current one, recomputes the
    /// option list, resets the cursor to the first position, and (re)opens
    /// the form exactly when the target is the session-creation screen.
    /// Entering a session-derived screen without a session is a contract
    /// violation: those screens are unreachable before a session exists.
    pub fn select_screen(&mut self, screen: SelectedScreen)
        requires
            (screen is BrowsePosts || screen is Authors) ==> old(self).session is Some,
            old(self).session is None ==> screen is CreateSession && old(
                self,
            ).selected_screen is CreateSession,
            (old(self).selected_screen is BrowsePosts || old(self).selected_screen is Authors)
                ==> old(self).session is Some,
        ensures
            final(self).wf(),
            final(self)@ == spec_select_screen(old(self)@, screen),
    {
        self.previous_screen = self.selected_screen;
        self.selected_screen = screen;
        let new_items: Vec<String> = match self.selected_screen {
            SelectedScreen::Home => HomeScreenOptions::as_vec_of_strings(),
            SelectedScreen::Posts => PostsOptions::as_vec_of_strings(),
            SelectedScreen::Procedures => ProceduresOptions::as_vec_of_strings(),
            SelectedScreen::BrowsePosts => match &self.session {
                Some(s) => s.get_all_blog_entry_titles(),
                None => vstd::pervasive::unreached(),
            },
            SelectedScreen::CreateSession => create_session_questions(),
            SelectedScreen::Feeds => FeedsOptions::as_vec_of_strings(),
            SelectedScreen::SelectSession => Vec::new(),
            SelectedScreen::Authors => match &self.session {
                Some(s) => s.get_unique_authors(),
                None => vstd::pervasive::unreached(),
            },
        };
        self.items.items = new_items;
        self.items.selected = Some(0);
        self.current_form_questions = match screen {
            SelectedScreen::CreateSession => Some(fresh_questions()),
            _ => None,
        };
        proof {
            if screen is SelectSession {
                assert(self@.items =~= spec_screen_options(screen, old(self)@.session));
            }
            assert(self@ =~= spec_select_screen(old(self)@, screen));
        }
    }

    /// Moves to the previously visited screen. Only one step of history is
    /// kept: repeated back-navigation oscillates between two screens, a
    /// deliberate limitation rather than a full undo stack.
    pub fn go_to_previous_screen(&mut self)
        requires
            old(self).wf(),
        ensures
            final(self).wf(),
            final(self)@ == spec_back(old(self)@),
    {
        let target_screen = self.previous_screen;
        self.previous_screen = self.selected_screen;
        self.select_screen(target_screen);
        proof {
            assert(self@ =~= spec_back(old(self)@));
        }
    }

    /// Commits the editing buffer as the answer to the question under the
    /// cursor and clears the buffer; without an open form, does nothing.
    pub fn save_current_buffer_to_selected_response(&mut self)
        requires
            old(self).wf(),
            old(self).current_form_questions is Some ==> old(self).items.selected is Some,
        ensures
            final(self).wf(),
            final(self)@ == spec_save_buffer(old(self)@),
    {
        let idx = match self.items.selected {
            Some(i) => i,
            None => 0,
        };
        match &mut self.current_form_questions {
            None => {},
            Some(qs) => {
                proof {
                    assert(qs.deep_view().len() == qs@.len());
                }
                qs[idx].response = Some(self.input.clone());
                self.input = String::new();
                proof {
                    assert(qs.deep_view() =~= old(self)@.form->0.update(
                        idx as int,
                        QuestionV {
                            question: old(self)@.form->0[idx as int].question,
                            response: Some(old(self)@.input),
                        },
                    ));
                }
            },
        }
        proof {
            assert(self@ =~= spec_save_buffer(old(self)@));
        }
    }

    /// Commits the completed session-creation form: the two answers become
    /// the user's name and the session's name, a fresh session with no feeds
    /// replaces whatever was there, and the form closes. Reaching the commit
    /// with an unanswered question is a contract violation: the form is
    /// answered in order, so the machine's own guards make it unreachable.
    pub fn proceed_with_question_responses(&mut self)
        requires
            old(self).selected_screen is CreateSession ==> (old(self)@.form matches Some(qs)
                && qs.len() >= 2 && qs[0].response is Some && qs[1].response is Some),
        ensures
            final(self)@ == if old(self).selected_screen is CreateSession {
                AppV {
                    session: Some(spec_committed_session(old(self)@)),
                    form: None,
                    ..old(self)@
                }
            } else {
                AppV { form: None, ..old(self)@ }
            },
    {
        match self.selected_screen {
            SelectedScreen::CreateSession => {
                let (user_name, session_name): (String, String) =
                    match &self.current_form_questions {
                    Some(qs) => {
                        proof {
                            assert(qs.deep_view().len() == qs@.len());
                            assert(qs.deep_view()[0] == qs@[0]@);
                            assert(qs.deep_view()[1] == qs@[1]@);
                        }
                        let a = match &qs[0].response {
                            Some(s) => s.clone(),
                            None => vstd::pervasive::unreached(),
                        };
                        let b = match &qs[1].response {
                            Some(s) => s.clone(),
                            None => vstd::pervasive::unreached(),
                        };
                        (a, b)
                    },
                    None => vstd::pervasive::unreached(),
                };
                self.session = Some(
                    Session::new(User::new(user_name.as_str()), Vec::new(), session_name.as_str()),
                );
                self.current_form_questions = None;
                proof {
                    assert(self@.session->0 =~= spec_committed_session(old(self)@));
                    assert(self@ =~= (AppV {
                        session: Some(spec_committed_session(old(self)@)),
                        form: None,
                        ..old(self)@
                    }));
                }
            },
            _ => {
                self.current_form_questions = None;
                proof {
                    assert(self@ =~= (AppV { form: None, ..old(self)@ }));
                }
            },
        }
    }

    /// Dispatches the enter key against the current screen: resolves the
    /// option under the cursor through the catalog and transitions, flags,
    /// advances the form, or asks the caller to save or sync.
    fn handle_enter(&mut self) -> (r: KeyOutcome)
        requires
            old(self).wf(),
            old(self).items.selected is Some,
            old(self).input_mode is Normal,
            spec_key_allowed(old(self)@, Key::Enter),
        ensures
            final(self).wf(),
            (final(self)@, r) == spec_enter_step(old(self)@),
    {
        proof {
            assert(spec_repaired(old(self)@) == old(self)@);
        }
        match self.selected_screen {
            SelectedScreen::Authors => KeyOutcome::Continue,
            SelectedScreen::BrowsePosts => {
                self.should_open_link = true;
                proof {
                    assert(self@ =~= (AppV { should_open_link: true, ..old(self)@ }));
                }
                KeyOutcome::Continue
            },
            SelectedScreen::SelectSession => KeyOutcome::NotImplemented,
            SelectedScreen::Home => {
                let cur = match self.items.selected {
                    Some(i) => i,
                    None => 0,
                };
                proof {
                    lemma_home_labels_distinct();
                    assert(self@.items == HomeScreenOptions::spec_labels());
                    assert(HomeScreenOptions::spec_labels().len() == 5);
                    assert(self.items.items@.len() == self@.items.len());
                    assert((cur as int) < self@.items.len());
                    assert(self@.items[cur as int] == self.items.items@[cur as int]@);
                    assert(HomeScreenOptions::spec_labels().contains(
                        self.items.items@[cur as int]@,
                    )) by {
                        assert(HomeScreenOptions::spec_labels()[cur as int]
                            == self.items.items@[cur as int]@);
                    }
                }
                let choice = HomeScreenOptions::from_string(self.items.items[cur].as_str());
                match choice {
                    HomeScreenOptions::ViewPosts => {
                        self.select_screen(SelectedScreen::Posts);
                        KeyOutcome::Continue
                    },
                    HomeScreenOptions::CreateSession => {
                        self.select_screen(SelectedScreen::CreateSession);
                        KeyOutcome::Continue
                    },
                    HomeScreenOptions::ChangeSession => {
                        self.select_screen(SelectedScreen::SelectSession);
                        KeyOutcome::Continue
                    },
                    HomeScreenOptions::AddRemoveSources => {
                        self.select_screen(SelectedScreen::Feeds);
                        KeyOutcome::Continue
                    },
                    HomeScreenOptions::Procedures => {
                        self.select_screen(SelectedScreen::Procedures);
                        KeyOutcome::Continue
                    },
                }
            },
            SelectedScreen::Posts => {
                let cur = match self.items.selected {
                    Some(i) => i,
                    None => 0,
                };
                proof {
                    lemma_posts_labels_distinct();
                    assert(self@.items == PostsOptions::spec_labels());
                    assert(PostsOptions::spec_labels().len() == 5);
                    assert(self.items.items@.len() == self@.items.len());
                    assert((cur as int) < self@.items.len());
                    assert(self@.items[cur as int] == self.items.items@[cur as int]@);
                    assert(PostsOptions::spec_labels().contains(self.items.items@[cur as int]@))
                        by {
                        assert(PostsOptions::spec_labels()[cur as int]
                            == self.items.items@[cur as int]@);
                    }
                }
                let choice = PostsOptions::from_string(self.items.items[cur].as_str());
                match choice {
                    PostsOptions::Home => {
                        self.select_screen(SelectedScreen::Home);
                        KeyOutcome::Continue
                    },
                    PostsOptions::Browse => {
                        self.select_screen(SelectedScreen::BrowsePosts);
                        KeyOutcome::Continue
                    },
                    PostsOptions::Search => KeyOutcome::NotImplemented,
                    PostsOptions::Authors => {
                        self.select_screen(SelectedScreen::Authors);
                        KeyOutcome::Continue
                    },
                    PostsOptions::Categories => KeyOutcome::NotImplemented,
                }
            },
            SelectedScreen::Feeds => {
                let cur = match self.items.selected {
                    Some(i) => i,
                    None => 0,
                };
                proof {
                    lemma_feeds_labels_distinct();
                    assert(self@.items == FeedsOptions::spec_labels());
                    assert(FeedsOptions::spec_labels().len() == 3);
                    assert(self.items.items@.len() == self@.items.len());
                    assert((cur as int) < self@.items.len());
                    assert(self@.items[cur as int] == self.items.items@[cur as int]@);
                    assert(FeedsOptions::spec_labels().contains(self.items.items@[cur as int]@))
                        by {
                        assert(FeedsOptions::spec_labels()[cur as int]
                            == self.items.items@[cur as int]@);
                    }
                }
                let choice = FeedsOptions::from_string(self.items.items[cur].as_str());
                match choice {
                    FeedsOptions::ViewFeeds => KeyOutcome::NotImplemented,
                    FeedsOptions::AddFeed => KeyOutcome::NotImplemented,
                    FeedsOptions::Home => {
                        self.select_screen(SelectedScreen::Home);
                        KeyOutcome::Continue
                    },
                }
            },
            SelectedScreen::Procedures => {
                let cur = match self.items.selected {
                    Some(i) => i,
                    None => 0,
                };
                proof {
                    lemma_procedures_labels_distinct();
                    assert(self@.items == ProceduresOptions::spec_labels());
                    assert(ProceduresOptions::spec_labels().len() == 4);
                    assert(self.items.items@.len() == self@.items.len());
                    assert((cur as int) < self@.items.len());
                    assert(self@.items[cur as int] == self.items.items@[cur as int]@);
                    assert(ProceduresOptions::spec_labels().contains(
                        self.items.items@[cur as int]@,
                    )) by {
                        assert(ProceduresOptions::spec_labels()[cur as int]
                            == self.items.items@[cur as int]@);
                    }
                }
                let choice = ProceduresOptions::from_string(self.items.items[cur].as_str());
                match choice {
                    ProceduresOptions::Home => {
                        self.select_screen(SelectedScreen::Home);
                        KeyOutcome::Continue
                    },
                    ProceduresOptions::AddSource => KeyOutcome::NotImplemented,
                    ProceduresOptions::DumpSessionData => KeyOutcome::SaveRequested,
                    ProceduresOptions::UpdatePosts => KeyOutcome::SyncRequested,
                }
            },
            SelectedScreen::CreateSession => {
                let cur = match self.items.selected {
                    Some(i) => i,
                    None => 0,
                };
                if cur + 1 < self.items.items.len() {
                    self.items.selected = Some(cur + 1);
                    proof {
                        assert(self@ =~= (AppV {
                            cursor: Some((cur + 1) as usize),
                            ..old(self)@
                        }));
                    }
                    KeyOutcome::Continue
                } else {
                    self.proceed_with_question_responses();
                    self.select_screen(SelectedScreen::Home);
                    proof {
                        assert(self@ =~= spec_select_screen(
                            AppV {
                                session: Some(spec_committed_session(old(self)@)),
                                form: None,
                                ..old(self)@
                            },
                            SelectedScreen::Home,
                        ));
                    }
                    KeyOutcome::Continue
                }
            },
        }
    }

    /// Dispatches one key event: repairs an unset cursor to the first
    /// position, then steps by the input mode. The returned outcome names
    /// the one effect the caller must perform.
    pub fn handle_keyboard_input(&mut self, key: Key) -> (r: KeyOutcome)
        requires
            old(self).wf(),
            spec_key_allowed(old(self)@, key),
        ensures
            final(self).wf(),
            (final(self)@, r) == spec_handle_key(old(self)@, key),
    {
        if self.items.selected.is_none() {
            self.items.selected = Some(0);
        }
        proof {
            assert(self@ =~= spec_repaired(old(self)@));
        }
        let ghost p = self@;
        match self.input_mode {
            InputMode::Editing => {
                match key {
                    Key::Enter => {
                        match self.selected_screen {
                            SelectedScreen::CreateSession => {
                                self.save_current_buffer_to_selected_response();
                            },
                            _ => {
                                proof {
                                    assert(self@ =~= spec_save_buffer(p));
                                }
                            },
                        }
                        let msg = self.input.clone();
                        self.input = String::new();
                        self.messages.push(msg);
                        self.input_mode = InputMode::Normal;
                        proof {
                            let saved = spec_save_buffer(p);
                            assert(self@.messages =~= saved.messages.push(saved.input));
                            assert(self@ =~= spec_editing_step(p, key));
                        }
                    },
                    Key::Char(c) => {
                        push_char(&mut self.input, c);
                        proof {
                            assert(self@ =~= spec_editing_step(p, key));
                        }
                    },
                    Key::Backspace => {
                        pop_char(&mut self.input);
                        proof {
                            assert(self@ =~= spec_editing_step(p, key));
                        }
                    },
                    Key::Esc => {
                        self.input_mode = InputMode::Normal;
                        self.save_current_buffer_to_selected_response();
                        proof {
                            assert(self@ =~= spec_editing_step(p, key));
                        }
                    },
                    _ => {
                        proof {
                            assert(self@ =~= spec_editing_step(p, key));
                        }
                    },
                }
                KeyOutcome::Continue
            },
            InputMode::Normal => {
                match key {
                    Key::Left => {
                        self.go_to_previous_screen();
                        KeyOutcome::Continue
                    },
                    Key::Up => {
                        self.items.previous();
                        proof {
                            assert(self@ =~= spec_cursor_up(p));
                        }
                        KeyOutcome::Continue
                    },
                    Key::Down => {
                        self.items.next();
                        proof {
                            assert(self@ =~= spec_cursor_down(p));
                        }
                        KeyOutcome::Continue
                    },
                    Key::Enter => self.handle_enter(),
                    Key::Char(c) => {
                        if c == 'q' {
                            KeyOutcome::Quit
                        } else if c == 'j' {
                            self.items.next();
                            proof {
                                assert(self@ =~= spec_cursor_down(p));
                            }
                            KeyOutcome::Continue
                        } else if c == 'k' {
                            self.items.previous();
                            proof {
                                assert(self@ =~= spec_cursor_up(p));
                            }
                            KeyOutcome::Continue
                        } else if c == 'b' {
                            self.go_to_previous_screen();
                            KeyOutcome::Continue
                        } else if c == 'p' {
                            self.show_popup = !self.show_popup;
                            proof {
                                assert(self@ =~= (AppV { show_popup: !p.show_popup, ..p }));
                            }
                            KeyOutcome::Continue
                        } else if c == 'i' {
                            self.input_mode = InputMode::Editing;
                            proof {
                                assert(self@ =~= (AppV {
                                    input_mode: InputMode::Editing,
                                    ..p
                                }));
                            }
                            KeyOutcome::Continue
                        } else {
                            KeyOutcome::Continue
                        }
                    },
                    _ => KeyOutcome::Continue,
                }
            },
        }
    }

    /// Hands out the one-shot "open externally" flag and clears it.
    pub fn take_open_link(&mut self) -> (r: bool)
        ensures
            r == old(self).should_open_link,
            final(self)@ == (AppV { should_open_link: false, ..old(self)@ }),
    {
        let r = self.should_open_link;
        self.should_open_link = false;
        proof {
            assert(self@ =~= (AppV { should_open_link: false, ..old(self)@ }));
        }
        r
    }
}

} // verus!
