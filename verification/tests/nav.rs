//! The navigation state machine: screen transitions, cursor movement,
//! input modes, the session-creation form, and key outcomes.

use feedboard::feeds::BlogFeed;
use feedboard::nav::{App, InputMode, Key, KeyOutcome};
use feedboard::screens::{
    FeedsOptions, HomeScreenOptions, Options, PostsOptions, ProceduresOptions, SelectedScreen,
};
use feedboard::session::{Session, User};

fn fresh_session() -> Session {
    Session::new(User::new("Someone"), Vec::new(), "Their Session")
}

fn type_word(app: &mut App, word: &str) {
    for c in word.chars() {
        assert_eq!(app.handle_keyboard_input(Key::Char(c)), KeyOutcome::Continue);
    }
}

#[test]
fn new_with_session_starts_at_home() {
    let app = App::new(Some(fresh_session()));
    assert_eq!(app.selected_screen, SelectedScreen::Home);
    assert_eq!(app.previous_screen, SelectedScreen::Home);
    assert_eq!(app.items.items, HomeScreenOptions::as_vec_of_strings());
    assert!(app.current_form_questions.is_none());
}

#[test]
fn new_without_session_starts_at_create_session_with_form() {
    let app = App::new(None);
    assert_eq!(app.selected_screen, SelectedScreen::CreateSession);
    assert_eq!(app.previous_screen, SelectedScreen::CreateSession);
    let qs = app.current_form_questions.as_ref().expect("form must be open");
    assert_eq!(qs.len(), 2);
    assert!(qs[0].response.is_none());
    assert!(qs[1].response.is_none());
}

#[test]
fn select_screen_resets_cursor_and_loads_catalog_list() {
    let mut app = App::new(Some(fresh_session()));
    app.items.selected = Some(3);

    app.select_screen(SelectedScreen::Posts);
    assert_eq!(app.items.selected, Some(0));
    assert_eq!(app.items.items, PostsOptions::as_vec_of_strings());
    assert_eq!(app.items.items.len(), 5);

    app.select_screen(SelectedScreen::Feeds);
    assert_eq!(app.items.selected, Some(0));
    assert_eq!(app.items.items, FeedsOptions::as_vec_of_strings());
    assert_eq!(app.items.items.len(), 3);

    app.select_screen(SelectedScreen::Procedures);
    assert_eq!(app.items.selected, Some(0));
    assert_eq!(app.items.items, ProceduresOptions::as_vec_of_strings());
    assert_eq!(app.items.items.len(), 4);

    app.select_screen(SelectedScreen::Home);
    assert_eq!(app.items.selected, Some(0));
    assert_eq!(app.items.items, HomeScreenOptions::as_vec_of_strings());
    assert_eq!(app.items.items.len(), 5);

    app.select_screen(SelectedScreen::CreateSession);
    assert_eq!(app.items.selected, Some(0));
    assert_eq!(app.items.items.len(), 2);

    app.select_screen(SelectedScreen::SelectSession);
    assert_eq!(app.items.selected, Some(0));
    assert_eq!(app.items.items.len(), 0);
}

#[test]
fn select_screen_derives_browse_list_from_session() {
    let mut session = fresh_session();
    session.create_blog_feed("A Feed", "https://example.org/feed");
    session.blog_feeds[0].entries = Some(vec![
        feedboard::entry::Entry::new("One", "Ann", "", "u1", None, Some(String::from("T1"))),
        feedboard::entry::Entry::new("Two", "Ben", "", "u2", None, Some(String::from("T2"))),
    ]);
    let mut app = App::new(Some(session));
    app.select_screen(SelectedScreen::BrowsePosts);
    assert_eq!(
        app.items.items,
        vec![String::from("T1 - One"), String::from("T2 - Two")],
    );
    assert_eq!(app.items.selected, Some(0));

    app.select_screen(SelectedScreen::Authors);
    assert_eq!(app.items.items, vec![String::from("Ann"), String::from("Ben")]);
}

#[test]
fn back_twice_swaps_between_the_last_two_screens() {
    let mut app = App::new(Some(fresh_session()));
    app.select_screen(SelectedScreen::Posts);
    assert_eq!(app.previous_screen, SelectedScreen::Home);
    app.select_screen(SelectedScreen::Procedures);
    assert_eq!(app.previous_screen, SelectedScreen::Posts);

    app.go_to_previous_screen();
    assert_eq!(app.selected_screen, SelectedScreen::Posts);
    app.go_to_previous_screen();
    assert_eq!(app.selected_screen, SelectedScreen::Procedures);
    assert_ne!(app.selected_screen, SelectedScreen::Home);
}

#[test]
fn cursor_clamps_at_both_ends() {
    let mut app = App::new(Some(fresh_session()));
    assert_eq!(app.handle_keyboard_input(Key::Up), KeyOutcome::Continue);
    assert_eq!(app.items.selected, Some(0));
    assert_eq!(app.handle_keyboard_input(Key::Up), KeyOutcome::Continue);
    assert_eq!(app.items.selected, Some(0));
    for _ in 0..10 {
        assert_eq!(app.handle_keyboard_input(Key::Down), KeyOutcome::Continue);
    }
    assert_eq!(app.items.selected, Some(4));
    assert_eq!(app.handle_keyboard_input(Key::Char('j')), KeyOutcome::Continue);
    assert_eq!(app.items.selected, Some(4));
    assert_eq!(app.handle_keyboard_input(Key::Char('k')), KeyOutcome::Continue);
    assert_eq!(app.items.selected, Some(3));
}

#[test]
fn quit_key_ends_the_loop() {
    let mut app = App::new(Some(fresh_session()));
    assert_eq!(app.handle_keyboard_input(Key::Char('q')), KeyOutcome::Quit);
}

#[test]
fn popup_toggles() {
    let mut app = App::new(Some(fresh_session()));
    assert!(!app.show_popup);
    assert_eq!(app.handle_keyboard_input(Key::Char('p')), KeyOutcome::Continue);
    assert!(app.show_popup);
    assert_eq!(app.handle_keyboard_input(Key::Char('p')), KeyOutcome::Continue);
    assert!(!app.show_popup);
}

#[test]
fn enter_navigates_home_menu_by_label() {
    let mut app = App::new(Some(fresh_session()));
    // "View Posts" sits first on the home menu.
    assert_eq!(app.handle_keyboard_input(Key::Enter), KeyOutcome::Continue);
    assert_eq!(app.selected_screen, SelectedScreen::Posts);
    assert_eq!(app.previous_screen, SelectedScreen::Home);
    // "Home" sits first on the posts menu.
    assert_eq!(app.handle_keyboard_input(Key::Enter), KeyOutcome::Continue);
    assert_eq!(app.selected_screen, SelectedScreen::Home);
}

#[test]
fn stub_options_signal_not_implemented_without_crashing() {
    let mut app = App::new(Some(fresh_session()));
    app.select_screen(SelectedScreen::Posts);
    // Posts menu order: Home, Search, Browse, Authors, Categories.
    app.handle_keyboard_input(Key::Down);
    assert_eq!(app.handle_keyboard_input(Key::Enter), KeyOutcome::NotImplemented);
    assert_eq!(app.selected_screen, SelectedScreen::Posts);

    app.select_screen(SelectedScreen::Feeds);
    // Feeds menu order: Home, Add Feed, View Feeds.
    app.handle_keyboard_input(Key::Down);
    assert_eq!(app.handle_keyboard_input(Key::Enter), KeyOutcome::NotImplemented);

    app.select_screen(SelectedScreen::SelectSession);
    assert_eq!(app.handle_keyboard_input(Key::Enter), KeyOutcome::NotImplemented);
}

#[test]
fn procedures_menu_requests_sync_and_save() {
    let mut app = App::new(Some(fresh_session()));
    app.select_screen(SelectedScreen::Procedures);
    // Procedures menu order: Update Posts, Add Source, Save, Home.
    assert_eq!(app.handle_keyboard_input(Key::Enter), KeyOutcome::SyncRequested);
    app.handle_keyboard_input(Key::Down);
    assert_eq!(app.handle_keyboard_input(Key::Enter), KeyOutcome::NotImplemented);
    app.handle_keyboard_input(Key::Down);
    assert_eq!(app.handle_keyboard_input(Key::Enter), KeyOutcome::SaveRequested);
    app.handle_keyboard_input(Key::Down);
    assert_eq!(app.handle_keyboard_input(Key::Enter), KeyOutcome::Continue);
    assert_eq!(app.selected_screen, SelectedScreen::Home);
}

#[test]
fn browse_enter_sets_one_shot_open_link_flag() {
    let mut session = fresh_session();
    session.create_blog_feed("A Feed", "https://example.org/feed");
    session.blog_feeds[0].entries = Some(vec![feedboard::entry::Entry::new(
        "One",
        "",
        "",
        "u1",
        None,
        None,
    )]);
    let mut app = App::new(Some(session));
    app.select_screen(SelectedScreen::BrowsePosts);
    assert!(!app.should_open_link);
    assert_eq!(app.handle_keyboard_input(Key::Enter), KeyOutcome::Continue);
    assert!(app.should_open_link);
    assert!(app.take_open_link());
    assert!(!app.should_open_link);
    assert!(!app.take_open_link());
}

#[test]
fn create_session_form_commits_user_and_session_names() {
    let mut app = App::new(None);

    // Answer the first question.
    assert_eq!(app.handle_keyboard_input(Key::Char('i')), KeyOutcome::Continue);
    assert_eq!(app.input_mode, InputMode::Editing);
    type_word(&mut app, "Alice");
    assert_eq!(app.handle_keyboard_input(Key::Enter), KeyOutcome::Continue);
    assert_eq!(app.input_mode, InputMode::Normal);

    // Enter on the first question advances to the second.
    assert_eq!(app.handle_keyboard_input(Key::Enter), KeyOutcome::Continue);
    assert_eq!(app.items.selected, Some(1));

    // Answer the second question.
    app.handle_keyboard_input(Key::Char('i'));
    type_word(&mut app, "My Blog");
    app.handle_keyboard_input(Key::Enter);

    // Enter on the final question commits and lands on home.
    assert_eq!(app.handle_keyboard_input(Key::Enter), KeyOutcome::Continue);
    assert_eq!(app.selected_screen, SelectedScreen::Home);
    let session = app.session.as_ref().expect("commit must create the session");
    assert_eq!(session.user.name, "Alice");
    assert_eq!(session.name, "My Blog");
    assert_eq!(session.blog_feeds, Vec::<BlogFeed>::new());
    assert!(app.current_form_questions.is_none());
}

#[test]
fn editing_backspace_and_esc_edit_the_buffer() {
    let mut app = App::new(None);
    app.handle_keyboard_input(Key::Char('i'));
    type_word(&mut app, "Boc");
    assert_eq!(app.input, "Boc");
    app.handle_keyboard_input(Key::Backspace);
    assert_eq!(app.input, "Bo");
    app.handle_keyboard_input(Key::Char('b'));
    assert_eq!(app.handle_keyboard_input(Key::Esc), KeyOutcome::Continue);
    assert_eq!(app.input_mode, InputMode::Normal);
    let qs = app.current_form_questions.as_ref().unwrap();
    assert_eq!(qs[0].response, Some(String::from("Bob")));
    assert_eq!(app.input, "");
}

#[test]
fn label_catalog_round_trips() {
    assert_eq!(
        HomeScreenOptions::from_string("View Posts").as_string(),
        "View Posts",
    );
    assert_eq!(PostsOptions::from_string("Browse Posts").as_string(), "Browse Posts");
    assert_eq!(FeedsOptions::from_string("Add Feed").as_string(), "Add Feed");
    assert_eq!(ProceduresOptions::from_string("Save").as_string(), "Save");
    for label in HomeScreenOptions::as_vec_of_strings() {
        assert_eq!(HomeScreenOptions::from_string(label.as_str()).as_string(), label);
    }
}

#[test]
fn screen_names_match_the_catalog() {
    assert_eq!(SelectedScreen::Home.get_screen_name(), "Home");
    assert_eq!(SelectedScreen::Posts.get_screen_name(), "Posts");
    assert_eq!(SelectedScreen::Feeds.get_screen_name(), "Edit Feeds");
    assert_eq!(SelectedScreen::CreateSession.get_screen_name(), "Create Session");
    assert_eq!(SelectedScreen::SelectSession.get_screen_name(), "Select Session");
    assert_eq!(SelectedScreen::Procedures.get_screen_name(), "Procedures");
    assert_eq!(SelectedScreen::BrowsePosts.get_screen_name(), "Browse Posts");
    assert_eq!(SelectedScreen::Authors.get_screen_name(), "Authors");
}

#[test]
fn on_tick_wraps_the_scroll_counter() {
    let mut app = App::new(Some(fresh_session()));
    for expected in 1..10u16 {
        app.on_tick();
        assert_eq!(app.scroll, expected);
    }
    app.on_tick();
    assert_eq!(app.scroll, 0);
}
