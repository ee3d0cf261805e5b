//! The session model and its persistent document: getters over feeds and
//! entries, and the serialization round trip.

use feedboard::entry::Entry;
use feedboard::session::{Session, User};

fn entry(title: &str, authors: &str, blurb: &str, url: &str) -> Entry {
    Entry::new(title, authors, blurb, url, None, Some(String::from("TS")))
}

fn sample_session() -> Session {
    let mut s = Session::new(User::new("Reader"), Vec::new(), "Morning Feeds");
    s.create_blog_feed("First", "https://example.org/one");
    s.create_blog_feed("Second", "https://example.org/two");
    s.blog_feeds[0].entries = Some(vec![
        entry("A", "Ann", "blurb a", "https://example.org/one/a"),
        entry("B", "Ben", "", "https://example.org/one/b"),
    ]);
    s
}

#[test]
fn create_blog_feed_appends_in_order() {
    let s = sample_session();
    assert_eq!(s.blog_feeds.len(), 2);
    assert_eq!(s.blog_feeds[0].name, "First");
    assert_eq!(s.blog_feeds[0].url, "https://example.org/one");
    assert_eq!(s.blog_feeds[1].name, "Second");
    assert_eq!(s.blog_feeds[1].entries, None);
}

#[test]
fn getters_flatten_in_session_order_and_skip_unsynced_feeds() {
    let s = sample_session();
    let all = s.get_all_blog_entries();
    assert_eq!(all.len(), 2);
    assert_eq!(all[0].title, "A");
    assert_eq!(all[1].title, "B");
    assert_eq!(
        s.get_all_blog_entry_titles(),
        vec![String::from("TS - A"), String::from("TS - B")],
    );
    assert_eq!(
        s.get_all_blog_blurbs(),
        vec![String::from("blurb a"), String::from("B")],
    );
}

#[test]
fn unique_authors_keep_first_seen_order() {
    let mut s = sample_session();
    s.blog_feeds[1].entries = Some(vec![
        entry("C", "Ann", "", "u"),
        entry("D", "Cyd", "", "u"),
    ]);
    assert_eq!(
        s.get_unique_authors(),
        vec![String::from("Ann"), String::from("Ben"), String::from("Cyd")],
    );
}

#[test]
fn round_trip_of_a_plain_session() {
    let s = sample_session();
    let text = s.to_json_string();
    let back = Session::from_json(text.as_str()).expect("a rendered session must decode");
    assert_eq!(back, s);
}

#[test]
fn round_trip_of_an_empty_session() {
    let s = Session::new(User::new(""), Vec::new(), "");
    let back = Session::from_json(s.to_json_string().as_str()).unwrap();
    assert_eq!(back, s);
}

#[test]
fn round_trip_escapes_special_characters() {
    let mut s = Session::new(
        User::new("quote \" backslash \\ newline \n tab \t"),
        Vec::new(),
        "control \u{1} and unicode \u{e9}\u{1f600}",
    );
    s.create_blog_feed("na\"me", "url\\with\\slashes");
    s.blog_feeds[0].entries = Some(vec![Entry::new(
        "ti\"tle",
        "au\\thors",
        "bl\nurb",
        "https://example.org/?q=\"x\"",
        Some(String::from("co\u{0}ntent")),
        Some(String::from("up\"dated")),
    )]);
    let text = s.to_json_string();
    let back = Session::from_json(text.as_str()).expect("escaped text must decode");
    assert_eq!(back, s);
}

#[test]
fn rendered_document_has_the_documented_shape() {
    let mut s = Session::new(User::new("N"), Vec::new(), "S");
    s.create_blog_feed("F", "U");
    let expected = "{\n  \"user\": { \"name\": \"N\" },\n  \"name\": \"S\",\n  \"blog_feeds\": [\n    {\n      \"name\": \"F\",\n      \"url\": \"U\",\n      \"entries\": null\n    }\n  ]\n}";
    assert_eq!(s.to_json_string(), expected);
}

#[test]
fn decode_tolerates_trailing_whitespace_only() {
    let s = sample_session();
    let mut text = s.to_json_string();
    text.push_str("\n  \n");
    assert_eq!(Session::from_json(text.as_str()), Some(s));
    let mut text2 = sample_session().to_json_string();
    text2.push_str("x");
    assert_eq!(Session::from_json(text2.as_str()), None);
}

#[test]
fn malformed_documents_decode_to_nothing() {
    assert_eq!(Session::from_json(""), None);
    assert_eq!(Session::from_json("{}"), None);
    assert_eq!(Session::from_json("not json at all"), None);
    assert_eq!(Session::from_json("{ \"user\": { \"name\": \"N\" }"), None);
}

#[test]
fn json_translation_check_always_passes() {
    assert!(sample_session().test_json_translation());
    assert!(Session::new(User::new("x"), Vec::new(), "y").test_json_translation());
}

#[test]
fn session_equality_is_structural() {
    let a = sample_session();
    let b = sample_session();
    assert_eq!(a, b);
    let mut c = sample_session();
    c.name = String::from("Other");
    assert_ne!(a, c);
    let d = a.clone();
    assert_eq!(a, d);
}
