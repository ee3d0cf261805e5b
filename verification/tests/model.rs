//! The data model: entries, feeds, and their derived texts.

use feedboard::entry::Entry;
use feedboard::feeds::BlogFeed;

fn entry(
    title: &str,
    authors: &str,
    blurb: &str,
    url: &str,
    content: Option<String>,
    updated_at: Option<String>,
) -> Entry {
    Entry::new(title, authors, blurb, url, content, updated_at)
}

#[test]
fn display_content_prefers_title_when_all_else_empty() {
    let e = entry("X", "", "", "u", None, None);
    assert_eq!(e.get_feed_content(), "X");
}

#[test]
fn display_content_prefers_blurb_over_title() {
    let e = entry("X", "", "Y", "u", None, None);
    assert_eq!(e.get_feed_content(), "Y");
}

#[test]
fn display_content_prefers_content_over_everything() {
    let e = entry("X", "", "Y", "u", Some(String::from("Z")), None);
    assert_eq!(e.get_feed_content(), "Z");
}

#[test]
fn new_records_missing_timestamp_as_empty_sentinel() {
    let e = entry("t", "a", "b", "u", None, None);
    assert_eq!(e.updated_at, Some(String::from("")));
    let e2 = entry("t", "a", "b", "u", None, Some(String::from("2020-01-01 00:00:00 UTC")));
    assert_eq!(e2.updated_at, Some(String::from("2020-01-01 00:00:00 UTC")));
}

#[test]
fn list_label_is_timestamp_dash_title() {
    let e = entry("Title", "", "", "u", None, Some(String::from("2020-05-06 07:08:09 UTC")));
    assert_eq!(e.list_label(), "2020-05-06 07:08:09 UTC - Title");
    let mut bare = entry("T", "", "", "u", None, None);
    bare.updated_at = None;
    assert_eq!(bare.list_label(), " - T");
}

#[test]
fn entry_equality_is_structural() {
    let a = entry("t", "a", "b", "u", Some(String::from("c")), Some(String::from("d")));
    let b = entry("t", "a", "b", "u", Some(String::from("c")), Some(String::from("d")));
    let c = entry("t", "a", "b", "u", None, Some(String::from("d")));
    assert_eq!(a, b);
    assert_ne!(a, c);
}

#[test]
fn format_feed_entries_renders_markdown_like_lines() {
    let mut feed = BlogFeed::new("https://example.org/feed", "Example");
    assert_eq!(feed.name, "Example");
    assert_eq!(feed.url, "https://example.org/feed");
    assert_eq!(feed.entries, None);
    assert_eq!(feed.format_feed_entries(), "");

    feed.entries = Some(vec![
        entry("A", "", "first blurb", "https://example.org/a", None, Some(String::from("TS"))),
    ]);
    assert_eq!(
        feed.format_feed_entries(),
        "[A](https://example.org/a)\nTS\n\nfirst blurb\n\n",
    );

    let mut no_ts = entry("B", "", "bb", "https://example.org/b", None, None);
    no_ts.updated_at = None;
    feed.entries = Some(vec![no_ts]);
    assert_eq!(feed.format_feed_entries(), "[B](https://example.org/b)\n\nbb\n\n");
}

#[test]
fn feed_content_lists_display_content_per_entry() {
    let mut feed = BlogFeed::new("u", "n");
    assert_eq!(feed.get_feed_content(), Vec::<String>::new());
    feed.entries = Some(vec![
        entry("only title", "", "", "u1", None, None),
        entry("t", "", "a blurb", "u2", None, None),
        entry("t", "", "b", "u3", Some(String::from("full body")), None),
    ]);
    assert_eq!(
        feed.get_feed_content(),
        vec![
            String::from("only title"),
            String::from("a blurb"),
            String::from("full body"),
        ],
    );
}
