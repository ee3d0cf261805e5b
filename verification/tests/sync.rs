//! The synchronization pipeline: fetched documents are parsed and
//! normalized per feed, one feed's failure leaves the others untouched,
//! and the batch still persists.

use feedboard::entry::Entry;
use feedboard::feeds::SyncStatus;
use feedboard::session::{Session, User};

const ATOM_DOC: &str = "<?xml version=\"1.0\" encoding=\"utf-8\"?>\n<feed xmlns=\"http://www.w3.org/2005/Atom\">\n  <title>Example Feed</title>\n  <id>urn:example:feed</id>\n  <updated>2023-01-02T03:04:05Z</updated>\n  <entry>\n    <title>First Post</title>\n    <id>urn:example:e1</id>\n    <updated>2023-01-02T03:04:05Z</updated>\n    <author><name>Alice</name></author>\n    <author><name>Bob</name></author>\n    <link href=\"https://example.org/p1\"/>\n    <content type=\"text\">Hello world</content>\n  </entry>\n  <entry>\n    <title>No Link</title>\n    <id>urn:example:e2</id>\n    <updated>2023-01-02T03:04:05Z</updated>\n  </entry>\n  <entry>\n    <title>Second Post</title>\n    <id>urn:example:e3</id>\n    <updated>2024-06-07T08:09:10Z</updated>\n    <link href=\"https://example.org/p2\"/>\n  </entry>\n</feed>\n";

fn session_with_two_feeds() -> Session {
    let mut s = Session::new(User::new("Reader"), Vec::new(), "Sync Test");
    s.create_blog_feed("Broken", "https://example.org/broken");
    s.create_blog_feed("Working", "https://example.org/working");
    s.blog_feeds[0].entries = Some(vec![Entry::new(
        "cached before",
        "Old Author",
        "old blurb",
        "https://example.org/old",
        None,
        None,
    )]);
    s
}

#[test]
fn partial_failure_keeps_the_failed_feed_and_commits_the_rest() {
    let mut s = session_with_two_feeds();
    let cached = s.blog_feeds[0].entries.clone();

    let fetches: Vec<Option<Vec<u8>>> = vec![
        None,
        Some(ATOM_DOC.as_bytes().to_vec()),
    ];
    let statuses = s.sync_all_feeds(&fetches);
    assert_eq!(statuses, vec![SyncStatus::FetchFailed, SyncStatus::Synced]);

    // The failed feed's cache is untouched.
    assert_eq!(s.blog_feeds[0].entries, cached);

    // The synced feed holds the freshly parsed, normalized entries; the
    // item without a link was skipped.
    let entries = s.blog_feeds[1].entries.as_ref().expect("synced feed has entries");
    assert_eq!(entries.len(), 2);
    assert_eq!(entries[0].title, "First Post");
    assert_eq!(entries[0].authors, "Alice, Bob");
    assert_eq!(entries[0].blurb, "Hello world");
    assert_eq!(entries[0].url, "https://example.org/p1");
    assert_eq!(entries[0].content, None);
    assert_eq!(entries[0].updated_at, Some(String::from("2023-01-02 03:04:05 UTC")));
    assert_eq!(entries[1].title, "Second Post");
    assert_eq!(entries[1].authors, "");
    assert_eq!(entries[1].blurb, "");
    assert_eq!(entries[1].url, "https://example.org/p2");
    assert_eq!(entries[1].updated_at, Some(String::from("2024-06-07 08:09:10 UTC")));

    // The whole session still persists after the partial failure.
    let text = s.to_json_string();
    let back = Session::from_json(text.as_str()).expect("persisted session decodes");
    assert_eq!(back, s);
}

#[test]
fn unparseable_bytes_leave_the_cache_untouched() {
    let mut s = session_with_two_feeds();
    let cached = s.blog_feeds[0].entries.clone();
    let status = s.sync_feed(0, &Some(b"this is not a feed".to_vec()));
    assert_eq!(status, SyncStatus::ParseFailed);
    assert_eq!(s.blog_feeds[0].entries, cached);
}

#[test]
fn syncing_a_fresh_feed_fills_its_cache() {
    let mut s = Session::new(User::new("R"), Vec::new(), "S");
    s.create_blog_feed("Working", "https://example.org/working");
    assert_eq!(s.blog_feeds[0].entries, None);
    let status = s.sync_feed(0, &Some(ATOM_DOC.as_bytes().to_vec()));
    assert_eq!(status, SyncStatus::Synced);
    assert_eq!(s.blog_feeds[0].entries.as_ref().unwrap().len(), 2);
    assert_eq!(s.blog_feeds[0].name, "Working");
    assert_eq!(s.blog_feeds[0].url, "https://example.org/working");
}
