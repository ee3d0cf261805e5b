//! Feed sources and the per-feed half of the synchronization pipeline:
//! parsing a fetched document and normalizing its raw items into entries.

use vstd::prelude::*;
use vstd::string::*;
use crate::entry::{Entry, EntryV};
use crate::strutil::{join_strings, lemma_flat_map_push, spec_flat_map, spec_join};

verus! {

/// Model of a raw parsed feed item, before normalization.
#[verifier::ext_equal]
pub ghost struct RawItemV {
    pub title: Option<Seq<char>>,
    pub authors: Seq<Seq<char>>,
    pub body: Option<Seq<char>>,
    pub links: Seq<Seq<char>>,
    pub updated: Option<Seq<char>>,
}

/// One item of a parsed feed document, as plain values: the item's title,
/// its authors' names, its content body, its link targets, and its update
/// timestamp already rendered as text.
#[derive(Debug)]
pub struct RawItem {
    pub title: Option<String>,
    pub authors: Vec<String>,
    pub body: Option<String>,
    pub links: Vec<String>,
    pub updated: Option<String>,
}

impl View for RawItem {
    type V = RawItemV;

    open spec fn view(&self) -> RawItemV {
        RawItemV {
            title: self.title.deep_view(),
            authors: self.authors.deep_view(),
            body: self.body.deep_view(),
            links: self.links.deep_view(),
            updated: self.updated.deep_view(),
        }
    }
}

impl DeepView for RawItem {
    type V = RawItemV;

    open spec fn deep_view(&self) -> RawItemV {
        self.view()
    }
}

/// The feed document that the parser reads out of the given bytes: its raw
/// items in document order, or nothing when the bytes are not a feed.
pub uninterp spec fn parsed_feed(bytes: Seq<u8>) -> Option<Seq<RawItemV>>;

/// Relies on `feed_rs::parser::parse`: the structured document read from the
/// bytes depends on the bytes alone. Each raw item carries over the parsed
/// item's title text, author names, content body, link targets, and update
/// timestamp (the timestamp rendered through chrono's display form, also a
/// function of the parsed value alone).
#[verifier::external_body]
fn parse_feed(bytes: &Vec<u8>) -> (r: Option<Vec<RawItem>>)
    ensures
        r is Some <==> parsed_feed(bytes@) is Some,
        r matches Some(items) ==> Some(items.deep_view()) == parsed_feed(bytes@),
{
    match feed_rs::parser::parse(bytes.as_slice()) {
        Ok(f) => Some(
            f.entries.into_iter().map(
                |e| RawItem {
                    title: e.title.map(|t| t.content),
                    authors: e.authors.into_iter().map(|p| p.name.unwrap_or_default()).collect(),
                    body: e.content.and_then(|c| c.body),
                    links: e.links.into_iter().map(|l| l.href).collect(),
                    updated: e.updated.map(|d| d.to_string()),
                },
            ).collect(),
        ),
        Err(_) => None,
    }
}

/// Normalization of one raw item: the title is required, the first link
/// becomes the url (an item without either cannot be a list entry and is
/// skipped), the author names are joined with a comma, the body becomes the
/// blurb (empty when absent), and a missing timestamp is recorded as the
/// empty-string sentinel.
pub open spec fn spec_normalize_item(it: RawItemV) -> Option<EntryV> {
    if it.title is Some && it.links.len() > 0 {
        Some(
            EntryV {
                title: it.title->0,
                authors: spec_join(it.authors, ", "@),
                blurb: match it.body {
                    Some(b) => b,
                    None => Seq::<char>::empty(),
                },
                url: it.links[0],
                content: None,
                updated_at: Some(
                    match it.updated {
                        Some(t) => t,
                        None => Seq::<char>::empty(),
                    },
                ),
            },
        )
    } else {
        None
    }
}

/// Normalization of a whole document: every item in order, the skipped ones
/// left out.
pub open spec fn spec_normalize_items(items: Seq<RawItemV>) -> Seq<EntryV>
    decreases items.len(),
{
    if items.len() == 0 {
        Seq::<EntryV>::empty()
    } else {
        (match spec_normalize_item(items[0]) {
            Some(e) => seq![e],
            None => Seq::<EntryV>::empty(),
        }) + spec_normalize_items(items.drop_first())
    }
}

/// One more raw item extends the normalized sequence by its normalization,
/// or not at all when it is skipped.
pub proof fn lemma_normalize_items_push(items: Seq<RawItemV>, x: RawItemV)
    ensures
        spec_normalize_items(items.push(x)) == spec_normalize_items(items) + (
        match spec_normalize_item(x) {
            Some(e) => seq![e],
            None => Seq::<EntryV>::empty(),
        }),
    decreases items.len(),
{
    let p = items.push(x);
    if items.len() == 0 {
        assert(p.drop_first() =~= Seq::<RawItemV>::empty());
        assert(p[0] == x);
        assert(spec_normalize_items(Seq::<RawItemV>::empty()) =~= Seq::<EntryV>::empty());
        assert(spec_normalize_items(p) =~= spec_normalize_items(items) + (
        match spec_normalize_item(x) {
            Some(e) => seq![e],
            None => Seq::<EntryV>::empty(),
        }));
    } else {
        lemma_normalize_items_push(items.drop_first(), x);
        assert(p.drop_first() =~= items.drop_first().push(x));
        assert(p[0] == items[0]);
        assert(spec_normalize_items(p) =~= spec_normalize_items(items) + (
        match spec_normalize_item(x) {
            Some(e) => seq![e],
            None => Seq::<EntryV>::empty(),
        }));
    }
}

/// Turns raw parsed items into normalized entries, in document order,
/// skipping items without a title or without a link.
pub fn normalize_items(items: &Vec<RawItem>) -> (r: Vec<Entry>)
    ensures
        r.deep_view() == spec_normalize_items(items.deep_view()),
{
    let mut r: Vec<Entry> = Vec::new();
    let mut i: usize = 0;
    proof {
        assert(items.deep_view().take(0) =~= Seq::<RawItemV>::empty());
    }
    while i < items.len()
        invariant
            i <= items.len(),
            items.deep_view().len() == items.len(),
            r.deep_view() == spec_normalize_items(items.deep_view().take(i as int)),
        decreases items.len() - i,
    {
        let it = &items[i];
        proof {
            assert(items.deep_view()[i as int] == items@[i as int]@);
        }
        match &it.title {
            Some(t) => {
                if it.links.len() > 0 {
                    let authors = join_strings(&it.authors, ", ");
                    let blurb: &str = match &it.body {
                        Some(b) => b.as_str(),
                        None => "",
                    };
                    let updated: Option<String> = match &it.updated {
                        Some(u) => Some(u.clone()),
                        None => None,
                    };
                    let e = Entry::new(
                        t.as_str(),
                        authors.as_str(),
                        blurb,
                        it.links[0].as_str(),
                        None,
                        updated,
                    );
                    proof {
                        reveal_strlit("");
                        assert(""@ =~= Seq::<char>::empty());
                        assert(it.links@[0]@ == it@.links[0]);
                        assert(e@ =~= spec_normalize_item(items.deep_view()[i as int])->0);
                    }
                    r.push(e);
                }
            },
            None => {},
        }
        proof {
            let dv = items.deep_view();
            assert(dv.take(i + 1 as int) =~= dv.take(i as int).push(dv[i as int]));
            lemma_normalize_items_push(dv.take(i as int), dv[i as int]);
            if spec_normalize_item(dv[i as int]) is Some {
                assert(r.deep_view() =~= spec_normalize_items(dv.take(i + 1 as int)));
            } else {
                assert(r.deep_view() =~= spec_normalize_items(dv.take(i + 1 as int)));
            }
        }
        i = i + 1;
    }
    proof {
        assert(items.deep_view().take(items.len() as int) =~= items.deep_view());
    }
    r
}

/// Model of a feed source: its display name, its remote address, and the
/// entries of its most recent successful sync (absent before the first).
#[verifier::ext_equal]
pub ghost struct BlogFeedV {
    pub name: Seq<char>,
    pub url: Seq<char>,
    pub entries: Option<Seq<EntryV>>,
}

/// A subscribed remote feed plus its cached entries, owned by its session.
#[derive(Debug)]
pub struct BlogFeed {
    pub name: String,
    pub url: String,
    pub entries: Option<Vec<Entry>>,
}

impl View for BlogFeed {
    type V = BlogFeedV;

    open spec fn view(&self) -> BlogFeedV {
        BlogFeedV { name: self.name@, url: self.url@, entries: self.entries.deep_view() }
    }
}

impl DeepView for BlogFeed {
    type V = BlogFeedV;

    open spec fn deep_view(&self) -> BlogFeedV {
        self.view()
    }
}

/// The entries a feed shows: the cached ones, or none before the first sync.
pub open spec fn spec_feed_entries_or_empty(f: BlogFeedV) -> Seq<EntryV> {
    match f.entries {
        Some(es) => es,
        None => Seq::<EntryV>::empty(),
    }
}

/// What one sync attempt makes of a feed: an unfetched or unparseable
/// document leaves it untouched and reports the failure; a parsed one
/// replaces the cached entries with its normalized items.
pub open spec fn spec_feed_sync_result(pre: BlogFeedV, fetched: Option<Seq<u8>>) -> (
    BlogFeedV,
    SyncStatus,
) {
    match fetched {
        None => (pre, SyncStatus::FetchFailed),
        Some(b) => match parsed_feed(b) {
            None => (pre, SyncStatus::ParseFailed),
            Some(items) => (
                BlogFeedV { entries: Some(spec_normalize_items(items)), ..pre },
                SyncStatus::Synced,
            ),
        },
    }
}

/// How one feed's sync attempt ended.
#[derive(Clone, Copy, Debug, PartialEq, Eq, Structural)]
pub enum SyncStatus {
    /// The document was fetched and parsed; the cache was replaced.
    Synced,
    /// Nothing was fetched; the cache is untouched.
    FetchFailed,
    /// The fetched bytes were not a feed; the cache is untouched.
    ParseFailed,
}

impl BlogFeed {
    /// A fresh feed source, not yet synced.
    pub fn new(url: &str, name: &str) -> (r: BlogFeed)
        ensures
            r@ == (BlogFeedV { name: name@, url: url@, entries: None }),
    {
        BlogFeed { name: name.to_owned(), url: url.to_owned(), entries: None }
    }

    /// Replaces the cached entries with the normalization of the given raw
    /// items.
    pub fn populate_entries(&mut self, items: &Vec<RawItem>)
        ensures
            final(self)@ == (BlogFeedV {
                entries: Some(spec_normalize_items(items.deep_view())),
                ..old(self)@
            }),
    {
        self.entries = Some(normalize_items(items));
    }

    /// One sync attempt from an already fetched document. A missing fetch or
    /// an unparseable document leaves the cached entries untouched; a parsed
    /// one replaces them with its normalized items.
    pub fn sync_from_fetch(&mut self, fetched: &Option<Vec<u8>>) -> (r: SyncStatus)
        ensures
            (final(self)@, r) == spec_feed_sync_result(old(self)@, fetched.deep_view()),
    {
        match fetched {
            None => {
                proof {
                    assert((self@, SyncStatus::FetchFailed) == spec_feed_sync_result(
                        self@,
                        fetched.deep_view(),
                    ));
                }
                SyncStatus::FetchFailed
            },
            Some(b) => {
                proof {
                    assert(fetched.deep_view() == Some(b@));
                }
                match parse_feed(b) {
                    None => {
                        proof {
                            assert((self@, SyncStatus::ParseFailed) == spec_feed_sync_result(
                                self@,
                                fetched.deep_view(),
                            ));
                        }
                        SyncStatus::ParseFailed
                    },
                    Some(items) => {
                        self.populate_entries(&items);
                        proof {
                            assert((self@, SyncStatus::Synced) == spec_feed_sync_result(
                                old(self)@,
                                fetched.deep_view(),
                            ));
                        }
                        SyncStatus::Synced
                    },
                }
            },
        }
    }

    /// A markdown-like rendering of one entry:
    /// `[title](url)`, the timestamp line when present, then the blurb.
    pub fn format_feed_entries(&self) -> (r: String)
        ensures
            r@ == spec_flat_map(
                spec_feed_entries_or_empty(self@),
                (|e: EntryV| spec_format_entry(e)),
            ),
    {
        let mut resp = String::new();
        let empty: Vec<Entry> = Vec::new();
        let entries: &Vec<Entry> = match &self.entries {
            Some(es) => es,
            None => &empty,
        };
        proof {
            assert(entries.deep_view() =~= spec_feed_entries_or_empty(self@));
            assert(entries.deep_view().take(0) =~= Seq::<EntryV>::empty());
        }
        let mut i: usize = 0;
        while i < entries.len()
            invariant
                i <= entries.len(),
                entries.deep_view().len() == entries.len(),
                resp@ == spec_flat_map(
                    entries.deep_view().take(i as int),
                    (|e: EntryV| spec_format_entry(e)),
                ),
            decreases entries.len() - i,
        {
            let e = &entries[i];
            resp.append("[");
            resp.append(e.title.as_str());
            resp.append("](");
            resp.append(e.url.as_str());
            resp.append(")");
            match &e.updated_at {
                Some(t) => {
                    resp.append("\n");
                    resp.append(t.as_str());
                    resp.append("\n\n");
                },
                None => {
                    resp.append("\n\n");
                },
            }
            resp.append(e.blurb.as_str());
            resp.append("\n\n");
            proof {
                let dv = entries.deep_view();
                assert(dv[i as int] == entries@[i as int]@);
                assert(dv.take(i + 1 as int) =~= dv.take(i as int).push(dv[i as int]));
                lemma_flat_map_push(dv.take(i as int), (|e: EntryV| spec_format_entry(e)), dv[i as int]);
                assert(resp@ =~= spec_flat_map(dv.take(i as int), (|e: EntryV| spec_format_entry(e)))
                    + spec_format_entry(dv[i as int]));
            }
            i = i + 1;
        }
        proof {
            assert(entries.deep_view().take(entries.len() as int) =~= entries.deep_view());
        }
        resp
    }

    /// The display content of each cached entry, in order.
    pub fn get_feed_content(&self) -> (r: Vec<String>)
        ensures
            r.deep_view() == spec_feed_entries_or_empty(self@).map_values(
                (|e: EntryV| crate::entry::spec_display_content(e)),
            ),
    {
        let empty: Vec<Entry> = Vec::new();
        let entries: &Vec<Entry> = match &self.entries {
            Some(es) => es,
            None => &empty,
        };
        proof {
            assert(entries.deep_view() =~= spec_feed_entries_or_empty(self@));
        }
        let mut blurbs: Vec<String> = Vec::new();
        let mut i: usize = 0;
        while i < entries.len()
            invariant
                i <= entries.len(),
                entries.deep_view().len() == entries.len(),
                blurbs.deep_view() == entries.deep_view().take(i as int).map_values(
                    (|e: EntryV| crate::entry::spec_display_content(e)),
                ),
            decreases entries.len() - i,
        {
            blurbs.push(entries[i].get_feed_content());
            proof {
                let dv = entries.deep_view();
                let f = (|e: EntryV| crate::entry::spec_display_content(e));
                assert(dv[i as int] == entries@[i as int]@);
                assert(dv.take(i + 1 as int) =~= dv.take(i as int).push(dv[i as int]));
                assert(dv.take(i + 1 as int).map_values(f) =~= dv.take(i as int).map_values(
                    f,
                ).push(f(dv[i as int])));
                assert(blurbs.deep_view() =~= dv.take(i as int).map_values(f).push(
                    f(dv[i as int]),
                ));
            }
            i = i + 1;
        }
        proof {
            assert(entries.deep_view().take(entries.len() as int) =~= entries.deep_view());
        }
        blurbs
    }
}

/// The text `format_feed_entries` emits for one entry.
pub open spec fn spec_format_entry(e: EntryV) -> Seq<char> {
    "["@ + e.title + "]("@ + e.url + ")"@ + (match e.updated_at {
        Some(t) => "\n"@ + t + "\n\n"@,
        None => "\n\n"@,
    }) + e.blurb + "\n\n"@
}

impl Clone for BlogFeed {
    fn clone(&self) -> (r: BlogFeed)
        ensures
            r@ == self@,
    {
        BlogFeed {
            name: self.name.clone(),
            url: self.url.clone(),
            entries: match &self.entries {
                Some(es) => {
                    let mut v: Vec<Entry> = Vec::new();
                    let mut i: usize = 0;
                    while i < es.len()
                        invariant
                            i <= es.len(),
                            v@ =~= es@.take(i as int),
                        decreases es.len() - i,
                    {
                        v.push(es[i].clone());
                        i = i + 1;
                    }
                    proof {
                        assert(es@.take(es.len() as int) =~= es@);
                    }
                    Some(v)
                },
                None => None,
            },
        }
    }
}

/// Structural equality of two entry vectors.
pub fn entries_eq(a: &Vec<Entry>, b: &Vec<Entry>) -> (r: bool)
    ensures
        r == (a.deep_view() == b.deep_view()),
{
    if a.len() != b.len() {
        proof {
            assert(a.deep_view() != b.deep_view()) by {
                if a.deep_view() == b.deep_view() {
                    assert(a.deep_view().len() == b.deep_view().len());
                }
            }
        }
        return false;
    }
    let mut i: usize = 0;
    while i < a.len()
        invariant
            i <= a.len(),
            a@.len() == b@.len(),
            a.deep_view().len() == a@.len(),
            b.deep_view().len() == b@.len(),
            forall|j: int| 0 <= j < i ==> a.deep_view()[j] == b.deep_view()[j],
        decreases a.len() - i,
    {
        if !(a[i] == b[i]) {
            proof {
                assert(a.deep_view()[i as int] == a@[i as int]@);
                assert(b.deep_view()[i as int] == b@[i as int]@);
                assert(a.deep_view() != b.deep_view()) by {
                    if a.deep_view() == b.deep_view() {
                        assert(a.deep_view()[i as int] == b.deep_view()[i as int]);
                    }
                }
            }
            return false;
        }
        proof {
            assert(a.deep_view()[i as int] == a@[i as int]@);
            assert(b.deep_view()[i as int] == b@[i as int]@);
        }
        i = i + 1;
    }
    proof {
        assert(a.deep_view() =~= b.deep_view());
    }
    true
}

impl PartialEq for BlogFeed {
    fn eq(&self, other: &BlogFeed) -> (r: bool) {
        let entries_equal = match (&self.entries, &other.entries) {
            (Some(a), Some(b)) => entries_eq(a, b),
            (None, None) => true,
            _ => false,
        };
        let r = entries_equal && self.name == other.name && self.url == other.url;
        proof {
            if r {
                assert(self@ =~= other@);
            }
        }
        r
    }
}

impl vstd::std_specs::cmp::PartialEqSpecImpl for BlogFeed {
    open spec fn obeys_eq_spec() -> bool {
        true
    }

    open spec fn eq_spec(&self, other: &BlogFeed) -> bool {
        self@ == other@
    }
}

impl Eq for BlogFeed {}

} // verus!
