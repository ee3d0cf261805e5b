//! The session: a named user plus an ordered collection of feed sources.
//! The unit of persistence, and the sole owner of all feeds and entries.

use vstd::prelude::*;
use vstd::string::*;
use crate::entry::{spec_display_content, spec_list_label, Entry, EntryV};
use crate::feeds::{
    spec_feed_entries_or_empty, spec_feed_sync_result, BlogFeed, BlogFeedV, SyncStatus,
};
use crate::strutil::{
    lemma_dedup_first_push, lemma_flat_map_push, spec_dedup_first, spec_flat_map, vec_contains_str,
};

verus! {

/// Model of a user: the display name.
#[verifier::ext_equal]
pub ghost struct UserV {
    pub name: Seq<char>,
}

/// The user a session belongs to.
#[derive(Debug)]
pub struct User {
    pub name: String,
}

impl View for User {
    type V = UserV;

    open spec fn view(&self) -> UserV {
        UserV { name: self.name@ }
    }
}

impl User {
    /// A user with the given display name.
    pub fn new(name: &str) -> (r: User)
        ensures
            r@ == (UserV { name: name@ }),
    {
        User { name: name.to_owned() }
    }
}

impl Clone for User {
    fn clone(&self) -> (r: User)
        ensures
            r == *self,
    {
        User { name: self.name.clone() }
    }
}

impl PartialEq for User {
    fn eq(&self, other: &User) -> (r: bool) {
        self.name == other.name
    }
}

impl vstd::std_specs::cmp::PartialEqSpecImpl for User {
    open spec fn obeys_eq_spec() -> bool {
        true
    }

    open spec fn eq_spec(&self, other: &User) -> bool {
        self@ == other@
    }
}

impl Eq for User {}

/// Model of a session: the user, the session name, and the feed sources in
/// insertion order.
#[verifier::ext_equal]
pub ghost struct SessionV {
    pub user: UserV,
    pub name: Seq<char>,
    pub blog_feeds: Seq<BlogFeedV>,
}

/// A named user profile holding a list of feed sources and their cached
/// entries.
#[derive(Debug)]
pub struct Session {
    pub user: User,
    pub name: String,
    pub blog_feeds: Vec<BlogFeed>,
}

impl View for Session {
    type V = SessionV;

    open spec fn view(&self) -> SessionV {
        SessionV { user: self.user@, name: self.name@, blog_feeds: self.blog_feeds.deep_view() }
    }
}

/// Every cached entry of every feed, in session order (a feed not yet
/// synced contributes nothing).
pub open spec fn spec_all_entries(s: SessionV) -> Seq<EntryV> {
    spec_flat_map(s.blog_feeds, (|f: BlogFeedV| spec_feed_entries_or_empty(f)))
}

/// The one-line list labels of every cached entry, in session order.
pub open spec fn spec_all_entry_titles(s: SessionV) -> Seq<Seq<char>> {
    spec_all_entries(s).map_values(|e: EntryV| spec_list_label(e))
}

/// The display contents of every cached entry, in session order.
pub open spec fn spec_all_blurbs(s: SessionV) -> Seq<Seq<char>> {
    spec_all_entries(s).map_values(|e: EntryV| spec_display_content(e))
}

/// The entries' author strings, deduplicated in first-seen order.
pub open spec fn spec_unique_authors(s: SessionV) -> Seq<Seq<char>> {
    spec_dedup_first(
        spec_all_entries(s).map_values(|e: EntryV| e.authors),
        Seq::<Seq<char>>::empty(),
    )
}

impl Session {
    /// A session for the given user, feeds and name.
    pub fn new(user: User, blog_feeds: Vec<BlogFeed>, name: &str) -> (r: Session)
        ensures
            r@ == (SessionV { user: user@, name: name@, blog_feeds: blog_feeds.deep_view() }),
    {
        Session { name: name.to_owned(), user, blog_feeds }
    }

    /// Appends a fresh, not-yet-synced feed source.
    pub fn create_blog_feed(&mut self, name: &str, url: &str)
        ensures
            final(self)@ == (SessionV {
                blog_feeds: old(self)@.blog_feeds.push(
                    BlogFeedV { name: name@, url: url@, entries: None },
                ),
                ..old(self)@
            }),
    {
        self.blog_feeds.push(BlogFeed::new(url, name));
        proof {
            assert(self@.blog_feeds =~= old(self)@.blog_feeds.push(
                BlogFeedV { name: name@, url: url@, entries: None },
            ));
            assert(self@ =~= (SessionV {
                blog_feeds: old(self)@.blog_feeds.push(
                    BlogFeedV { name: name@, url: url@, entries: None },
                ),
                ..old(self)@
            }));
        }
    }

    /// Every cached entry of every feed, flattened in session order.
    #[verifier::loop_isolation(false)]
    pub fn get_all_blog_entries(&self) -> (r: Vec<Entry>)
        ensures
            r.deep_view() == spec_all_entries(self@),
    {
        let ghost f = (|fd: BlogFeedV| spec_feed_entries_or_empty(fd));
        let mut all: Vec<Entry> = Vec::new();
        proof {
            assert(self@.blog_feeds.take(0) =~= Seq::<BlogFeedV>::empty());
        }
        let mut i: usize = 0;
        while i < self.blog_feeds.len()
            invariant
                i <= self.blog_feeds@.len(),
                all.deep_view() == spec_flat_map(self@.blog_feeds.take(i as int), f),
            decreases self.blog_feeds@.len() - i,
        {
            proof {
                assert(self@.blog_feeds[i as int] == self.blog_feeds@[i as int]@);
            }
            match &self.blog_feeds[i].entries {
                Some(es) => {
                    let mut j: usize = 0;
                    proof {
                        assert(es.deep_view() =~= f(self@.blog_feeds[i as int]));
                        assert(es.deep_view().take(0) =~= Seq::<EntryV>::empty());
                        assert(all.deep_view() + es.deep_view().take(0) =~= all.deep_view());
                    }
                    let ghost base = all.deep_view();
                    while j < es.len()
                        invariant
                            j <= es@.len(),
                            all.deep_view() == base + es.deep_view().take(j as int),
                        decreases es@.len() - j,
                    {
                        all.push(es[j].clone());
                        proof {
                            assert(es.deep_view()[j as int] == es@[j as int]@);
                            assert(es.deep_view().take(j + 1 as int) =~= es.deep_view().take(
                                j as int,
                            ).push(es.deep_view()[j as int]));
                            assert(all.deep_view() =~= (base + es.deep_view().take(j as int)).push(
                                es.deep_view()[j as int],
                            ));
                            assert((base + es.deep_view().take(j as int)).push(
                                es.deep_view()[j as int],
                            ) =~= base + es.deep_view().take(j + 1 as int));
                        }
                        j = j + 1;
                    }
                    proof {
                        assert(es.deep_view().take(es@.len() as int) =~= es.deep_view());
                    }
                },
                None => {
                    proof {
                        assert(f(self@.blog_feeds[i as int]) =~= Seq::<EntryV>::empty());
                    }
                },
            }
            proof {
                let fs = self@.blog_feeds;
                assert(fs.take(i + 1 as int) =~= fs.take(i as int).push(fs[i as int]));
                lemma_flat_map_push(fs.take(i as int), f, fs[i as int]);
                assert(all.deep_view() =~= spec_flat_map(fs.take(i + 1 as int), f));
            }
            i = i + 1;
        }
        proof {
            assert(self@.blog_feeds.take(self.blog_feeds@.len() as int) =~= self@.blog_feeds);
        }
        all
    }

    /// The one-line list label of every cached entry, in session order:
    /// what the browsing screen lists.
    #[verifier::loop_isolation(false)]
    pub fn get_all_blog_entry_titles(&self) -> (r: Vec<String>)
        ensures
            r.deep_view() == spec_all_entry_titles(self@),
    {
        let ghost f = (|e: EntryV| spec_list_label(e));
        let entries = self.get_all_blog_entries();
        let mut titles: Vec<String> = Vec::new();
        proof {
            assert(entries.deep_view().take(0).map_values(f) =~= Seq::<Seq<char>>::empty());
            assert(titles.deep_view() =~= Seq::<Seq<char>>::empty());
        }
        let mut i: usize = 0;
        while i < entries.len()
            invariant
                i <= entries@.len(),
                titles.deep_view() == entries.deep_view().take(i as int).map_values(f),
            decreases entries@.len() - i,
        {
            titles.push(entries[i].list_label());
            proof {
                let dv = entries.deep_view();
                assert(dv[i as int] == entries@[i as int]@);
                assert(dv.take(i + 1 as int) =~= dv.take(i as int).push(dv[i as int]));
                assert(dv.take(i + 1 as int).map_values(f) =~= dv.take(i as int).map_values(
                    f,
                ).push(f(dv[i as int])));
                assert(titles.deep_view() =~= dv.take(i + 1 as int).map_values(f));
            }
            i = i + 1;
        }
        proof {
            assert(entries.deep_view().take(entries@.len() as int) =~= entries.deep_view());
        }
        titles
    }

    /// The display content of every cached entry, in session order.
    #[verifier::loop_isolation(false)]
    pub fn get_all_blog_blurbs(&self) -> (r: Vec<String>)
        ensures
            r.deep_view() == spec_all_blurbs(self@),
    {
        let ghost f = (|e: EntryV| spec_display_content(e));
        let entries = self.get_all_blog_entries();
        let mut blurbs: Vec<String> = Vec::new();
        proof {
            assert(entries.deep_view().take(0).map_values(f) =~= Seq::<Seq<char>>::empty());
            assert(blurbs.deep_view() =~= Seq::<Seq<char>>::empty());
        }
        let mut i: usize = 0;
        while i < entries.len()
            invariant
                i <= entries@.len(),
                blurbs.deep_view() == entries.deep_view().take(i as int).map_values(f),
            decreases entries@.len() - i,
        {
            blurbs.push(entries[i].get_feed_content());
            proof {
                let dv = entries.deep_view();
                assert(dv[i as int] == entries@[i as int]@);
                assert(dv.take(i + 1 as int) =~= dv.take(i as int).push(dv[i as int]));
                assert(dv.take(i + 1 as int).map_values(f) =~= dv.take(i as int).map_values(
                    f,
                ).push(f(dv[i as int])));
                assert(blurbs.deep_view() =~= dv.take(i + 1 as int).map_values(f));
            }
            i = i + 1;
        }
        proof {
            assert(entries.deep_view().take(entries@.len() as int) =~= entries.deep_view());
        }
        blurbs
    }

    /// The entries' author strings, first seen first, each once.
    #[verifier::loop_isolation(false)]
    pub fn get_unique_authors(&self) -> (r: Vec<String>)
        ensures
            r.deep_view() == spec_unique_authors(self@),
    {
        let ghost f = (|e: EntryV| e.authors);
        let entries = self.get_all_blog_entries();
        let mut authors: Vec<String> = Vec::new();
        proof {
            assert(entries.deep_view().take(0).map_values(f) =~= Seq::<Seq<char>>::empty());
            assert(spec_dedup_first(
                entries.deep_view().take(0).map_values(f),
                Seq::<Seq<char>>::empty(),
            ) =~= Seq::<Seq<char>>::empty());
            assert(authors.deep_view() =~= Seq::<Seq<char>>::empty());
        }
        let mut i: usize = 0;
        while i < entries.len()
            invariant
                i <= entries@.len(),
                authors.deep_view() == spec_dedup_first(
                    entries.deep_view().take(i as int).map_values(f),
                    Seq::<Seq<char>>::empty(),
                ),
            decreases entries@.len() - i,
        {
            let present = vec_contains_str(&authors, entries[i].authors.as_str());
            if !present {
                authors.push(entries[i].authors.clone());
            }
            proof {
                let dv = entries.deep_view();
                assert(dv[i as int] == entries@[i as int]@);
                assert(dv.take(i + 1 as int) =~= dv.take(i as int).push(dv[i as int]));
                assert(dv.take(i + 1 as int).map_values(f) =~= dv.take(i as int).map_values(
                    f,
                ).push(f(dv[i as int])));
                lemma_dedup_first_push(
                    dv.take(i as int).map_values(f),
                    Seq::<Seq<char>>::empty(),
                    f(dv[i as int]),
                );
                assert(f(dv[i as int]) == entries@[i as int].authors@);
                if !present {
                    assert(authors.deep_view() =~= spec_dedup_first(
                        dv.take(i + 1 as int).map_values(f),
                        Seq::<Seq<char>>::empty(),
                    ));
                }
            }
            i = i + 1;
        }
        proof {
            assert(entries.deep_view().take(entries@.len() as int) =~= entries.deep_view());
        }
        authors
    }

    /// One step of the sync pipeline: commits one feed's fetched document
    /// (or its fetch failure) into the session. Only that feed changes, and
    /// only as `spec_feed_sync_result` says.
    pub fn sync_feed(&mut self, i: usize, fetched: &Option<Vec<u8>>) -> (r: SyncStatus)
        requires
            i < old(self).blog_feeds@.len(),
        ensures
            final(self)@ == (SessionV {
                blog_feeds: old(self)@.blog_feeds.update(
                    i as int,
                    spec_feed_sync_result(old(self)@.blog_feeds[i as int], fetched.deep_view()).0,
                ),
                ..old(self)@
            }),
            r == spec_feed_sync_result(old(self)@.blog_feeds[i as int], fetched.deep_view()).1,
    {
        let mut feed = self.blog_feeds.remove(i);
        proof {
            assert(feed@ == old(self)@.blog_feeds[i as int]);
        }
        let status = feed.sync_from_fetch(fetched);
        self.blog_feeds.insert(i, feed);
        proof {
            assert(self@.blog_feeds =~= old(self)@.blog_feeds.update(
                i as int,
                spec_feed_sync_result(old(self)@.blog_feeds[i as int], fetched.deep_view()).0,
            ));
            assert(self@ =~= (SessionV {
                blog_feeds: old(self)@.blog_feeds.update(
                    i as int,
                    spec_feed_sync_result(old(self)@.blog_feeds[i as int], fetched.deep_view()).0,
                ),
                ..old(self)@
            }));
        }
        status
    }

    /// The commit half of the whole sync pipeline: one already-fetched
    /// document (or fetch failure) per feed, in session order. Each feed is
    /// synced independently — one feed's failure never touches another — and
    /// the outcome of every attempt is reported.
    #[verifier::loop_isolation(false)]
    pub fn sync_all_feeds(&mut self, fetches: &Vec<Option<Vec<u8>>>) -> (r: Vec<SyncStatus>)
        requires
            fetches@.len() == old(self).blog_feeds@.len(),
        ensures
            final(self)@.user == old(self)@.user,
            final(self)@.name == old(self)@.name,
            final(self)@.blog_feeds.len() == old(self)@.blog_feeds.len(),
            r@.len() == old(self)@.blog_feeds.len(),
            forall|i: int|
                0 <= i < old(self)@.blog_feeds.len() ==> (final(self)@.blog_feeds[i], r@[i])
                    == spec_feed_sync_result(
                    old(self)@.blog_feeds[i],
                    fetches.deep_view()[i],
                ),
    {
        let mut statuses: Vec<SyncStatus> = Vec::new();
        let mut i: usize = 0;
        while i < self.blog_feeds.len()
            invariant
                i <= old(self).blog_feeds@.len(),
                self@.blog_feeds.len() == old(self)@.blog_feeds.len(),
                self.blog_feeds@.len() == old(self)@.blog_feeds.len(),
                self@.user == old(self)@.user,
                self@.name == old(self)@.name,
                statuses@.len() == i,
                forall|j: int|
                    0 <= j < i ==> (self@.blog_feeds[j], statuses@[j]) == spec_feed_sync_result(
                        old(self)@.blog_feeds[j],
                        fetches.deep_view()[j],
                    ),
                forall|j: int|
                    i <= j < old(self)@.blog_feeds.len() ==> self@.blog_feeds[j]
                        == old(self)@.blog_feeds[j],
            decreases self.blog_feeds@.len() - i,
        {
            proof {
                assert(fetches.deep_view()[i as int] == fetches@[i as int].deep_view());
            }
            let status = self.sync_feed(i, &fetches[i]);
            statuses.push(status);
            proof {
                assert(self.blog_feeds@.len() == self@.blog_feeds.len());
            }
            i = i + 1;
        }
        statuses
    }
}

impl Clone for Session {
    fn clone(&self) -> (r: Session)
        ensures
            r@ == self@,
    {
        let mut feeds: Vec<BlogFeed> = Vec::new();
        let mut i: usize = 0;
        while i < self.blog_feeds.len()
            invariant
                i <= self.blog_feeds@.len(),
                feeds.deep_view() =~= self.blog_feeds.deep_view().take(i as int),
            decreases self.blog_feeds@.len() - i,
        {
            feeds.push(self.blog_feeds[i].clone());
            proof {
                let dv = self.blog_feeds.deep_view();
                assert(dv[i as int] == self.blog_feeds@[i as int]@);
                assert(dv.take(i + 1 as int) =~= dv.take(i as int).push(dv[i as int]));
                assert(feeds.deep_view() =~= dv.take(i + 1 as int));
            }
            i = i + 1;
        }
        proof {
            assert(self.blog_feeds.deep_view().take(self.blog_feeds@.len() as int)
                =~= self.blog_feeds.deep_view());
        }
        let r = Session { user: self.user.clone(), name: self.name.clone(), blog_feeds: feeds };
        proof {
            assert(r@ =~= self@);
        }
        r
    }
}

/// Structural equality of two feed vectors.
fn feeds_eq(a: &Vec<BlogFeed>, b: &Vec<BlogFeed>) -> (r: bool)
    ensures
        r == (a.deep_view() == b.deep_view()),
{
    if a.len() != b.len() {
        proof {
            assert(a.deep_view() != b.deep_view()) by {
                if a.deep_view() == b.deep_view() {
                    assert(a.deep_view().len() == b.deep_view().len());
                }
            }
        }
        return false;
    }
    let mut i: usize = 0;
    while i < a.len()
        invariant
            i <= a@.len(),
            a@.len() == b@.len(),
            a.deep_view().len() == a@.len(),
            b.deep_view().len() == b@.len(),
            forall|j: int| 0 <= j < i ==> a.deep_view()[j] == b.deep_view()[j],
        decreases a@.len() - i,
    {
        if !(a[i] == b[i]) {
            proof {
                assert(a.deep_view()[i as int] == a@[i as int]@);
                assert(b.deep_view()[i as int] == b@[i as int]@);
                assert(a.deep_view() != b.deep_view()) by {
                    if a.deep_view() == b.deep_view() {
                        assert(a.deep_view()[i as int] == b.deep_view()[i as int]);
                    }
                }
            }
            return false;
        }
        proof {
            assert(a.deep_view()[i as int] == a@[i as int]@);
            assert(b.deep_view()[i as int] == b@[i as int]@);
        }
        i = i + 1;
    }
    proof {
        assert(a.deep_view() =~= b.deep_view());
    }
    true
}

impl PartialEq for Session {
    fn eq(&self, other: &Session) -> (r: bool) {
        let r = self.user == other.user && self.name == other.name && feeds_eq(
            &self.blog_feeds,
            &other.blog_feeds,
        );
        proof {
            if r {
                assert(self@ =~= other@);
            }
        }
        r
    }
}

impl vstd::std_specs::cmp::PartialEqSpecImpl for Session {
    open spec fn obeys_eq_spec() -> bool {
        true
    }

    open spec fn eq_spec(&self, other: &Session) -> bool {
        self@ == other@
    }
}

impl Eq for Session {}

} // verus!
