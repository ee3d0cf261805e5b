//! The normalized feed item: one article or post of a remote feed.

use vstd::prelude::*;

verus! {

/// Mathematical model of an [`Entry`]: every field as a sequence of
/// characters, optional fields as options over such sequences.
#[verifier::ext_equal]
pub ghost struct EntryV {
    pub title: Seq<char>,
    pub authors: Seq<char>,
    pub blurb: Seq<char>,
    pub url: Seq<char>,
    pub content: Option<Seq<char>>,
    pub updated_at: Option<Seq<char>>,
}

/// One normalized feed item. Immutable value object once constructed;
/// equality is structural.
#[derive(Debug)]
pub struct Entry {
    pub title: String,
    pub authors: String,
    pub blurb: String,
    pub url: String,
    pub content: Option<String>,
    pub updated_at: Option<String>,
}

impl DeepView for Entry {
    type V = EntryV;

    open spec fn deep_view(&self) -> EntryV {
        self.view()
    }
}

impl View for Entry {
    type V = EntryV;

    open spec fn view(&self) -> EntryV {
        EntryV {
            title: self.title@,
            authors: self.authors@,
            blurb: self.blurb@,
            url: self.url@,
            content: self.content.deep_view(),
            updated_at: self.updated_at.deep_view(),
        }
    }
}

/// The display-content policy: prefer the full content, else a non-empty
/// blurb, else the title.
pub open spec fn spec_display_content(e: EntryV) -> Seq<char> {
    match e.content {
        Some(c) => c,
        None => if e.blurb.len() > 0 {
            e.blurb
        } else {
            e.title
        },
    }
}

/// The display-content fallback always yields text when the entry has any:
/// the result is empty only when the preferred field is itself empty (a
/// present-but-empty content, or no content and both blurb and title empty).
pub proof fn lemma_display_content_nonempty(e: EntryV)
    requires
        match e.content {
            Some(c) => c.len() > 0,
            None => e.blurb.len() > 0 || e.title.len() > 0,
        },
    ensures
        spec_display_content(e).len() > 0,
{
}

/// The one-line label an entry gets in a navigable list:
/// the timestamp (empty if absent), a separating dash, the title.
pub open spec fn spec_list_label(e: EntryV) -> Seq<char> {
    (match e.updated_at {
        Some(t) => t,
        None => Seq::<char>::empty(),
    }) + " - "@ + e.title
}

impl Entry {
    /// Builds an entry from its parts. A missing timestamp is recorded as the
    /// empty-string sentinel, so `updated_at` is always present afterwards.
    pub fn new(
        title: &str,
        authors: &str,
        blurb: &str,
        url: &str,
        content: Option<String>,
        updated_at: Option<String>,
    ) -> (e: Entry)
        ensures
            e@ == (EntryV {
                title: title@,
                authors: authors@,
                blurb: blurb@,
                url: url@,
                content: content.deep_view(),
                updated_at: Some(
                    match updated_at {
                        Some(t) => t@,
                        None => Seq::<char>::empty(),
                    },
                ),
            }),
    {
        let updated_at_str: String = match updated_at {
            Some(x) => x,
            None => String::new(),
        };
        Entry {
            title: title.to_owned(),
            authors: authors.to_owned(),
            blurb: blurb.to_owned(),
            url: url.to_owned(),
            content,
            updated_at: Some(updated_at_str),
        }
    }

    /// What a reader is shown for this entry: the content if present, else a
    /// non-empty blurb, else the title.
    pub fn get_feed_content(&self) -> (r: String)
        ensures
            r@ == spec_display_content(self@),
    {
        match &self.content {
            Some(x) => x.clone(),
            None => {
                if !self.blurb.as_str().is_empty() {
                    self.blurb.clone()
                } else {
                    self.title.clone()
                }
            },
        }
    }

    /// The entry's one-line list label: `<timestamp> - <title>`.
    pub fn list_label(&self) -> (r: String)
        ensures
            r@ == spec_list_label(self@),
    {
        let mut r: String = match &self.updated_at {
            Some(t) => t.clone(),
            None => String::new(),
        };
        r.append(" - ");
        r.append(self.title.as_str());
        r
    }
}

impl Clone for Entry {
    fn clone(&self) -> (r: Entry)
        ensures
            r == *self,
    {
        Entry {
            title: self.title.clone(),
            authors: self.authors.clone(),
            blurb: self.blurb.clone(),
            url: self.url.clone(),
            content: match &self.content {
                Some(c) => Some(c.clone()),
                None => None,
            },
            updated_at: match &self.updated_at {
                Some(t) => Some(t.clone()),
                None => None,
            },
        }
    }
}

impl PartialEq for Entry {
    fn eq(&self, other: &Entry) -> (r: bool) {
        let content_eq = match (&self.content, &other.content) {
            (Some(a), Some(b)) => *a == *b,
            (None, None) => true,
            _ => false,
        };
        let updated_eq = match (&self.updated_at, &other.updated_at) {
            (Some(a), Some(b)) => *a == *b,
            (None, None) => true,
            _ => false,
        };
        let r = content_eq && updated_eq && self.title == other.title
            && self.authors == other.authors && self.blurb == other.blurb
            && self.url == other.url;
        proof {
            if r {
                assert(self@ =~= other@);
            }
        }
        r
    }
}

impl vstd::std_specs::cmp::PartialEqSpecImpl for Entry {
    open spec fn obeys_eq_spec() -> bool {
        true
    }

    open spec fn eq_spec(&self, other: &Entry) -> bool {
        self@ == other@
    }
}

impl Eq for Entry {}

} // verus!
