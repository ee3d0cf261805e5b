//! The session store's document format: a pretty-printed JSON text holding
//! the user, the session name, and every feed with its cached entries.
//! Rendering and parsing are both verified, and parsing a rendered session
//! gives the session back.

use vstd::prelude::*;
use vstd::string::*;
use crate::entry::{Entry, EntryV};
use crate::feeds::{BlogFeed, BlogFeedV};
use crate::session::{Session, SessionV, User, UserV};
use crate::strutil::{append_chars_of, chars_to_string, push_char, str_to_chars};

verus! {

// ---------------------------------------------------------------------------
// Tokens of the document: punctuation, the object keys (with their colon),
// and the whitespace the renderer uses at each nesting depth.
// ---------------------------------------------------------------------------

pub open spec fn t_lbrace() -> Seq<char> {
    "{"@
}

pub open spec fn t_rbrace() -> Seq<char> {
    "}"@
}

pub open spec fn t_lbrack() -> Seq<char> {
    "["@
}

pub open spec fn t_rbrack() -> Seq<char> {
    "]"@
}

pub open spec fn t_comma() -> Seq<char> {
    ","@
}

pub open spec fn jnull() -> Seq<char> {
    "null"@
}

pub open spec fn k_user() -> Seq<char> {
    "\"user\":"@
}

pub open spec fn k_name() -> Seq<char> {
    "\"name\":"@
}

pub open spec fn k_feeds() -> Seq<char> {
    "\"blog_feeds\":"@
}

pub open spec fn k_url() -> Seq<char> {
    "\"url\":"@
}

pub open spec fn k_entries() -> Seq<char> {
    "\"entries\":"@
}

pub open spec fn k_title() -> Seq<char> {
    "\"title\":"@
}

pub open spec fn k_authors() -> Seq<char> {
    "\"authors\":"@
}

pub open spec fn k_blurb() -> Seq<char> {
    "\"blurb\":"@
}

pub open spec fn k_content() -> Seq<char> {
    "\"content\":"@
}

pub open spec fn k_updated() -> Seq<char> {
    "\"updated_at\":"@
}

pub open spec fn sp1() -> Seq<char> {
    " "@
}

pub open spec fn nl0() -> Seq<char> {
    "\n"@
}

pub open spec fn nl1() -> Seq<char> {
    "\n  "@
}

pub open spec fn nl2() -> Seq<char> {
    "\n    "@
}

pub open spec fn nl3() -> Seq<char> {
    "\n      "@
}

pub open spec fn nl4() -> Seq<char> {
    "\n        "@
}

pub open spec fn nl5() -> Seq<char> {
    "\n          "@
}

// ---------------------------------------------------------------------------
// String escaping. A quote or backslash is escaped with a backslash; a
// control character becomes a four-digit hexadecimal escape; every other
// character stands for itself.
// ---------------------------------------------------------------------------

/// The hexadecimal digit for a value below sixteen.
pub open spec fn hexdig(n: int) -> char {
    if n == 0 {
        '0'
    } else if n == 1 {
        '1'
    } else if n == 2 {
        '2'
    } else if n == 3 {
        '3'
    } else if n == 4 {
        '4'
    } else if n == 5 {
        '5'
    } else if n == 6 {
        '6'
    } else if n == 7 {
        '7'
    } else if n == 8 {
        '8'
    } else if n == 9 {
        '9'
    } else if n == 10 {
        'a'
    } else if n == 11 {
        'b'
    } else if n == 12 {
        'c'
    } else if n == 13 {
        'd'
    } else if n == 14 {
        'e'
    } else {
        'f'
    }
}

/// The value of a hexadecimal digit, if it is one.
pub open spec fn hexval(c: char) -> Option<int> {
    if c == '0' {
        Some(0int)
    } else if c == '1' {
        Some(1int)
    } else if c == '2' {
        Some(2int)
    } else if c == '3' {
        Some(3int)
    } else if c == '4' {
        Some(4int)
    } else if c == '5' {
        Some(5int)
    } else if c == '6' {
        Some(6int)
    } else if c == '7' {
        Some(7int)
    } else if c == '8' {
        Some(8int)
    } else if c == '9' {
        Some(9int)
    } else if c == 'a' {
        Some(10int)
    } else if c == 'b' {
        Some(11int)
    } else if c == 'c' {
        Some(12int)
    } else if c == 'd' {
        Some(13int)
    } else if c == 'e' {
        Some(14int)
    } else if c == 'f' {
        Some(15int)
    } else {
        None
    }
}

/// The escape of one character.
pub open spec fn jesc_char(c: char) -> Seq<char> {
    if c == '"' {
        seq!['\\', '"']
    } else if c == '\\' {
        seq!['\\', '\\']
    } else if (c as u32) < 32 {
        seq!['\\', 'u', '0', '0', hexdig((c as u32) as int / 16), hexdig((c as u32) as int % 16)]
    } else {
        seq![c]
    }
}

/// The escape of a whole string body.
pub open spec fn jesc(s: Seq<char>) -> Seq<char>
    decreases s.len(),
{
    if s.len() == 0 {
        Seq::<char>::empty()
    } else {
        jesc_char(s[0]) + jesc(s.drop_first())
    }
}

/// A quoted, escaped string literal.
pub open spec fn jstr(s: Seq<char>) -> Seq<char> {
    seq!['"'] + jesc(s) + seq!['"']
}

/// A string or the null token.
pub open spec fn jopt(s: Option<Seq<char>>) -> Seq<char> {
    match s {
        Some(x) => jstr(x),
        None => jnull(),
    }
}

// ---------------------------------------------------------------------------
// The rendered document.
// ---------------------------------------------------------------------------

/// The rendered user object.
pub open spec fn render_user(u: UserV) -> Seq<char> {
    t_lbrace() + sp1() + k_name() + sp1() + jstr(u.name) + sp1() + t_rbrace()
}

/// The rendered entry object.
#[verifier::opaque]
pub open spec fn render_entry(e: EntryV) -> Seq<char> {
    t_lbrace() + nl5() + k_title() + sp1() + jstr(e.title) + t_comma() + nl5() + k_authors() + sp1()
        + jstr(e.authors) + t_comma() + nl5() + k_blurb() + sp1() + jstr(e.blurb) + t_comma()
        + nl5() + k_url() + sp1() + jstr(e.url) + t_comma() + nl5() + k_content() + sp1() + jopt(
        e.content,
    ) + t_comma() + nl5() + k_updated() + sp1() + jopt(e.updated_at) + nl4() + t_rbrace()
}

/// The rendered items of a non-empty entry list, separated by commas.
pub open spec fn render_entries_items(es: Seq<EntryV>) -> Seq<char>
    decreases es.len(),
{
    if es.len() <= 1 {
        render_entry(es[0])
    } else {
        render_entry(es[0]) + t_comma() + nl4() + render_entries_items(es.drop_first())
    }
}

/// The rendered entry list.
pub open spec fn render_entries(es: Seq<EntryV>) -> Seq<char> {
    if es.len() == 0 {
        t_lbrack() + t_rbrack()
    } else {
        t_lbrack() + nl4() + render_entries_items(es) + nl3() + t_rbrack()
    }
}

/// The rendered entry list, or null before the first sync.
pub open spec fn render_entries_opt(es: Option<Seq<EntryV>>) -> Seq<char> {
    match es {
        Some(s) => render_entries(s),
        None => jnull(),
    }
}

/// The rendered feed object.
#[verifier::opaque]
pub open spec fn render_feed(f: BlogFeedV) -> Seq<char> {
    t_lbrace() + nl3() + k_name() + sp1() + jstr(f.name) + t_comma() + nl3() + k_url() + sp1()
        + jstr(f.url) + t_comma() + nl3() + k_entries() + sp1() + render_entries_opt(f.entries)
        + nl2() + t_rbrace()
}

/// The rendered items of a non-empty feed list, separated by commas.
pub open spec fn render_feeds_items(fs: Seq<BlogFeedV>) -> Seq<char>
    decreases fs.len(),
{
    if fs.len() <= 1 {
        render_feed(fs[0])
    } else {
        render_feed(fs[0]) + t_comma() + nl2() + render_feeds_items(fs.drop_first())
    }
}

/// The rendered feed list.
pub open spec fn render_feeds(fs: Seq<BlogFeedV>) -> Seq<char> {
    if fs.len() == 0 {
        t_lbrack() + t_rbrack()
    } else {
        t_lbrack() + nl2() + render_feeds_items(fs) + nl1() + t_rbrack()
    }
}

/// The whole rendered session document.
pub open spec fn spec_render(s: SessionV) -> Seq<char> {
    t_lbrace() + nl1() + k_user() + sp1() + render_user(s.user) + t_comma() + nl1() + k_name()
        + sp1() + jstr(s.name) + t_comma() + nl1() + k_feeds() + sp1() + render_feeds(s.blog_feeds)
        + nl0() + t_rbrace()
}

// ---------------------------------------------------------------------------
// The parser, over sequences of characters. Each parsing function skips
// leading whitespace, consumes one construct, and returns it with the
// remaining text; `None` means the text does not hold that construct.
// ---------------------------------------------------------------------------

/// Whitespace characters the parser skips between tokens.
pub open spec fn is_ws(c: char) -> bool {
    c == ' ' || c == '\n' || c == '\t' || c == '\r'
}

/// The text with its leading whitespace removed.
pub open spec fn sp_ws(t: Seq<char>) -> Seq<char>
    decreases t.len(),
{
    if t.len() > 0 && is_ws(t[0]) {
        sp_ws(t.drop_first())
    } else {
        t
    }
}

/// Consumes one exact token (after whitespace).
pub open spec fn sp_lit(t: Seq<char>, tok: Seq<char>) -> Option<Seq<char>> {
    let u = sp_ws(t);
    if tok.len() <= u.len() && u.take(tok.len() as int) == tok {
        Some(u.skip(tok.len() as int))
    } else {
        None
    }
}

/// Consumes the body of a string literal up to its closing quote, undoing
/// the escapes.
pub open spec fn sp_chars(t: Seq<char>) -> Option<(Seq<char>, Seq<char>)>
    decreases t.len(),
{
    if t.len() == 0 {
        None
    } else if t[0] == '"' {
        Some((Seq::<char>::empty(), t.drop_first()))
    } else if t[0] == '\\' {
        if t.len() < 2 {
            None
        } else if t[1] == '"' || t[1] == '\\' {
            match sp_chars(t.skip(2)) {
                Some((s, r)) => Some((seq![t[1]] + s, r)),
                None => None,
            }
        } else if t[1] == 'u' {
            if t.len() < 6 {
                None
            } else if t[2] == '0' && t[3] == '0' && hexval(t[4]) is Some && hexval(t[5]) is Some {
                match sp_chars(t.skip(6)) {
                    Some(
                        (s, r),
                    ) => Some(
                        (seq![(((hexval(t[4])->0 * 16 + hexval(t[5])->0) as u32) as char)] + s, r),
                    ),
                    None => None,
                }
            } else {
                None
            }
        } else {
            None
        }
    } else {
        match sp_chars(t.drop_first()) {
            Some((s, r)) => Some((seq![t[0]] + s, r)),
            None => None,
        }
    }
}

/// Consumes one quoted string (after whitespace).
pub open spec fn sp_string(t: Seq<char>) -> Option<(Seq<char>, Seq<char>)> {
    let u = sp_ws(t);
    if u.len() > 0 && u[0] == '"' {
        sp_chars(u.drop_first())
    } else {
        None
    }
}

/// Consumes one string or the null token.
pub open spec fn sp_opt_string(t: Seq<char>) -> Option<(Option<Seq<char>>, Seq<char>)> {
    match sp_lit(t, jnull()) {
        Some(r) => Some((None, r)),
        None => match sp_string(t) {
            Some((s, r)) => Some((Some(s), r)),
            None => None,
        },
    }
}

/// Consumes one user object.
pub open spec fn sp_user(t: Seq<char>) -> Option<(UserV, Seq<char>)> {
    match sp_lit(t, t_lbrace()) {
        None => None,
        Some(t1) => match sp_lit(t1, k_name()) {
            None => None,
            Some(t2) => match sp_string(t2) {
                None => None,
                Some((name, t3)) => match sp_lit(t3, t_rbrace()) {
                    None => None,
                    Some(t4) => Some((UserV { name }, t4)),
                },
            },
        },
    }
}

/// Consumes the back half of an entry object: the url, the optional
/// content, the optional timestamp, and the closing brace.
pub open spec fn sp_entry_back(t: Seq<char>) -> Option<
    ((Seq<char>, Option<Seq<char>>, Option<Seq<char>>), Seq<char>),
> {
    match sp_lit(t, t_comma()) {
        None => None,
        Some(t1) => match sp_lit(t1, k_url()) {
            None => None,
            Some(t2) => match sp_string(t2) {
                None => None,
                Some((url, t3)) => match sp_lit(t3, t_comma()) {
                    None => None,
                    Some(t4) => match sp_lit(t4, k_content()) {
                        None => None,
                        Some(t5) => match sp_opt_string(t5) {
                            None => None,
                            Some((content, t6)) => match sp_lit(t6, t_comma()) {
                                None => None,
                                Some(t7) => match sp_lit(t7, k_updated()) {
                                    None => None,
                                    Some(t8) => match sp_opt_string(t8) {
                                        None => None,
                                        Some((updated, t9)) => match sp_lit(t9, t_rbrace()) {
                                            None => None,
                                            Some(t10) => Some(((url, content, updated), t10)),
                                        },
                                    },
                                },
                            },
                        },
                    },
                },
            },
        },
    }
}

/// Consumes one entry object.
pub open spec fn sp_entry(t: Seq<char>) -> Option<(EntryV, Seq<char>)> {
    match sp_lit(t, t_lbrace()) {
        None => None,
        Some(t1) => match sp_lit(t1, k_title()) {
            None => None,
            Some(t2) => match sp_string(t2) {
                None => None,
                Some((title, t3)) => match sp_lit(t3, t_comma()) {
                    None => None,
                    Some(t4) => match sp_lit(t4, k_authors()) {
                        None => None,
                        Some(t5) => match sp_string(t5) {
                            None => None,
                            Some((authors, t6)) => match sp_lit(t6, t_comma()) {
                                None => None,
                                Some(t7) => match sp_lit(t7, k_blurb()) {
                                    None => None,
                                    Some(t8) => match sp_string(t8) {
                                        None => None,
                                        Some((blurb, t9)) => match sp_entry_back(t9) {
                                            None => None,
                                            Some(
                                                ((url, content, updated), t10),
                                            ) => Some(
                                                (
                                                    EntryV {
                                                        title,
                                                        authors,
                                                        blurb,
                                                        url,
                                                        content,
                                                        updated_at: updated,
                                                    },
                                                    t10,
                                                ),
                                            ),
                                        },
                                    },
                                },
                            },
                        },
                    },
                },
            },
        },
    }
}

/// Consumes the items of a non-empty entry list, up to and including the
/// closing bracket.
pub open spec fn sp_entries_items(t: Seq<char>) -> Option<(Seq<EntryV>, Seq<char>)>
    decreases t.len(),
{
    match sp_entry(t) {
        None => None,
        Some((e, r)) => match sp_lit(r, t_comma()) {
            Some(r2) => if r2.len() < t.len() {
                match sp_entries_items(r2) {
                    Some((es, r3)) => Some((seq![e] + es, r3)),
                    None => None,
                }
            } else {
                None
            },
            None => match sp_lit(r, t_rbrack()) {
                Some(r2) => Some((seq![e], r2)),
                None => None,
            },
        },
    }
}

/// Consumes one entry list.
pub open spec fn sp_entries(t: Seq<char>) -> Option<(Seq<EntryV>, Seq<char>)> {
    match sp_lit(t, t_lbrack()) {
        None => None,
        Some(t1) => match sp_lit(t1, t_rbrack()) {
            Some(t2) => Some((Seq::<EntryV>::empty(), t2)),
            None => sp_entries_items(t1),
        },
    }
}

/// Consumes one entry list or the null token.
pub open spec fn sp_entries_opt(t: Seq<char>) -> Option<(Option<Seq<EntryV>>, Seq<char>)> {
    match sp_lit(t, jnull()) {
        Some(r) => Some((None, r)),
        None => match sp_entries(t) {
            Some((es, r)) => Some((Some(es), r)),
            None => None,
        },
    }
}

/// Consumes one feed object.
pub open spec fn sp_feed(t: Seq<char>) -> Option<(BlogFeedV, Seq<char>)> {
    match sp_lit(t, t_lbrace()) {
        None => None,
        Some(t1) => match sp_lit(t1, k_name()) {
            None => None,
            Some(t2) => match sp_string(t2) {
                None => None,
                Some((name, t3)) => match sp_lit(t3, t_comma()) {
                    None => None,
                    Some(t4) => match sp_lit(t4, k_url()) {
                        None => None,
                        Some(t5) => match sp_string(t5) {
                            None => None,
                            Some((url, t6)) => match sp_lit(t6, t_comma()) {
                                None => None,
                                Some(t7) => match sp_lit(t7, k_entries()) {
                                    None => None,
                                    Some(t8) => match sp_entries_opt(t8) {
                                        None => None,
                                        Some((entries, t9)) => match sp_lit(t9, t_rbrace()) {
                                            None => None,
                                            Some(
                                                t10,
                                            ) => Some((BlogFeedV { name, url, entries }, t10)),
                                        },
                                    },
                                },
                            },
                        },
                    },
                },
            },
        },
    }
}

/// Consumes the items of a non-empty feed list, up to and including the
/// closing bracket.
pub open spec fn sp_feeds_items(t: Seq<char>) -> Option<(Seq<BlogFeedV>, Seq<char>)>
    decreases t.len(),
{
    match sp_feed(t) {
        None => None,
        Some((f, r)) => match sp_lit(r, t_comma()) {
            Some(r2) => if r2.len() < t.len() {
                match sp_feeds_items(r2) {
                    Some((fs, r3)) => Some((seq![f] + fs, r3)),
                    None => None,
                }
            } else {
                None
            },
            None => match sp_lit(r, t_rbrack()) {
                Some(r2) => Some((seq![f], r2)),
                None => None,
            },
        },
    }
}

/// Consumes one feed list.
pub open spec fn sp_feeds(t: Seq<char>) -> Option<(Seq<BlogFeedV>, Seq<char>)> {
    match sp_lit(t, t_lbrack()) {
        None => None,
        Some(t1) => match sp_lit(t1, t_rbrack()) {
            Some(t2) => Some((Seq::<BlogFeedV>::empty(), t2)),
            None => sp_feeds_items(t1),
        },
    }
}

/// Consumes one session object.
pub open spec fn sp_session(t: Seq<char>) -> Option<(SessionV, Seq<char>)> {
    match sp_lit(t, t_lbrace()) {
        None => None,
        Some(t1) => match sp_lit(t1, k_user()) {
            None => None,
            Some(t2) => match sp_user(t2) {
                None => None,
                Some((user, t3)) => match sp_lit(t3, t_comma()) {
                    None => None,
                    Some(t4) => match sp_lit(t4, k_name()) {
                        None => None,
                        Some(t5) => match sp_string(t5) {
                            None => None,
                            Some((name, t6)) => match sp_lit(t6, t_comma()) {
                                None => None,
                                Some(t7) => match sp_lit(t7, k_feeds()) {
                                    None => None,
                                    Some(t8) => match sp_feeds(t8) {
                                        None => None,
                                        Some((blog_feeds, t9)) => match sp_lit(t9, t_rbrace()) {
                                            None => None,
                                            Some(
                                                t10,
                                            ) => Some((SessionV { user, name, blog_feeds }, t10)),
                                        },
                                    },
                                },
                            },
                        },
                    },
                },
            },
        },
    }
}

// ---------------------------------------------------------------------------
// Parsing a rendered document gives the document back. The lemmas follow the
// grammar: whitespace, tokens, strings, then each object and list.
// ---------------------------------------------------------------------------

/// Nothing but whitespace characters.
pub open spec fn all_ws(w: Seq<char>) -> bool {
    forall|i: int| 0 <= i < w.len() ==> is_ws(w[i])
}

/// Leading whitespace is skipped.
proof fn lemma_ws_skip(w: Seq<char>, x: Seq<char>)
    requires
        all_ws(w),
    ensures
        sp_ws(w + x) == sp_ws(x),
    decreases w.len(),
{
    if w.len() == 0 {
        assert(w + x =~= x);
    } else {
        assert((w + x)[0] == w[0]);
        assert((w + x).drop_first() =~= w.drop_first() + x);
        assert(all_ws(w.drop_first()));
        lemma_ws_skip(w.drop_first(), x);
    }
}

/// A token parses off the front of whitespace, itself, and a remainder.
proof fn lemma_lit_parse(t: Seq<char>, w: Seq<char>, tok: Seq<char>, rest: Seq<char>)
    requires
        t == w + (tok + rest),
        all_ws(w),
        tok.len() > 0,
        !is_ws(tok[0]),
    ensures
        sp_lit(t, tok) == Some(rest),
{
    lemma_ws_skip(w, tok + rest);
    assert((tok + rest)[0] == tok[0]);
    let u = sp_ws(t);
    assert(u == tok + rest);
    assert(u.take(tok.len() as int) =~= tok);
    assert(u.skip(tok.len() as int) =~= rest);
}

/// A token does not parse where the text (after whitespace) is too short or
/// opens with a different character.
proof fn lemma_lit_fail(t: Seq<char>, tok: Seq<char>)
    requires
        tok.len() > 0,
        sp_ws(t).len() < tok.len() || sp_ws(t)[0] != tok[0],
    ensures
        sp_lit(t, tok) is None,
{
    let u = sp_ws(t);
    if tok.len() <= u.len() && u.take(tok.len() as int) == tok {
        assert(u.take(tok.len() as int)[0] == u[0]);
    }
}

/// Every hexadecimal digit reads back as its value.
proof fn lemma_hexval_hexdig(n: int)
    requires
        0 <= n < 16,
    ensures
        hexval(hexdig(n)) == Some(n),
{
}

/// The escaped body of a string, with the closing quote and a remainder,
/// scans back to the string.
proof fn lemma_chars_parse(s: Seq<char>, rest: Seq<char>)
    ensures
        sp_chars(jesc(s) + (seq!['"'] + rest)) == Some((s, rest)),
    decreases s.len(),
{
    let t = jesc(s) + (seq!['"'] + rest);
    if s.len() == 0 {
        assert(jesc(s) =~= Seq::<char>::empty());
        assert(t =~= seq!['"'] + rest);
        assert(t[0] == '"');
        assert(t.drop_first() =~= rest);
    } else {
        let c = s[0];
        let s2 = s.drop_first();
        let tail = jesc(s2) + (seq!['"'] + rest);
        lemma_chars_parse(s2, rest);
        assert(jesc(s) == jesc_char(c) + jesc(s2));
        assert(t =~= jesc_char(c) + tail);
        if c == '"' {
            assert(t =~= seq!['\\', '"'] + tail);
            assert(t[0] == '\\');
            assert(t[1] == '"');
            assert(t.skip(2) =~= tail);
            assert(seq![t[1]] + s2 =~= s);
        } else if c == '\\' {
            assert(t =~= seq!['\\', '\\'] + tail);
            assert(t[0] == '\\');
            assert(t[1] == '\\');
            assert(t.skip(2) =~= tail);
            assert(seq![t[1]] + s2 =~= s);
        } else if (c as u32) < 32 {
            let cu = (c as u32) as int;
            let hi = cu / 16;
            let lo = cu % 16;
            assert(t =~= seq!['\\', 'u', '0', '0', hexdig(hi), hexdig(lo)] + tail);
            assert(t[0] == '\\');
            assert(t[1] == 'u');
            assert(t[2] == '0');
            assert(t[3] == '0');
            assert(t[4] == hexdig(hi));
            assert(t[5] == hexdig(lo));
            assert(0 <= hi < 16);
            assert(0 <= lo < 16);
            lemma_hexval_hexdig(hi);
            lemma_hexval_hexdig(lo);
            vstd::arithmetic::div_mod::lemma_fundamental_div_mod(cu, 16);
            assert(hexval(t[4])->0 * 16 + hexval(t[5])->0 == cu);
            assert(((cu as u32) as char) == c) by {
                vstd::utf8::char_u32_cast(c, c as u32);
            }
            assert(t.skip(6) =~= tail);
            assert(seq![((cu as u32) as char)] + s2 =~= s);
        } else {
            assert(jesc_char(c) =~= seq![c]);
            assert(t =~= seq![c] + tail);
            assert(t[0] == c);
            assert(t.drop_first() =~= tail);
            assert(seq![t[0]] + s2 =~= s);
        }
    }
}

/// A rendered string literal parses back to the string.
proof fn lemma_string_parse(t: Seq<char>, w: Seq<char>, s: Seq<char>, rest: Seq<char>)
    requires
        t == w + (jstr(s) + rest),
        all_ws(w),
    ensures
        sp_string(t) == Some((s, rest)),
{
    lemma_ws_skip(w, jstr(s) + rest);
    let u = jstr(s) + rest;
    assert(u[0] == '"');
    assert(sp_ws(u) == u);
    assert(sp_ws(t) == u);
    assert(u.drop_first() =~= jesc(s) + (seq!['"'] + rest));
    lemma_chars_parse(s, rest);
}

/// A rendered optional string parses back to it: the null token reads as
/// absence, anything else must be a string literal.
proof fn lemma_opt_string_parse(t: Seq<char>, w: Seq<char>, v: Option<Seq<char>>, rest: Seq<char>)
    requires
        t == w + (jopt(v) + rest),
        all_ws(w),
    ensures
        sp_opt_string(t) == Some((v, rest)),
{
    lemma_format_facts();
    match v {
        None => {
            lemma_lit_parse(t, w, jnull(), rest);
        },
        Some(s) => {
            lemma_ws_skip(w, jstr(s) + rest);
            assert((jstr(s) + rest)[0] == '"');
            assert(sp_ws(jstr(s) + rest) == jstr(s) + rest);
            assert(sp_ws(t)[0] == '"');
            lemma_lit_fail(t, jnull());
            lemma_string_parse(t, w, s, rest);
        },
    }
}


/// A rendered entry opens with a brace.
proof fn lemma_render_entry_first(e: EntryV)
    ensures
        render_entry(e).len() > 0,
        render_entry(e)[0] == '{',
{
    reveal(render_entry);
    lemma_format_facts();
}

/// A rendered feed opens with a brace.
proof fn lemma_render_feed_first(f: BlogFeedV)
    ensures
        render_feed(f).len() > 0,
        render_feed(f)[0] == '{',
{
    reveal(render_feed);
    lemma_format_facts();
}

/// The rendered items of a non-empty entry list, with the list's closing,
/// parse back to the items.
proof fn lemma_entries_items_parse(t: Seq<char>, w: Seq<char>, es: Seq<EntryV>, rest: Seq<char>)
    requires
        t == w + (render_entries_items(es) + (nl3() + (t_rbrack() + rest))),
        all_ws(w),
        es.len() >= 1,
    ensures
        sp_entries_items(t) == Some((es, rest)),
    decreases es.len(),
{
    lemma_format_facts();
    if es.len() == 1 {
        let closing = nl3() + (t_rbrack() + rest);
        assert(t =~= w + (render_entry(es[0]) + closing));
        lemma_entry_parse(t, w, es[0], closing);
        lemma_ws_skip(nl3(), t_rbrack() + rest);
        assert((t_rbrack() + rest)[0] == ']');
        assert(sp_ws(t_rbrack() + rest) == t_rbrack() + rest);
        assert(sp_ws(closing)[0] == ']');
        lemma_lit_fail(closing, t_comma());
        lemma_lit_parse(closing, nl3(), t_rbrack(), rest);
        assert(seq![es[0]] =~= es);
    } else {
        let tail = nl4() + (render_entries_items(es.drop_first()) + (nl3() + (t_rbrack() + rest)));
        let r = t_comma() + tail;
        assert(t =~= w + (render_entry(es[0]) + r));
        lemma_entry_parse(t, w, es[0], r);
        assert(r =~= Seq::<char>::empty() + (t_comma() + r.skip(1)));
        assert(r.skip(1) =~= tail);
        assert(r =~= Seq::<char>::empty() + (t_comma() + tail));
        lemma_lit_parse(r, Seq::<char>::empty(), t_comma(), tail);
        assert(t.len() > tail.len()) by {
            assert(t.len() == w.len() + render_entry(es[0]).len() + t_comma().len() + tail.len());
        }
        lemma_entries_items_parse(tail, nl4(), es.drop_first(), rest);
        assert(seq![es[0]] + es.drop_first() =~= es);
    }
}

/// A rendered entry list parses back to the entries.
proof fn lemma_entries_parse(t: Seq<char>, w: Seq<char>, es: Seq<EntryV>, rest: Seq<char>)
    requires
        t == w + (render_entries(es) + rest),
        all_ws(w),
    ensures
        sp_entries(t) == Some((es, rest)),
{
    lemma_format_facts();
    if es.len() == 0 {
        let r1 = t_rbrack() + rest;
        assert(t =~= w + (t_lbrack() + r1));
        lemma_lit_parse(t, w, t_lbrack(), r1);
        assert(r1 =~= Seq::<char>::empty() + (t_rbrack() + rest));
        lemma_lit_parse(r1, Seq::<char>::empty(), t_rbrack(), rest);
        assert(Seq::<EntryV>::empty() =~= es);
    } else {
        let inner = nl4() + (render_entries_items(es) + (nl3() + (t_rbrack() + rest)));
        assert(t =~= w + (t_lbrack() + inner));
        lemma_lit_parse(t, w, t_lbrack(), inner);
        assert(render_entries_items(es).len() > 0 && render_entries_items(es)[0] == '{') by {
            lemma_render_entry_first(es[0]);
            assert(render_entries_items(es)[0] == render_entry(es[0])[0]);
        }
        lemma_ws_skip(nl4(), render_entries_items(es) + (nl3() + (t_rbrack() + rest)));
        assert((render_entries_items(es) + (nl3() + (t_rbrack() + rest)))[0] == '{');
        assert(sp_ws(render_entries_items(es) + (nl3() + (t_rbrack() + rest)))
            == render_entries_items(es) + (nl3() + (t_rbrack() + rest)));
        assert(sp_ws(inner)[0] == '{');
        lemma_lit_fail(inner, t_rbrack());
        lemma_entries_items_parse(inner, nl4(), es, rest);
    }
}

/// A rendered optional entry list parses back to it.
proof fn lemma_entries_opt_parse(
    t: Seq<char>,
    w: Seq<char>,
    es: Option<Seq<EntryV>>,
    rest: Seq<char>,
)
    requires
        t == w + (render_entries_opt(es) + rest),
        all_ws(w),
    ensures
        sp_entries_opt(t) == Some((es, rest)),
{
    lemma_format_facts();
    match es {
        None => {
            lemma_lit_parse(t, w, jnull(), rest);
        },
        Some(s) => {
            assert(render_entries(s)[0] == '[') by {
                assert(render_entries(s)[0] == t_lbrack()[0]);
            }
            lemma_ws_skip(w, render_entries(s) + rest);
            assert((render_entries(s) + rest)[0] == '[');
            assert(sp_ws(render_entries(s) + rest) == render_entries(s) + rest);
            assert(sp_ws(t)[0] == '[');
            lemma_lit_fail(t, jnull());
            lemma_entries_parse(t, w, s, rest);
        },
    }
}

/// The rendered items of a non-empty feed list, with the list's closing,
/// parse back to the items.
proof fn lemma_feeds_items_parse(t: Seq<char>, w: Seq<char>, fs: Seq<BlogFeedV>, rest: Seq<char>)
    requires
        t == w + (render_feeds_items(fs) + (nl1() + (t_rbrack() + rest))),
        all_ws(w),
        fs.len() >= 1,
    ensures
        sp_feeds_items(t) == Some((fs, rest)),
    decreases fs.len(),
{
    lemma_format_facts();
    if fs.len() == 1 {
        let closing = nl1() + (t_rbrack() + rest);
        assert(t =~= w + (render_feed(fs[0]) + closing));
        lemma_feed_parse(t, w, fs[0], closing);
        lemma_ws_skip(nl1(), t_rbrack() + rest);
        assert((t_rbrack() + rest)[0] == ']');
        assert(sp_ws(t_rbrack() + rest) == t_rbrack() + rest);
        assert(sp_ws(closing)[0] == ']');
        lemma_lit_fail(closing, t_comma());
        lemma_lit_parse(closing, nl1(), t_rbrack(), rest);
        assert(seq![fs[0]] =~= fs);
    } else {
        let tail = nl2() + (render_feeds_items(fs.drop_first()) + (nl1() + (t_rbrack() + rest)));
        let r = t_comma() + tail;
        assert(t =~= w + (render_feed(fs[0]) + r));
        lemma_feed_parse(t, w, fs[0], r);
        assert(r =~= Seq::<char>::empty() + (t_comma() + tail));
        lemma_lit_parse(r, Seq::<char>::empty(), t_comma(), tail);
        assert(t.len() > tail.len()) by {
            assert(t.len() == w.len() + render_feed(fs[0]).len() + t_comma().len() + tail.len());
        }
        lemma_feeds_items_parse(tail, nl2(), fs.drop_first(), rest);
        assert(seq![fs[0]] + fs.drop_first() =~= fs);
    }
}

/// A rendered feed list parses back to the feeds.
proof fn lemma_feeds_parse(t: Seq<char>, w: Seq<char>, fs: Seq<BlogFeedV>, rest: Seq<char>)
    requires
        t == w + (render_feeds(fs) + rest),
        all_ws(w),
    ensures
        sp_feeds(t) == Some((fs, rest)),
{
    lemma_format_facts();
    if fs.len() == 0 {
        let r1 = t_rbrack() + rest;
        assert(t =~= w + (t_lbrack() + r1));
        lemma_lit_parse(t, w, t_lbrack(), r1);
        assert(r1 =~= Seq::<char>::empty() + (t_rbrack() + rest));
        lemma_lit_parse(r1, Seq::<char>::empty(), t_rbrack(), rest);
        assert(Seq::<BlogFeedV>::empty() =~= fs);
    } else {
        let inner = nl2() + (render_feeds_items(fs) + (nl1() + (t_rbrack() + rest)));
        assert(t =~= w + (t_lbrack() + inner));
        lemma_lit_parse(t, w, t_lbrack(), inner);
        assert(render_feeds_items(fs).len() > 0 && render_feeds_items(fs)[0] == '{') by {
            lemma_render_feed_first(fs[0]);
            assert(render_feeds_items(fs)[0] == render_feed(fs[0])[0]);
        }
        lemma_ws_skip(nl2(), render_feeds_items(fs) + (nl1() + (t_rbrack() + rest)));
        assert((render_feeds_items(fs) + (nl1() + (t_rbrack() + rest)))[0] == '{');
        assert(sp_ws(render_feeds_items(fs) + (nl1() + (t_rbrack() + rest)))
            == render_feeds_items(fs) + (nl1() + (t_rbrack() + rest)));
        assert(sp_ws(inner)[0] == '{');
        lemma_lit_fail(inner, t_rbrack());
        lemma_feeds_items_parse(inner, nl2(), fs, rest);
    }
}

/// The serialization round trip: decoding a rendered session gives the
/// session back, exactly.
pub proof fn lemma_render_load_round_trip(s: SessionV)
    ensures
        spec_load(spec_render(s)) == Some(s),
{
    let t = spec_render(s);
    assert(t =~= Seq::<char>::empty() + (spec_render(s) + Seq::<char>::empty()));
    lemma_session_parse(t, Seq::<char>::empty(), s, Seq::<char>::empty());
    assert(sp_ws(Seq::<char>::empty()).len() == 0);
}
/// The concrete shape of every token and whitespace chunk of the format.
proof fn lemma_format_facts()
    ensures
        t_lbrace().len() == 1,
        t_lbrace()[0] == '{',
        !is_ws(t_lbrace()[0]),
        t_rbrace().len() == 1,
        t_rbrace()[0] == '}',
        !is_ws(t_rbrace()[0]),
        t_lbrack().len() == 1,
        t_lbrack()[0] == '[',
        !is_ws(t_lbrack()[0]),
        t_rbrack().len() == 1,
        t_rbrack()[0] == ']',
        !is_ws(t_rbrack()[0]),
        t_comma().len() == 1,
        t_comma()[0] == ',',
        !is_ws(t_comma()[0]),
        jnull().len() == 4,
        jnull()[0] == 'n',
        !is_ws(jnull()[0]),
        k_user().len() == 7,
        k_user()[0] == '"',
        !is_ws(k_user()[0]),
        k_name().len() == 7,
        k_name()[0] == '"',
        !is_ws(k_name()[0]),
        k_feeds().len() == 13,
        k_feeds()[0] == '"',
        !is_ws(k_feeds()[0]),
        k_url().len() == 6,
        k_url()[0] == '"',
        !is_ws(k_url()[0]),
        k_entries().len() == 10,
        k_entries()[0] == '"',
        !is_ws(k_entries()[0]),
        k_title().len() == 8,
        k_title()[0] == '"',
        !is_ws(k_title()[0]),
        k_authors().len() == 10,
        k_authors()[0] == '"',
        !is_ws(k_authors()[0]),
        k_blurb().len() == 8,
        k_blurb()[0] == '"',
        !is_ws(k_blurb()[0]),
        k_content().len() == 10,
        k_content()[0] == '"',
        !is_ws(k_content()[0]),
        k_updated().len() == 13,
        k_updated()[0] == '"',
        !is_ws(k_updated()[0]),
        all_ws(sp1()),
        all_ws(nl0()),
        all_ws(nl1()),
        all_ws(nl2()),
        all_ws(nl3()),
        all_ws(nl4()),
        all_ws(nl5()),
        all_ws(Seq::<char>::empty()),
{
    reveal_strlit("{");
    reveal_strlit("}");
    reveal_strlit("[");
    reveal_strlit("]");
    reveal_strlit(",");
    reveal_strlit("null");
    reveal_strlit("\"user\":");
    reveal_strlit("\"name\":");
    reveal_strlit("\"blog_feeds\":");
    reveal_strlit("\"url\":");
    reveal_strlit("\"entries\":");
    reveal_strlit("\"title\":");
    reveal_strlit("\"authors\":");
    reveal_strlit("\"blurb\":");
    reveal_strlit("\"content\":");
    reveal_strlit("\"updated_at\":");
    reveal_strlit(" ");
    reveal_strlit("\n");
    reveal_strlit("\n  ");
    reveal_strlit("\n    ");
    reveal_strlit("\n      ");
    reveal_strlit("\n        ");
    reveal_strlit("\n          ");
    assert(all_ws(sp1())) by {
        assert forall|i: int| 0 <= i < sp1().len() implies is_ws(sp1()[i]) by {
            assert(is_ws(sp1()[0]));
        }
    }
    assert(all_ws(nl0())) by {
        assert forall|i: int| 0 <= i < nl0().len() implies is_ws(nl0()[i]) by {
            assert(is_ws(nl0()[0]));
        }
    }
    assert(all_ws(nl1())) by {
        assert forall|i: int| 0 <= i < nl1().len() implies is_ws(nl1()[i]) by {
            assert(is_ws(nl1()[0]));
            assert(is_ws(nl1()[1]));
            assert(is_ws(nl1()[2]));
        }
    }
    assert(all_ws(nl2())) by {
        assert forall|i: int| 0 <= i < nl2().len() implies is_ws(nl2()[i]) by {
            assert(is_ws(nl2()[0]));
            assert(is_ws(nl2()[1]));
            assert(is_ws(nl2()[2]));
            assert(is_ws(nl2()[3]));
            assert(is_ws(nl2()[4]));
        }
    }
    assert(all_ws(nl3())) by {
        assert forall|i: int| 0 <= i < nl3().len() implies is_ws(nl3()[i]) by {
            assert(is_ws(nl3()[0]));
            assert(is_ws(nl3()[1]));
            assert(is_ws(nl3()[2]));
            assert(is_ws(nl3()[3]));
            assert(is_ws(nl3()[4]));
            assert(is_ws(nl3()[5]));
            assert(is_ws(nl3()[6]));
        }
    }
    assert(all_ws(nl4())) by {
        assert forall|i: int| 0 <= i < nl4().len() implies is_ws(nl4()[i]) by {
            assert(is_ws(nl4()[0]));
            assert(is_ws(nl4()[1]));
            assert(is_ws(nl4()[2]));
            assert(is_ws(nl4()[3]));
            assert(is_ws(nl4()[4]));
            assert(is_ws(nl4()[5]));
            assert(is_ws(nl4()[6]));
            assert(is_ws(nl4()[7]));
            assert(is_ws(nl4()[8]));
        }
    }
    assert(all_ws(nl5())) by {
        assert forall|i: int| 0 <= i < nl5().len() implies is_ws(nl5()[i]) by {
            assert(is_ws(nl5()[0]));
            assert(is_ws(nl5()[1]));
            assert(is_ws(nl5()[2]));
            assert(is_ws(nl5()[3]));
            assert(is_ws(nl5()[4]));
            assert(is_ws(nl5()[5]));
            assert(is_ws(nl5()[6]));
            assert(is_ws(nl5()[7]));
            assert(is_ws(nl5()[8]));
            assert(is_ws(nl5()[9]));
            assert(is_ws(nl5()[10]));
        }
    }
}

/// Sequence concatenation re-associates.
proof fn lemma_assoc(a: Seq<char>, b: Seq<char>, c: Seq<char>)
    ensures
        (a + b) + c == a + (b + c),
{
    assert((a + b) + c =~= a + (b + c));
}

/// An empty prefix changes nothing.
proof fn lemma_empty_prepend(x: Seq<char>)
    ensures
        Seq::<char>::empty() + x == x,
{
    assert(Seq::<char>::empty() + x =~= x);
}

/// The rendered back half of an entry parses back to its fields.
#[verifier::rlimit(60)]
proof fn lemma_entry_back_parse(t: Seq<char>, e: EntryV, rest: Seq<char>)
    requires
        t == t_comma() + (nl5() + (k_url() + (sp1() + (jstr(e.url) + (t_comma() + (
        nl5() + (k_content() + (sp1() + (jopt(e.content) + (t_comma() + (nl5() + (
        k_updated() + (sp1() + (jopt(e.updated_at) + (nl4() + (t_rbrace()
        + rest)))))))))))))))),
    ensures
        sp_entry_back(t) == Some(((e.url, e.content, e.updated_at), rest)),
{
    lemma_format_facts();
    let d17 = rest;
    let d16 = t_rbrace() + d17;
    let d15 = nl4() + d16;
    let d14 = jopt(e.updated_at) + d15;
    let d13 = sp1() + d14;
    let d12 = k_updated() + d13;
    let d11 = nl5() + d12;
    let d10 = t_comma() + d11;
    let d9 = jopt(e.content) + d10;
    let d8 = sp1() + d9;
    let d7 = k_content() + d8;
    let d6 = nl5() + d7;
    let d5 = t_comma() + d6;
    let d4 = jstr(e.url) + d5;
    let d3 = sp1() + d4;
    let d2 = k_url() + d3;
    let d1 = nl5() + d2;
    lemma_empty_prepend(t_comma() + d1);
    assert(t == Seq::<char>::empty() + (t_comma() + d1));
    lemma_lit_parse(t, Seq::<char>::empty(), t_comma(), d1);
    lemma_lit_parse(d1, nl5(), k_url(), d3);
    lemma_string_parse(d3, sp1(), e.url, d5);
    lemma_empty_prepend(t_comma() + d6);
    lemma_lit_parse(d5, Seq::<char>::empty(), t_comma(), d6);
    lemma_lit_parse(d6, nl5(), k_content(), d8);
    lemma_opt_string_parse(d8, sp1(), e.content, d10);
    lemma_empty_prepend(t_comma() + d11);
    lemma_lit_parse(d10, Seq::<char>::empty(), t_comma(), d11);
    lemma_lit_parse(d11, nl5(), k_updated(), d13);
    lemma_opt_string_parse(d13, sp1(), e.updated_at, d15);
    lemma_lit_parse(d15, nl4(), t_rbrace(), d17);
}

/// A rendered entry object parses back to the entry.
#[verifier::rlimit(60)]
proof fn lemma_entry_parse(t: Seq<char>, w: Seq<char>, e: EntryV, rest: Seq<char>)
    requires
        t == w + (render_entry(e) + rest),
        all_ws(w),
    ensures
        sp_entry(t) == Some((e, rest)),
{
    lemma_format_facts();
    reveal(render_entry);
    let d32 = rest;
    let d31 = t_rbrace() + d32;
    let d30 = nl4() + d31;
    let d29 = jopt(e.updated_at) + d30;
    let d28 = sp1() + d29;
    let d27 = k_updated() + d28;
    let d26 = nl5() + d27;
    let d25 = t_comma() + d26;
    let d24 = jopt(e.content) + d25;
    let d23 = sp1() + d24;
    let d22 = k_content() + d23;
    let d21 = nl5() + d22;
    let d20 = t_comma() + d21;
    let d19 = jstr(e.url) + d20;
    let d18 = sp1() + d19;
    let d17 = k_url() + d18;
    let d16 = nl5() + d17;
    let d15 = t_comma() + d16;
    let d14 = jstr(e.blurb) + d15;
    let d13 = sp1() + d14;
    let d12 = k_blurb() + d13;
    let d11 = nl5() + d12;
    let d10 = t_comma() + d11;
    let d9 = jstr(e.authors) + d10;
    let d8 = sp1() + d9;
    let d7 = k_authors() + d8;
    let d6 = nl5() + d7;
    let d5 = t_comma() + d6;
    let d4 = jstr(e.title) + d5;
    let d3 = sp1() + d4;
    let d2 = k_title() + d3;
    let d1 = nl5() + d2;
    let l1 = t_lbrace();
    let l2 = l1 + nl5();
    let l3 = l2 + k_title();
    let l4 = l3 + sp1();
    let l5 = l4 + jstr(e.title);
    let l6 = l5 + t_comma();
    let l7 = l6 + nl5();
    let l8 = l7 + k_authors();
    let l9 = l8 + sp1();
    let l10 = l9 + jstr(e.authors);
    let l11 = l10 + t_comma();
    let l12 = l11 + nl5();
    let l13 = l12 + k_blurb();
    let l14 = l13 + sp1();
    let l15 = l14 + jstr(e.blurb);
    let l16 = l15 + t_comma();
    let l17 = l16 + nl5();
    let l18 = l17 + k_url();
    let l19 = l18 + sp1();
    let l20 = l19 + jstr(e.url);
    let l21 = l20 + t_comma();
    let l22 = l21 + nl5();
    let l23 = l22 + k_content();
    let l24 = l23 + sp1();
    let l25 = l24 + jopt(e.content);
    let l26 = l25 + t_comma();
    let l27 = l26 + nl5();
    let l28 = l27 + k_updated();
    let l29 = l28 + sp1();
    let l30 = l29 + jopt(e.updated_at);
    let l31 = l30 + nl4();
    let l32 = l31 + t_rbrace();
    assert(render_entry(e) == l32);
    lemma_assoc(l31, t_rbrace(), d32);
    lemma_assoc(l30, nl4(), d31);
    lemma_assoc(l29, jopt(e.updated_at), d30);
    lemma_assoc(l28, sp1(), d29);
    lemma_assoc(l27, k_updated(), d28);
    lemma_assoc(l26, nl5(), d27);
    lemma_assoc(l25, t_comma(), d26);
    lemma_assoc(l24, jopt(e.content), d25);
    lemma_assoc(l23, sp1(), d24);
    lemma_assoc(l22, k_content(), d23);
    lemma_assoc(l21, nl5(), d22);
    lemma_assoc(l20, t_comma(), d21);
    lemma_assoc(l19, jstr(e.url), d20);
    lemma_assoc(l18, sp1(), d19);
    lemma_assoc(l17, k_url(), d18);
    lemma_assoc(l16, nl5(), d17);
    lemma_assoc(l15, t_comma(), d16);
    lemma_assoc(l14, jstr(e.blurb), d15);
    lemma_assoc(l13, sp1(), d14);
    lemma_assoc(l12, k_blurb(), d13);
    lemma_assoc(l11, nl5(), d12);
    lemma_assoc(l10, t_comma(), d11);
    lemma_assoc(l9, jstr(e.authors), d10);
    lemma_assoc(l8, sp1(), d9);
    lemma_assoc(l7, k_authors(), d8);
    lemma_assoc(l6, nl5(), d7);
    lemma_assoc(l5, t_comma(), d6);
    lemma_assoc(l4, jstr(e.title), d5);
    lemma_assoc(l3, sp1(), d4);
    lemma_assoc(l2, k_title(), d3);
    lemma_assoc(l1, nl5(), d2);
    assert(t == w + (l1 + d1));
    lemma_lit_parse(t, w, t_lbrace(), d1);
    lemma_lit_parse(d1, nl5(), k_title(), d3);
    lemma_string_parse(d3, sp1(), e.title, d5);
    lemma_empty_prepend(t_comma() + d6);
    lemma_lit_parse(d5, Seq::<char>::empty(), t_comma(), d6);
    lemma_lit_parse(d6, nl5(), k_authors(), d8);
    lemma_string_parse(d8, sp1(), e.authors, d10);
    lemma_empty_prepend(t_comma() + d11);
    lemma_lit_parse(d10, Seq::<char>::empty(), t_comma(), d11);
    lemma_lit_parse(d11, nl5(), k_blurb(), d13);
    lemma_string_parse(d13, sp1(), e.blurb, d15);
    lemma_entry_back_parse(d15, e, rest);
    assert((EntryV {
        title: e.title,
        authors: e.authors,
        blurb: e.blurb,
        url: e.url,
        content: e.content,
        updated_at: e.updated_at,
    }) =~= e);
}

/// A rendered user object parses back to the user.
proof fn lemma_user_parse(t: Seq<char>, w: Seq<char>, u: UserV, rest: Seq<char>)
    requires
        t == w + (render_user(u) + rest),
        all_ws(w),
    ensures
        sp_user(t) == Some((u, rest)),
{
    lemma_format_facts();
    let d7 = rest;
    let d6 = t_rbrace() + d7;
    let d5 = sp1() + d6;
    let d4 = jstr(u.name) + d5;
    let d3 = sp1() + d4;
    let d2 = k_name() + d3;
    let d1 = sp1() + d2;
    let l1 = t_lbrace();
    let l2 = l1 + sp1();
    let l3 = l2 + k_name();
    let l4 = l3 + sp1();
    let l5 = l4 + jstr(u.name);
    let l6 = l5 + sp1();
    let l7 = l6 + t_rbrace();
    assert(render_user(u) == l7);
    lemma_assoc(l6, t_rbrace(), d7);
    lemma_assoc(l5, sp1(), d6);
    lemma_assoc(l4, jstr(u.name), d5);
    lemma_assoc(l3, sp1(), d4);
    lemma_assoc(l2, k_name(), d3);
    lemma_assoc(l1, sp1(), d2);
    assert(t == w + (l1 + d1));
    lemma_lit_parse(t, w, t_lbrace(), d1);
    lemma_lit_parse(d1, sp1(), k_name(), d3);
    lemma_string_parse(d3, sp1(), u.name, d5);
    lemma_lit_parse(d5, sp1(), t_rbrace(), d7);
    assert((UserV { name: u.name }) =~= u);
}

/// A rendered feed object parses back to the feed.
#[verifier::rlimit(60)]
proof fn lemma_feed_parse(t: Seq<char>, w: Seq<char>, f: BlogFeedV, rest: Seq<char>)
    requires
        t == w + (render_feed(f) + rest),
        all_ws(w),
    ensures
        sp_feed(t) == Some((f, rest)),
{
    lemma_format_facts();
    reveal(render_feed);
    let d17 = rest;
    let d16 = t_rbrace() + d17;
    let d15 = nl2() + d16;
    let d14 = render_entries_opt(f.entries) + d15;
    let d13 = sp1() + d14;
    let d12 = k_entries() + d13;
    let d11 = nl3() + d12;
    let d10 = t_comma() + d11;
    let d9 = jstr(f.url) + d10;
    let d8 = sp1() + d9;
    let d7 = k_url() + d8;
    let d6 = nl3() + d7;
    let d5 = t_comma() + d6;
    let d4 = jstr(f.name) + d5;
    let d3 = sp1() + d4;
    let d2 = k_name() + d3;
    let d1 = nl3() + d2;
    let l1 = t_lbrace();
    let l2 = l1 + nl3();
    let l3 = l2 + k_name();
    let l4 = l3 + sp1();
    let l5 = l4 + jstr(f.name);
    let l6 = l5 + t_comma();
    let l7 = l6 + nl3();
    let l8 = l7 + k_url();
    let l9 = l8 + sp1();
    let l10 = l9 + jstr(f.url);
    let l11 = l10 + t_comma();
    let l12 = l11 + nl3();
    let l13 = l12 + k_entries();
    let l14 = l13 + sp1();
    let l15 = l14 + render_entries_opt(f.entries);
    let l16 = l15 + nl2();
    let l17 = l16 + t_rbrace();
    assert(render_feed(f) == l17);
    lemma_assoc(l16, t_rbrace(), d17);
    lemma_assoc(l15, nl2(), d16);
    lemma_assoc(l14, render_entries_opt(f.entries), d15);
    lemma_assoc(l13, sp1(), d14);
    lemma_assoc(l12, k_entries(), d13);
    lemma_assoc(l11, nl3(), d12);
    lemma_assoc(l10, t_comma(), d11);
    lemma_assoc(l9, jstr(f.url), d10);
    lemma_assoc(l8, sp1(), d9);
    lemma_assoc(l7, k_url(), d8);
    lemma_assoc(l6, nl3(), d7);
    lemma_assoc(l5, t_comma(), d6);
    lemma_assoc(l4, jstr(f.name), d5);
    lemma_assoc(l3, sp1(), d4);
    lemma_assoc(l2, k_name(), d3);
    lemma_assoc(l1, nl3(), d2);
    assert(t == w + (l1 + d1));
    lemma_lit_parse(t, w, t_lbrace(), d1);
    lemma_lit_parse(d1, nl3(), k_name(), d3);
    lemma_string_parse(d3, sp1(), f.name, d5);
    lemma_empty_prepend(t_comma() + d6);
    lemma_lit_parse(d5, Seq::<char>::empty(), t_comma(), d6);
    lemma_lit_parse(d6, nl3(), k_url(), d8);
    lemma_string_parse(d8, sp1(), f.url, d10);
    lemma_empty_prepend(t_comma() + d11);
    lemma_lit_parse(d10, Seq::<char>::empty(), t_comma(), d11);
    lemma_lit_parse(d11, nl3(), k_entries(), d13);
    lemma_entries_opt_parse(d13, sp1(), f.entries, d15);
    lemma_lit_parse(d15, nl2(), t_rbrace(), d17);
    assert((BlogFeedV { name: f.name, url: f.url, entries: f.entries }) =~= f);
}

/// A rendered session object parses back to the session.
#[verifier::rlimit(60)]
proof fn lemma_session_parse(t: Seq<char>, w: Seq<char>, s: SessionV, rest: Seq<char>)
    requires
        t == w + (spec_render(s) + rest),
        all_ws(w),
    ensures
        sp_session(t) == Some((s, rest)),
{
    lemma_format_facts();
    let d17 = rest;
    let d16 = t_rbrace() + d17;
    let d15 = nl0() + d16;
    let d14 = render_feeds(s.blog_feeds) + d15;
    let d13 = sp1() + d14;
    let d12 = k_feeds() + d13;
    let d11 = nl1() + d12;
    let d10 = t_comma() + d11;
    let d9 = jstr(s.name) + d10;
    let d8 = sp1() + d9;
    let d7 = k_name() + d8;
    let d6 = nl1() + d7;
    let d5 = t_comma() + d6;
    let d4 = render_user(s.user) + d5;
    let d3 = sp1() + d4;
    let d2 = k_user() + d3;
    let d1 = nl1() + d2;
    let l1 = t_lbrace();
    let l2 = l1 + nl1();
    let l3 = l2 + k_user();
    let l4 = l3 + sp1();
    let l5 = l4 + render_user(s.user);
    let l6 = l5 + t_comma();
    let l7 = l6 + nl1();
    let l8 = l7 + k_name();
    let l9 = l8 + sp1();
    let l10 = l9 + jstr(s.name);
    let l11 = l10 + t_comma();
    let l12 = l11 + nl1();
    let l13 = l12 + k_feeds();
    let l14 = l13 + sp1();
    let l15 = l14 + render_feeds(s.blog_feeds);
    let l16 = l15 + nl0();
    let l17 = l16 + t_rbrace();
    assert(spec_render(s) == l17);
    lemma_assoc(l16, t_rbrace(), d17);
    lemma_assoc(l15, nl0(), d16);
    lemma_assoc(l14, render_feeds(s.blog_feeds), d15);
    lemma_assoc(l13, sp1(), d14);
    lemma_assoc(l12, k_feeds(), d13);
    lemma_assoc(l11, nl1(), d12);
    lemma_assoc(l10, t_comma(), d11);
    lemma_assoc(l9, jstr(s.name), d10);
    lemma_assoc(l8, sp1(), d9);
    lemma_assoc(l7, k_name(), d8);
    lemma_assoc(l6, nl1(), d7);
    lemma_assoc(l5, t_comma(), d6);
    lemma_assoc(l4, render_user(s.user), d5);
    lemma_assoc(l3, sp1(), d4);
    lemma_assoc(l2, k_user(), d3);
    lemma_assoc(l1, nl1(), d2);
    assert(t == w + (l1 + d1));
    lemma_lit_parse(t, w, t_lbrace(), d1);
    lemma_lit_parse(d1, nl1(), k_user(), d3);
    lemma_user_parse(d3, sp1(), s.user, d5);
    lemma_empty_prepend(t_comma() + d6);
    lemma_lit_parse(d5, Seq::<char>::empty(), t_comma(), d6);
    lemma_lit_parse(d6, nl1(), k_name(), d8);
    lemma_string_parse(d8, sp1(), s.name, d10);
    lemma_empty_prepend(t_comma() + d11);
    lemma_lit_parse(d10, Seq::<char>::empty(), t_comma(), d11);
    lemma_lit_parse(d11, nl1(), k_feeds(), d13);
    lemma_feeds_parse(d13, sp1(), s.blog_feeds, d15);
    lemma_lit_parse(d15, nl0(), t_rbrace(), d17);
    assert((SessionV { user: s.user, name: s.name, blog_feeds: s.blog_feeds }) =~= s);
}

/// What a whole document decodes to: one session object followed by nothing
/// but whitespace, or no session at all.
pub open spec fn spec_load(t: Seq<char>) -> Option<SessionV> {
    match sp_session(t) {
        Some((s, rest)) => if sp_ws(rest).len() == 0 {
            Some(s)
        } else {
            None
        },
        None => None,
    }
}

// ---------------------------------------------------------------------------
// The executable renderer.
// ---------------------------------------------------------------------------

/// One more character extends the escaped body by its escape.
proof fn lemma_jesc_push(s: Seq<char>, c: char)
    ensures
        jesc(s.push(c)) == jesc(s) + jesc_char(c),
    decreases s.len(),
{
    let p = s.push(c);
    if s.len() == 0 {
        assert(p.drop_first() =~= Seq::<char>::empty());
        assert(p[0] == c);
        assert(jesc(p.drop_first()) =~= Seq::<char>::empty());
        assert(jesc(p) =~= jesc(s) + jesc_char(c));
    } else {
        lemma_jesc_push(s.drop_first(), c);
        assert(p.drop_first() =~= s.drop_first().push(c));
        assert(p[0] == s[0]);
        assert(jesc(p) =~= jesc(s) + jesc_char(c));
    }
}

/// One more entry extends the rendered items by a separator and the entry.
#[verifier::rlimit(100)]
#[verifier::spinoff_prover]
proof fn lemma_render_entries_items_push(es: Seq<EntryV>, e: EntryV)
    ensures
        render_entries_items(es.push(e)) == if es.len() == 0 {
            render_entry(e)
        } else {
            render_entries_items(es) + t_comma() + nl4() + render_entry(e)
        },
    decreases es.len(),
{
    let p = es.push(e);
    if es.len() == 0 {
        assert(p[0] == e);
    } else if es.len() == 1 {
        assert(p.drop_first() =~= seq![e]);
        assert(p[0] == es[0]);
        assert(render_entries_items(p.drop_first()) == render_entry(e));
    } else {
        lemma_render_entries_items_push(es.drop_first(), e);
        assert(p.drop_first() =~= es.drop_first().push(e));
        assert(p[0] == es[0]);
        assert(render_entries_items(p) =~= render_entries_items(es) + t_comma() + nl4()
            + render_entry(e));
    }
}

/// One more feed extends the rendered items by a separator and the feed.
#[verifier::rlimit(100)]
#[verifier::spinoff_prover]
proof fn lemma_render_feeds_items_push(fs: Seq<BlogFeedV>, f: BlogFeedV)
    ensures
        render_feeds_items(fs.push(f)) == if fs.len() == 0 {
            render_feed(f)
        } else {
            render_feeds_items(fs) + t_comma() + nl2() + render_feed(f)
        },
    decreases fs.len(),
{
    let p = fs.push(f);
    if fs.len() == 0 {
        assert(p[0] == f);
    } else if fs.len() == 1 {
        assert(p.drop_first() =~= seq![f]);
        assert(p[0] == fs[0]);
        assert(render_feeds_items(p.drop_first()) == render_feed(f));
    } else {
        lemma_render_feeds_items_push(fs.drop_first(), f);
        assert(p.drop_first() =~= fs.drop_first().push(f));
        assert(p[0] == fs[0]);
        assert(render_feeds_items(p) =~= render_feeds_items(fs) + t_comma() + nl2()
            + render_feed(f));
    }
}

/// The hexadecimal digit for a value below sixteen.
fn hexdig_exec(n: u32) -> (c: char)
    requires
        n < 16,
    ensures
        c == hexdig(n as int),
{
    if n == 0 {
        '0'
    } else if n == 1 {
        '1'
    } else if n == 2 {
        '2'
    } else if n == 3 {
        '3'
    } else if n == 4 {
        '4'
    } else if n == 5 {
        '5'
    } else if n == 6 {
        '6'
    } else if n == 7 {
        '7'
    } else if n == 8 {
        '8'
    } else if n == 9 {
        '9'
    } else if n == 10 {
        'a'
    } else if n == 11 {
        'b'
    } else if n == 12 {
        'c'
    } else if n == 13 {
        'd'
    } else if n == 14 {
        'e'
    } else {
        'f'
    }
}

/// Writes the escaped body of a string.
fn emit_escaped(out: &mut Vec<char>, s: &str)
    ensures
        final(out)@ == old(out)@ + jesc(s@),
{
    let ghost o = out@;
    let n = s.unicode_len();
    proof {
        assert(jesc(s@.take(0)) =~= Seq::<char>::empty());
        assert(o + jesc(s@.take(0)) =~= o);
    }
    let mut i: usize = 0;
    while i < n
        invariant
            i <= n,
            n == s@.len(),
            out@ == o + jesc(s@.take(i as int)),
        decreases n - i,
    {
        let c = s.get_char(i);
        if c == '"' {
            out.push('\\');
            out.push('"');
            proof {
                assert(jesc_char(c) =~= seq!['\\', '"']);
                assert(out@ =~= (o + jesc(s@.take(i as int))) + jesc_char(c));
            }
        } else if c == '\\' {
            out.push('\\');
            out.push('\\');
            proof {
                assert(jesc_char(c) =~= seq!['\\', '\\']);
                assert(out@ =~= (o + jesc(s@.take(i as int))) + jesc_char(c));
            }
        } else if (c as u32) < 32 {
            let cu = c as u32;
            out.push('\\');
            out.push('u');
            out.push('0');
            out.push('0');
            out.push(hexdig_exec(cu / 16));
            out.push(hexdig_exec(cu % 16));
            proof {
                assert(cu / 16 == (cu as int) / 16);
                assert(cu % 16 == (cu as int) % 16);
                assert(jesc_char(c) =~= seq![
                    '\\',
                    'u',
                    '0',
                    '0',
                    hexdig((cu as int) / 16),
                    hexdig((cu as int) % 16),
                ]);
                assert(out@ =~= (o + jesc(s@.take(i as int))) + jesc_char(c));
            }
        } else {
            out.push(c);
            proof {
                assert(jesc_char(c) =~= seq![c]);
                assert(out@ =~= (o + jesc(s@.take(i as int))) + jesc_char(c));
            }
        }
        proof {
            assert(s@.take(i + 1 as int) =~= s@.take(i as int).push(s@[i as int]));
            lemma_jesc_push(s@.take(i as int), s@[i as int]);
            lemma_assoc(o, jesc(s@.take(i as int)), jesc_char(s@[i as int]));
        }
        i = i + 1;
    }
    proof {
        assert(s@.take(n as int) =~= s@);
    }
}

/// Writes one rendered string literal.
fn emit_string(out: &mut Vec<char>, s: &str)
    ensures
        final(out)@ == old(out)@ + jstr(s@),
{
    let ghost o = out@;
    out.push('"');
    emit_escaped(out, s);
    out.push('"');
    proof {
        assert(o.push('"') =~= o + seq!['"']);
        lemma_assoc(o, seq!['"'], jesc(s@));
        assert(out@ =~= o + (seq!['"'] + jesc(s@)) + seq!['"']);
        lemma_assoc(o, seq!['"'] + jesc(s@), seq!['"']);
        assert((seq!['"'] + jesc(s@)) + seq!['"'] =~= jstr(s@));
    }
}

/// Writes one rendered optional string.
fn emit_opt_string(out: &mut Vec<char>, v: &Option<String>)
    ensures
        final(out)@ == old(out)@ + jopt(v.deep_view()),
{
    match v {
        Some(s) => {
            emit_string(out, s.as_str());
        },
        None => {
            append_chars_of(out, "null");
        },
    }
}

/// Writes one rendered entry list.
#[verifier::loop_isolation(false)]
fn emit_entries(out: &mut Vec<char>, es: &Vec<Entry>)
    ensures
        final(out)@ == old(out)@ + render_entries(es.deep_view()),
{
    let ghost o = out@;
    if es.len() == 0 {
        append_chars_of(out, "[");
        append_chars_of(out, "]");
        proof {
            lemma_assoc(o, t_lbrack(), t_rbrack());
            assert(es.deep_view().len() == 0);
        }
        return ;
    }
    append_chars_of(out, "[");
    append_chars_of(out, "\n        ");
    let ghost o2 = out@;
    let mut i: usize = 0;
    while i < es.len()
        invariant
            1 <= es@.len(),
            i <= es@.len(),
            i == 0 ==> out@ == o2,
            i >= 1 ==> out@ == o2 + render_entries_items(es.deep_view().take(i as int)),
        decreases es@.len() - i,
    {
        if i > 0 {
            append_chars_of(out, ",");
            append_chars_of(out, "\n        ");
        }
        let ghost before = out@;
        emit_entry(out, &es[i]);
        proof {
            let dv = es.deep_view();
            assert(dv[i as int] == es@[i as int]@);
            assert(dv.take(i + 1 as int) =~= dv.take(i as int).push(dv[i as int]));
            lemma_render_entries_items_push(dv.take(i as int), dv[i as int]);
            if i == 0 {
                assert(out@ =~= o2 + render_entries_items(dv.take(1)));
            } else {
                assert(before =~= (o2 + render_entries_items(dv.take(i as int)) + t_comma())
                    + nl4());
                assert(out@ =~= o2 + (render_entries_items(dv.take(i as int)) + t_comma() + nl4()
                    + render_entry(dv[i as int])));
                assert(out@ =~= o2 + render_entries_items(dv.take(i + 1 as int)));
            }
        }
        i = i + 1;
    }
    append_chars_of(out, "\n      ");
    append_chars_of(out, "]");
    proof {
        let dv = es.deep_view();
        assert(dv.take(es@.len() as int) =~= dv);
        assert(out@ =~= o + (t_lbrack() + nl4() + render_entries_items(dv) + nl3() + t_rbrack()));
        assert(out@ =~= o + render_entries(dv));
    }
}

/// Writes one rendered entry list or the null token.
fn emit_entries_opt(out: &mut Vec<char>, es: &Option<Vec<Entry>>)
    ensures
        final(out)@ == old(out)@ + render_entries_opt(
            match es {
                Some(v) => Some(v.deep_view()),
                None => None,
            },
        ),
{
    match es {
        Some(v) => {
            emit_entries(out, v);
        },
        None => {
            append_chars_of(out, "null");
        },
    }
}

/// Writes one rendered feed list.
#[verifier::loop_isolation(false)]
fn emit_feeds(out: &mut Vec<char>, fs: &Vec<BlogFeed>)
    ensures
        final(out)@ == old(out)@ + render_feeds(fs.deep_view()),
{
    let ghost o = out@;
    if fs.len() == 0 {
        append_chars_of(out, "[");
        append_chars_of(out, "]");
        proof {
            lemma_assoc(o, t_lbrack(), t_rbrack());
            assert(fs.deep_view().len() == 0);
        }
        return ;
    }
    append_chars_of(out, "[");
    append_chars_of(out, "\n    ");
    let ghost o2 = out@;
    let mut i: usize = 0;
    while i < fs.len()
        invariant
            1 <= fs@.len(),
            i <= fs@.len(),
            i == 0 ==> out@ == o2,
            i >= 1 ==> out@ == o2 + render_feeds_items(fs.deep_view().take(i as int)),
        decreases fs@.len() - i,
    {
        if i > 0 {
            append_chars_of(out, ",");
            append_chars_of(out, "\n    ");
        }
        let ghost before = out@;
        emit_feed(out, &fs[i]);
        proof {
            let dv = fs.deep_view();
            assert(dv[i as int] == fs@[i as int]@);
            assert(dv.take(i + 1 as int) =~= dv.take(i as int).push(dv[i as int]));
            lemma_render_feeds_items_push(dv.take(i as int), dv[i as int]);
            if i == 0 {
                assert(out@ =~= o2 + render_feeds_items(dv.take(1)));
            } else {
                assert(before =~= (o2 + render_feeds_items(dv.take(i as int)) + t_comma())
                    + nl2());
                assert(out@ =~= o2 + (render_feeds_items(dv.take(i as int)) + t_comma() + nl2()
                    + render_feed(dv[i as int])));
                assert(out@ =~= o2 + render_feeds_items(dv.take(i + 1 as int)));
            }
        }
        i = i + 1;
    }
    append_chars_of(out, "\n  ");
    append_chars_of(out, "]");
    proof {
        let dv = fs.deep_view();
        assert(dv.take(fs@.len() as int) =~= dv);
        assert(out@ =~= o + (t_lbrack() + nl2() + render_feeds_items(dv) + nl1() + t_rbrack()));
        assert(out@ =~= o + render_feeds(dv));
    }
}

/// Writes one rendered entry.
#[verifier::rlimit(60)]
fn emit_entry(out: &mut Vec<char>, e: &Entry)
    ensures
        final(out)@ == old(out)@ + render_entry(e@),
{
    let ghost o = out@;
    append_chars_of(out, "{");
    append_chars_of(out, "\n          ");
    append_chars_of(out, "\"title\":");
    append_chars_of(out, " ");
    emit_string(out, e.title.as_str());
    append_chars_of(out, ",");
    append_chars_of(out, "\n          ");
    append_chars_of(out, "\"authors\":");
    append_chars_of(out, " ");
    emit_string(out, e.authors.as_str());
    append_chars_of(out, ",");
    append_chars_of(out, "\n          ");
    append_chars_of(out, "\"blurb\":");
    append_chars_of(out, " ");
    emit_string(out, e.blurb.as_str());
    append_chars_of(out, ",");
    append_chars_of(out, "\n          ");
    append_chars_of(out, "\"url\":");
    append_chars_of(out, " ");
    emit_string(out, e.url.as_str());
    append_chars_of(out, ",");
    append_chars_of(out, "\n          ");
    append_chars_of(out, "\"content\":");
    append_chars_of(out, " ");
    emit_opt_string(out, &e.content);
    append_chars_of(out, ",");
    append_chars_of(out, "\n          ");
    append_chars_of(out, "\"updated_at\":");
    append_chars_of(out, " ");
    emit_opt_string(out, &e.updated_at);
    append_chars_of(out, "\n        ");
    append_chars_of(out, "}");
    proof {
        reveal(render_entry);
        let l1 = t_lbrace();
        let l2 = l1 + nl5();
        let l3 = l2 + k_title();
        let l4 = l3 + sp1();
        let l5 = l4 + jstr(e@.title);
        let l6 = l5 + t_comma();
        let l7 = l6 + nl5();
        let l8 = l7 + k_authors();
        let l9 = l8 + sp1();
        let l10 = l9 + jstr(e@.authors);
        let l11 = l10 + t_comma();
        let l12 = l11 + nl5();
        let l13 = l12 + k_blurb();
        let l14 = l13 + sp1();
        let l15 = l14 + jstr(e@.blurb);
        let l16 = l15 + t_comma();
        let l17 = l16 + nl5();
        let l18 = l17 + k_url();
        let l19 = l18 + sp1();
        let l20 = l19 + jstr(e@.url);
        let l21 = l20 + t_comma();
        let l22 = l21 + nl5();
        let l23 = l22 + k_content();
        let l24 = l23 + sp1();
        let l25 = l24 + jopt(e@.content);
        let l26 = l25 + t_comma();
        let l27 = l26 + nl5();
        let l28 = l27 + k_updated();
        let l29 = l28 + sp1();
        let l30 = l29 + jopt(e@.updated_at);
        let l31 = l30 + nl4();
        let l32 = l31 + t_rbrace();
        assert(render_entry(e@) == l32);
        lemma_assoc(o, l1, nl5());
        lemma_assoc(o, l2, k_title());
        lemma_assoc(o, l3, sp1());
        lemma_assoc(o, l4, jstr(e@.title));
        lemma_assoc(o, l5, t_comma());
        lemma_assoc(o, l6, nl5());
        lemma_assoc(o, l7, k_authors());
        lemma_assoc(o, l8, sp1());
        lemma_assoc(o, l9, jstr(e@.authors));
        lemma_assoc(o, l10, t_comma());
        lemma_assoc(o, l11, nl5());
        lemma_assoc(o, l12, k_blurb());
        lemma_assoc(o, l13, sp1());
        lemma_assoc(o, l14, jstr(e@.blurb));
        lemma_assoc(o, l15, t_comma());
        lemma_assoc(o, l16, nl5());
        lemma_assoc(o, l17, k_url());
        lemma_assoc(o, l18, sp1());
        lemma_assoc(o, l19, jstr(e@.url));
        lemma_assoc(o, l20, t_comma());
        lemma_assoc(o, l21, nl5());
        lemma_assoc(o, l22, k_content());
        lemma_assoc(o, l23, sp1());
        lemma_assoc(o, l24, jopt(e@.content));
        lemma_assoc(o, l25, t_comma());
        lemma_assoc(o, l26, nl5());
        lemma_assoc(o, l27, k_updated());
        lemma_assoc(o, l28, sp1());
        lemma_assoc(o, l29, jopt(e@.updated_at));
        lemma_assoc(o, l30, nl4());
        lemma_assoc(o, l31, t_rbrace());
        assert(out@ == o + l32);
    }
}

/// Writes one rendered feed.
#[verifier::rlimit(60)]
fn emit_feed(out: &mut Vec<char>, f: &BlogFeed)
    ensures
        final(out)@ == old(out)@ + render_feed(f@),
{
    let ghost o = out@;
    append_chars_of(out, "{");
    append_chars_of(out, "\n      ");
    append_chars_of(out, "\"name\":");
    append_chars_of(out, " ");
    emit_string(out, f.name.as_str());
    append_chars_of(out, ",");
    append_chars_of(out, "\n      ");
    append_chars_of(out, "\"url\":");
    append_chars_of(out, " ");
    emit_string(out, f.url.as_str());
    append_chars_of(out, ",");
    append_chars_of(out, "\n      ");
    append_chars_of(out, "\"entries\":");
    append_chars_of(out, " ");
    emit_entries_opt(out, &f.entries);
    append_chars_of(out, "\n    ");
    append_chars_of(out, "}");
    proof {
        reveal(render_feed);
        let l1 = t_lbrace();
        let l2 = l1 + nl3();
        let l3 = l2 + k_name();
        let l4 = l3 + sp1();
        let l5 = l4 + jstr(f@.name);
        let l6 = l5 + t_comma();
        let l7 = l6 + nl3();
        let l8 = l7 + k_url();
        let l9 = l8 + sp1();
        let l10 = l9 + jstr(f@.url);
        let l11 = l10 + t_comma();
        let l12 = l11 + nl3();
        let l13 = l12 + k_entries();
        let l14 = l13 + sp1();
        let l15 = l14 + render_entries_opt(f@.entries);
        let l16 = l15 + nl2();
        let l17 = l16 + t_rbrace();
        assert(render_feed(f@) == l17);
        lemma_assoc(o, l1, nl3());
        lemma_assoc(o, l2, k_name());
        lemma_assoc(o, l3, sp1());
        lemma_assoc(o, l4, jstr(f@.name));
        lemma_assoc(o, l5, t_comma());
        lemma_assoc(o, l6, nl3());
        lemma_assoc(o, l7, k_url());
        lemma_assoc(o, l8, sp1());
        lemma_assoc(o, l9, jstr(f@.url));
        lemma_assoc(o, l10, t_comma());
        lemma_assoc(o, l11, nl3());
        lemma_assoc(o, l12, k_entries());
        lemma_assoc(o, l13, sp1());
        lemma_assoc(o, l14, render_entries_opt(f@.entries));
        lemma_assoc(o, l15, nl2());
        lemma_assoc(o, l16, t_rbrace());
        assert(out@ == o + l17);
    }
}

/// Writes the rendered user object.
fn emit_user(out: &mut Vec<char>, u: &User)
    ensures
        final(out)@ == old(out)@ + render_user(u@),
{
    let ghost o = out@;
    append_chars_of(out, "{");
    append_chars_of(out, " ");
    append_chars_of(out, "\"name\":");
    append_chars_of(out, " ");
    emit_string(out, u.name.as_str());
    append_chars_of(out, " ");
    append_chars_of(out, "}");
    proof {
        let l1 = t_lbrace();
        let l2 = l1 + sp1();
        let l3 = l2 + k_name();
        let l4 = l3 + sp1();
        let l5 = l4 + jstr(u@.name);
        let l6 = l5 + sp1();
        let l7 = l6 + t_rbrace();
        assert(render_user(u@) == l7);
        lemma_assoc(o, l1, sp1());
        lemma_assoc(o, l2, k_name());
        lemma_assoc(o, l3, sp1());
        lemma_assoc(o, l4, jstr(u@.name));
        lemma_assoc(o, l5, sp1());
        lemma_assoc(o, l6, t_rbrace());
        assert(out@ == o + l7);
    }
}

/// Writes the whole rendered session document.
#[verifier::rlimit(60)]
fn emit_session(out: &mut Vec<char>, s: &Session)
    ensures
        final(out)@ == old(out)@ + spec_render(s@),
{
    let ghost o = out@;
    append_chars_of(out, "{");
    append_chars_of(out, "\n  ");
    append_chars_of(out, "\"user\":");
    append_chars_of(out, " ");
    emit_user(out, &s.user);
    append_chars_of(out, ",");
    append_chars_of(out, "\n  ");
    append_chars_of(out, "\"name\":");
    append_chars_of(out, " ");
    emit_string(out, s.name.as_str());
    append_chars_of(out, ",");
    append_chars_of(out, "\n  ");
    append_chars_of(out, "\"blog_feeds\":");
    append_chars_of(out, " ");
    emit_feeds(out, &s.blog_feeds);
    append_chars_of(out, "\n");
    append_chars_of(out, "}");
    proof {
        let l1 = t_lbrace();
        let l2 = l1 + nl1();
        let l3 = l2 + k_user();
        let l4 = l3 + sp1();
        let l5 = l4 + render_user(s@.user);
        let l6 = l5 + t_comma();
        let l7 = l6 + nl1();
        let l8 = l7 + k_name();
        let l9 = l8 + sp1();
        let l10 = l9 + jstr(s@.name);
        let l11 = l10 + t_comma();
        let l12 = l11 + nl1();
        let l13 = l12 + k_feeds();
        let l14 = l13 + sp1();
        let l15 = l14 + render_feeds(s@.blog_feeds);
        let l16 = l15 + nl0();
        let l17 = l16 + t_rbrace();
        assert(spec_render(s@) == l17);
        lemma_assoc(o, l1, nl1());
        lemma_assoc(o, l2, k_user());
        lemma_assoc(o, l3, sp1());
        lemma_assoc(o, l4, render_user(s@.user));
        lemma_assoc(o, l5, t_comma());
        lemma_assoc(o, l6, nl1());
        lemma_assoc(o, l7, k_name());
        lemma_assoc(o, l8, sp1());
        lemma_assoc(o, l9, jstr(s@.name));
        lemma_assoc(o, l10, t_comma());
        lemma_assoc(o, l11, nl1());
        lemma_assoc(o, l12, k_feeds());
        lemma_assoc(o, l13, sp1());
        lemma_assoc(o, l14, render_feeds(s@.blog_feeds));
        lemma_assoc(o, l15, nl0());
        lemma_assoc(o, l16, t_rbrace());
        assert(out@ == o + l17);
    }
}


// ---------------------------------------------------------------------------
// The executable parser: position-based scanners over the document's
// characters, each equal to its specification counterpart on the remaining
// text.
// ---------------------------------------------------------------------------

/// Skipping whitespace never lengthens the text.
proof fn lemma_ws_len(t: Seq<char>)
    ensures
        sp_ws(t).len() <= t.len(),
    decreases t.len(),
{
    if t.len() > 0 && is_ws(t[0]) {
        lemma_ws_len(t.drop_first());
    }
}

/// Whether the parser skips this character between tokens.
fn is_ws_exec(c: char) -> (r: bool)
    ensures
        r == is_ws(c),
{
    c == ' ' || c == '\n' || c == '\t' || c == '\r'
}

/// Scans past leading whitespace.
fn p_ws(t: &Vec<char>, i: usize) -> (j: usize)
    requires
        i <= t@.len(),
    ensures
        i <= j <= t@.len(),
        sp_ws(t@.skip(i as int)) == t@.skip(j as int),
{
    let mut j = i;
    while j < t.len() && is_ws_exec(t[j])
        invariant
            i <= j <= t@.len(),
            sp_ws(t@.skip(i as int)) == sp_ws(t@.skip(j as int)),
        decreases t@.len() - j,
    {
        proof {
            let u = t@.skip(j as int);
            assert(u[0] == t@[j as int]);
            assert(u.drop_first() =~= t@.skip(j + 1 as int));
        }
        j = j + 1;
    }
    proof {
        let u = t@.skip(j as int);
        if j < t@.len() {
            assert(u[0] == t@[j as int]);
            assert(sp_ws(u) == u);
        } else {
            assert(u.len() == 0);
            assert(sp_ws(u) == u);
        }
    }
    j
}

/// Scans one exact token (after whitespace).
#[verifier::loop_isolation(false)]
fn p_lit(t: &Vec<char>, i: usize, lit: &str) -> (r: Option<usize>)
    requires
        i <= t@.len(),
    ensures
        match r {
            Some(j) => i <= j <= t@.len() && sp_lit(t@.skip(i as int), lit@) == Some(
                t@.skip(j as int),
            ),
            None => sp_lit(t@.skip(i as int), lit@) is None,
        },
{
    let j = p_ws(t, i);
    let ghost u = t@.skip(j as int);
    let n = lit.unicode_len();
    if t.len() - j < n {
        proof {
            assert(u.len() < lit@.len());
        }
        return None;
    }
    let mut k: usize = 0;
    while k < n
        invariant
            k <= n,
            n == lit@.len(),
            j + n <= t@.len(),
            u == t@.skip(j as int),
            forall|m: int| 0 <= m < k ==> u[m] == lit@[m],
        decreases n - k,
    {
        let c = t[j + k];
        let d = lit.get_char(k);
        proof {
            assert(u[k as int] == t@[j + k as int]);
        }
        if c != d {
            proof {
                assert(sp_lit(t@.skip(i as int), lit@) is None) by {
                    if lit@.len() <= u.len() && u.take(lit@.len() as int) == lit@ {
                        assert(u.take(lit@.len() as int)[k as int] == u[k as int]);
                    }
                }
            }
            return None;
        }
        k = k + 1;
    }
    proof {
        assert(u.take(lit@.len() as int) =~= lit@);
        assert(u.skip(lit@.len() as int) =~= t@.skip(j + n as int));
    }
    Some(j + n)
}

/// The value of a hexadecimal digit, if it is one.
fn hexval_exec(c: char) -> (r: Option<u8>)
    ensures
        match r {
            Some(v) => hexval(c) == Some(v as int) && v < 16,
            None => hexval(c) is None,
        },
{
    if c == '0' {
        Some(0)
    } else if c == '1' {
        Some(1)
    } else if c == '2' {
        Some(2)
    } else if c == '3' {
        Some(3)
    } else if c == '4' {
        Some(4)
    } else if c == '5' {
        Some(5)
    } else if c == '6' {
        Some(6)
    } else if c == '7' {
        Some(7)
    } else if c == '8' {
        Some(8)
    } else if c == '9' {
        Some(9)
    } else if c == 'a' {
        Some(10)
    } else if c == 'b' {
        Some(11)
    } else if c == 'c' {
        Some(12)
    } else if c == 'd' {
        Some(13)
    } else if c == 'e' {
        Some(14)
    } else if c == 'f' {
        Some(15)
    } else {
        None
    }
}

/// Relies on std's `char::from_u32`: every code point below the surrogate
/// range is a scalar value, so the conversion succeeds there.
#[verifier::external_body]
fn char_from_code(u: u32) -> (c: char)
    requires
        u < 0xD800,
    ensures
        c == (u as char),
{
    char::from_u32(u).unwrap()
}

/// A scanned prefix, prepended to whatever the rest scans to.
pub open spec fn opt_prepend(a: Seq<char>, o: Option<(Seq<char>, Seq<char>)>) -> Option<
    (Seq<char>, Seq<char>),
> {
    match o {
        Some((s, r)) => Some((a + s, r)),
        None => None,
    }
}

/// Scans one quoted string (after whitespace), undoing the escapes.
#[verifier::loop_isolation(false)]
fn p_string(t: &Vec<char>, i: usize) -> (r: Option<(String, usize)>)
    requires
        i <= t@.len(),
    ensures
        match r {
            Some((s, j)) => i <= j <= t@.len() && sp_string(t@.skip(i as int)) == Some(
                (s@, t@.skip(j as int)),
            ),
            None => sp_string(t@.skip(i as int)) is None,
        },
{
    let j = p_ws(t, i);
    let ghost u = t@.skip(j as int);
    if j >= t.len() {
        proof {
            assert(u.len() == 0);
        }
        return None;
    }
    if t[j] != '"' {
        proof {
            assert(u[0] == t@[j as int]);
        }
        return None;
    }
    proof {
        assert(u[0] == t@[j as int]);
        assert(u.drop_first() =~= t@.skip(j + 1 as int));
    }
    let ghost body = t@.skip(j + 1 as int);
    let mut acc = String::new();
    let mut k: usize = j + 1;
    loop
        invariant
            j + 1 <= k <= t@.len(),
            body == t@.skip(j + 1 as int),
            sp_chars(body) == opt_prepend(acc@, sp_chars(t@.skip(k as int))),
        decreases t@.len() - k,
    {
        proof {
            let w = t@.skip(k as int);
            assert(w.len() == t@.len() - k);
            if w.len() > 0 {
                assert(w[0] == t@[k as int]);
            }
        }
        if k >= t.len() {
            return None;
        }
        let c = t[k];
        if c == '"' {
            proof {
                let w = t@.skip(k as int);
                assert(w.drop_first() =~= t@.skip(k + 1 as int));
                assert(sp_chars(w) == Some((Seq::<char>::empty(), t@.skip(k + 1 as int))));
                assert(acc@ + Seq::<char>::empty() =~= acc@);
            }
            return Some((acc, k + 1));
        } else if c == '\\' {
            if t.len() - k < 2 {
                proof {
                    assert(t@.skip(k as int).len() < 2);
                }
                return None;
            }
            let c2 = t[k + 1];
            proof {
                assert(t@.skip(k as int)[1] == t@[k + 1 as int]);
            }
            if c2 == '"' || c2 == '\\' {
                proof {
                    let w = t@.skip(k as int);
                    assert(w.skip(2) =~= t@.skip(k + 2 as int));
                    assert(sp_chars(w) == (match sp_chars(t@.skip(k + 2 as int)) {
                        Some((s, r)) => Some((seq![c2] + s, r)),
                        None => None,
                    }));
                    assert(forall|s: Seq<char>| acc@ + (seq![c2] + s) =~= acc@.push(c2) + s);
                }
                push_char(&mut acc, c2);
                k = k + 2;
            } else if c2 == 'u' {
                if t.len() - k < 6 {
                    proof {
                        assert(t@.skip(k as int).len() < 6);
                    }
                    return None;
                }
                proof {
                    let w = t@.skip(k as int);
                    assert(w[2] == t@[k + 2 as int]);
                    assert(w[3] == t@[k + 3 as int]);
                    assert(w[4] == t@[k + 4 as int]);
                    assert(w[5] == t@[k + 5 as int]);
                }
                if !(t[k + 2] == '0' && t[k + 3] == '0') {
                    return None;
                }
                let h1 = hexval_exec(t[k + 4]);
                let h2 = hexval_exec(t[k + 5]);
                match (h1, h2) {
                    (Some(v1), Some(v2)) => {
                        let code: u32 = (v1 as u32) * 16 + (v2 as u32);
                        let ch = char_from_code(code);
                        proof {
                            let w = t@.skip(k as int);
                            assert(w.skip(6) =~= t@.skip(k + 6 as int));
                            assert(code as int == hexval(w[4])->0 * 16 + hexval(w[5])->0);
                            assert(ch == ((hexval(w[4])->0 * 16 + hexval(w[5])->0) as u32) as char);
                            assert(sp_chars(w) == (match sp_chars(t@.skip(k + 6 as int)) {
                                Some((s, r)) => Some((seq![ch] + s, r)),
                                None => None,
                            }));
                            assert(forall|s: Seq<char>| acc@ + (seq![ch] + s) =~= acc@.push(ch) + s);
                        }
                        push_char(&mut acc, ch);
                        k = k + 6;
                    },
                    _ => {
                        return None;
                    },
                }
            } else {
                return None;
            }
        } else {
            proof {
                let w = t@.skip(k as int);
                assert(w.drop_first() =~= t@.skip(k + 1 as int));
                assert(sp_chars(w) == (match sp_chars(t@.skip(k + 1 as int)) {
                    Some((s, r)) => Some((seq![c] + s, r)),
                    None => None,
                }));
                assert(forall|s: Seq<char>| acc@ + (seq![c] + s) =~= acc@.push(c) + s);
            }
            push_char(&mut acc, c);
            k = k + 1;
        }
    }
}

/// Scans one string or the null token.
fn p_opt_string(t: &Vec<char>, i: usize) -> (r: Option<(Option<String>, usize)>)
    requires
        i <= t@.len(),
    ensures
        match r {
            Some((v, j)) => i <= j <= t@.len() && sp_opt_string(t@.skip(i as int)) == Some(
                (v.deep_view(), t@.skip(j as int)),
            ),
            None => sp_opt_string(t@.skip(i as int)) is None,
        },
{
    match p_lit(t, i, "null") {
        Some(j) => Some((None, j)),
        None => match p_string(t, i) {
            Some((s, j)) => Some((Some(s), j)),
            None => None,
        },
    }
}


/// Already-scanned entries, prepended to whatever the rest scans to.
pub open spec fn opt_prepend_entries(a: Seq<EntryV>, o: Option<(Seq<EntryV>, Seq<char>)>) -> Option<
    (Seq<EntryV>, Seq<char>),
> {
    match o {
        Some((es, r)) => Some((a + es, r)),
        None => None,
    }
}

/// Already-scanned feeds, prepended to whatever the rest scans to.
pub open spec fn opt_prepend_feeds(
    a: Seq<BlogFeedV>,
    o: Option<(Seq<BlogFeedV>, Seq<char>)>,
) -> Option<(Seq<BlogFeedV>, Seq<char>)> {
    match o {
        Some((fs, r)) => Some((a + fs, r)),
        None => None,
    }
}

/// Scans one entry list.
#[verifier::loop_isolation(false)]
#[verifier::rlimit(60)]
fn p_entries(t: &Vec<char>, i: usize) -> (r: Option<(Vec<Entry>, usize)>)
    requires
        i <= t@.len(),
    ensures
        match r {
            Some((es, j)) => i <= j <= t@.len() && sp_entries(t@.skip(i as int)) == Some(
                (es.deep_view(), t@.skip(j as int)),
            ),
            None => sp_entries(t@.skip(i as int)) is None,
        },
{
    let j1 = match p_lit(t, i, "[") {
        Some(j) => j,
        None => {
            return None;
        },
    };
    match p_lit(t, j1, "]") {
        Some(j2) => {
            let es: Vec<Entry> = Vec::new();
            proof {
                assert(es.deep_view() =~= Seq::<EntryV>::empty());
            }
            return Some((es, j2));
        },
        None => {},
    }
    let mut acc: Vec<Entry> = Vec::new();
    let mut cur = j1;
    proof {
        assert(acc.deep_view() =~= Seq::<EntryV>::empty());
        let inner0 = sp_entries_items(t@.skip(j1 as int));
        if inner0 is Some {
            let pair = inner0->0;
            assert(Seq::<EntryV>::empty() + pair.0 =~= pair.0);
        }
    }
    loop
        invariant
            j1 <= cur <= t@.len(),
            sp_entries_items(t@.skip(j1 as int)) == opt_prepend_entries(
                acc.deep_view(),
                sp_entries_items(t@.skip(cur as int)),
            ),
        decreases t@.len() - cur,
    {
        let (e, j2) = match p_entry(t, cur) {
            Some(x) => x,
            None => {
                return None;
            },
        };
        let ghost acc0 = acc.deep_view();
        match p_lit(t, j2, ",") {
            Some(j3) => {
                proof {
                    reveal_strlit(",");
                    lemma_ws_len(t@.skip(j2 as int));
                    assert(t@.skip(j3 as int).len() < t@.skip(cur as int).len());
                    let inner = sp_entries_items(t@.skip(j3 as int));
                    assert(sp_entries_items(t@.skip(cur as int)) == (match inner {
                        Some((es, r)) => Some((seq![e@] + es, r)),
                        None => None,
                    }));
                    if inner is Some {
                        let pair = inner->0;
                        assert(acc0 + (seq![e@] + pair.0) =~= acc0.push(e@) + pair.0);
                    }
                }
                acc.push(e);
                proof {
                    assert(acc.deep_view() =~= acc0.push(e@));
                }
                cur = j3;
            },
            None => {
                match p_lit(t, j2, "]") {
                    Some(j3) => {
                        proof {
                            assert(sp_entries_items(t@.skip(cur as int)) == Some(
                                (seq![e@], t@.skip(j3 as int)),
                            ));
                            assert(acc0 + seq![e@] =~= acc0.push(e@));
                        }
                        acc.push(e);
                        proof {
                            assert(acc.deep_view() =~= acc0.push(e@));
                        }
                        return Some((acc, j3));
                    },
                    None => {
                        return None;
                    },
                }
            },
        }
    }
}

/// Scans one entry list or the null token.
fn p_entries_opt(t: &Vec<char>, i: usize) -> (r: Option<(Option<Vec<Entry>>, usize)>)
    requires
        i <= t@.len(),
    ensures
        match r {
            Some((es, j)) => i <= j <= t@.len() && sp_entries_opt(t@.skip(i as int)) == Some(
                (es.deep_view(), t@.skip(j as int)),
            ),
            None => sp_entries_opt(t@.skip(i as int)) is None,
        },
{
    match p_lit(t, i, "null") {
        Some(j) => Some((None, j)),
        None => match p_entries(t, i) {
            Some((es, j)) => Some((Some(es), j)),
            None => None,
        },
    }
}

/// Scans one feed list.
#[verifier::loop_isolation(false)]
#[verifier::rlimit(60)]
fn p_feeds(t: &Vec<char>, i: usize) -> (r: Option<(Vec<BlogFeed>, usize)>)
    requires
        i <= t@.len(),
    ensures
        match r {
            Some((fs, j)) => i <= j <= t@.len() && sp_feeds(t@.skip(i as int)) == Some(
                (fs.deep_view(), t@.skip(j as int)),
            ),
            None => sp_feeds(t@.skip(i as int)) is None,
        },
{
    let j1 = match p_lit(t, i, "[") {
        Some(j) => j,
        None => {
            return None;
        },
    };
    match p_lit(t, j1, "]") {
        Some(j2) => {
            let fs: Vec<BlogFeed> = Vec::new();
            proof {
                assert(fs.deep_view() =~= Seq::<BlogFeedV>::empty());
            }
            return Some((fs, j2));
        },
        None => {},
    }
    let mut acc: Vec<BlogFeed> = Vec::new();
    let mut cur = j1;
    proof {
        assert(acc.deep_view() =~= Seq::<BlogFeedV>::empty());
        let inner0 = sp_feeds_items(t@.skip(j1 as int));
        if inner0 is Some {
            let pair = inner0->0;
            assert(Seq::<BlogFeedV>::empty() + pair.0 =~= pair.0);
        }
    }
    loop
        invariant
            j1 <= cur <= t@.len(),
            sp_feeds_items(t@.skip(j1 as int)) == opt_prepend_feeds(
                acc.deep_view(),
                sp_feeds_items(t@.skip(cur as int)),
            ),
        decreases t@.len() - cur,
    {
        let (f, j2) = match p_feed(t, cur) {
            Some(x) => x,
            None => {
                return None;
            },
        };
        let ghost acc0 = acc.deep_view();
        match p_lit(t, j2, ",") {
            Some(j3) => {
                proof {
                    reveal_strlit(",");
                    lemma_ws_len(t@.skip(j2 as int));
                    assert(t@.skip(j3 as int).len() < t@.skip(cur as int).len());
                    let inner = sp_feeds_items(t@.skip(j3 as int));
                    assert(sp_feeds_items(t@.skip(cur as int)) == (match inner {
                        Some((fs, r)) => Some((seq![f@] + fs, r)),
                        None => None,
                    }));
                    if inner is Some {
                        let pair = inner->0;
                        assert(acc0 + (seq![f@] + pair.0) =~= acc0.push(f@) + pair.0);
                    }
                }
                acc.push(f);
                proof {
                    assert(acc.deep_view() =~= acc0.push(f@));
                }
                cur = j3;
            },
            None => {
                match p_lit(t, j2, "]") {
                    Some(j3) => {
                        proof {
                            assert(sp_feeds_items(t@.skip(cur as int)) == Some(
                                (seq![f@], t@.skip(j3 as int)),
                            ));
                            assert(acc0 + seq![f@] =~= acc0.push(f@));
                        }
                        acc.push(f);
                        proof {
                            assert(acc.deep_view() =~= acc0.push(f@));
                        }
                        return Some((acc, j3));
                    },
                    None => {
                        return None;
                    },
                }
            },
        }
    }
}

/// Scans one entry object.
#[verifier::rlimit(60)]
fn p_entry(t: &Vec<char>, i: usize) -> (r: Option<(Entry, usize)>)
    requires
        i <= t@.len(),
    ensures
        match r {
            Some((v, j)) => i <= j <= t@.len() && sp_entry(t@.skip(i as int)) == Some(
                (v@, t@.skip(j as int)),
            ),
            None => sp_entry(t@.skip(i as int)) is None,
        },
{
    let j1 = match p_lit(t, i, "{") {
        Some(j) => j,
        None => {
            return None;
        },
    };
    let j2 = match p_lit(t, j1, "\"title\":") {
        Some(j) => j,
        None => {
            return None;
        },
    };
    let (title, j3) = match p_string(t, j2) {
        Some(x) => x,
        None => {
            return None;
        },
    };
    let j4 = match p_lit(t, j3, ",") {
        Some(j) => j,
        None => {
            return None;
        },
    };
    let j5 = match p_lit(t, j4, "\"authors\":") {
        Some(j) => j,
        None => {
            return None;
        },
    };
    let (authors, j6) = match p_string(t, j5) {
        Some(x) => x,
        None => {
            return None;
        },
    };
    let j7 = match p_lit(t, j6, ",") {
        Some(j) => j,
        None => {
            return None;
        },
    };
    let j8 = match p_lit(t, j7, "\"blurb\":") {
        Some(j) => j,
        None => {
            return None;
        },
    };
    let (blurb, j9) = match p_string(t, j8) {
        Some(x) => x,
        None => {
            return None;
        },
    };
    let j10 = match p_lit(t, j9, ",") {
        Some(j) => j,
        None => {
            return None;
        },
    };
    let j11 = match p_lit(t, j10, "\"url\":") {
        Some(j) => j,
        None => {
            return None;
        },
    };
    let (url, j12) = match p_string(t, j11) {
        Some(x) => x,
        None => {
            return None;
        },
    };
    let j13 = match p_lit(t, j12, ",") {
        Some(j) => j,
        None => {
            return None;
        },
    };
    let j14 = match p_lit(t, j13, "\"content\":") {
        Some(j) => j,
        None => {
            return None;
        },
    };
    let (content, j15) = match p_opt_string(t, j14) {
        Some(x) => x,
        None => {
            return None;
        },
    };
    let j16 = match p_lit(t, j15, ",") {
        Some(j) => j,
        None => {
            return None;
        },
    };
    let j17 = match p_lit(t, j16, "\"updated_at\":") {
        Some(j) => j,
        None => {
            return None;
        },
    };
    let (updated, j18) = match p_opt_string(t, j17) {
        Some(x) => x,
        None => {
            return None;
        },
    };
    let j19 = match p_lit(t, j18, "}") {
        Some(j) => j,
        None => {
            return None;
        },
    };
    let e = Entry { title, authors, blurb, url, content, updated_at: updated };
    proof {
        assert(e@ =~= (EntryV {
            title: e.title@,
            authors: e.authors@,
            blurb: e.blurb@,
            url: e.url@,
            content: e.content.deep_view(),
            updated_at: e.updated_at.deep_view(),
        }));
    }
    Some((e, j19))
}

/// Scans one user object.
fn p_user(t: &Vec<char>, i: usize) -> (r: Option<(User, usize)>)
    requires
        i <= t@.len(),
    ensures
        match r {
            Some((v, j)) => i <= j <= t@.len() && sp_user(t@.skip(i as int)) == Some(
                (v@, t@.skip(j as int)),
            ),
            None => sp_user(t@.skip(i as int)) is None,
        },
{
    let j1 = match p_lit(t, i, "{") {
        Some(j) => j,
        None => {
            return None;
        },
    };
    let j2 = match p_lit(t, j1, "\"name\":") {
        Some(j) => j,
        None => {
            return None;
        },
    };
    let (name, j3) = match p_string(t, j2) {
        Some(x) => x,
        None => {
            return None;
        },
    };
    let j4 = match p_lit(t, j3, "}") {
        Some(j) => j,
        None => {
            return None;
        },
    };
    let u = User { name };
    proof {
        assert(u@ =~= (UserV { name: u.name@ }));
    }
    Some((u, j4))
}

/// Scans one feed object.
#[verifier::rlimit(60)]
fn p_feed(t: &Vec<char>, i: usize) -> (r: Option<(BlogFeed, usize)>)
    requires
        i <= t@.len(),
    ensures
        match r {
            Some((v, j)) => i <= j <= t@.len() && sp_feed(t@.skip(i as int)) == Some(
                (v@, t@.skip(j as int)),
            ),
            None => sp_feed(t@.skip(i as int)) is None,
        },
{
    let j1 = match p_lit(t, i, "{") {
        Some(j) => j,
        None => {
            return None;
        },
    };
    let j2 = match p_lit(t, j1, "\"name\":") {
        Some(j) => j,
        None => {
            return None;
        },
    };
    let (name, j3) = match p_string(t, j2) {
        Some(x) => x,
        None => {
            return None;
        },
    };
    let j4 = match p_lit(t, j3, ",") {
        Some(j) => j,
        None => {
            return None;
        },
    };
    let j5 = match p_lit(t, j4, "\"url\":") {
        Some(j) => j,
        None => {
            return None;
        },
    };
    let (url, j6) = match p_string(t, j5) {
        Some(x) => x,
        None => {
            return None;
        },
    };
    let j7 = match p_lit(t, j6, ",") {
        Some(j) => j,
        None => {
            return None;
        },
    };
    let j8 = match p_lit(t, j7, "\"entries\":") {
        Some(j) => j,
        None => {
            return None;
        },
    };
    let (entries, j9) = match p_entries_opt(t, j8) {
        Some(x) => x,
        None => {
            return None;
        },
    };
    let j10 = match p_lit(t, j9, "}") {
        Some(j) => j,
        None => {
            return None;
        },
    };
    let f = BlogFeed { name, url, entries };
    proof {
        assert(f@ =~= (BlogFeedV {
            name: f.name@,
            url: f.url@,
            entries: f.entries.deep_view(),
        }));
    }
    Some((f, j10))
}

/// Scans one session object.
#[verifier::rlimit(60)]
fn p_session(t: &Vec<char>, i: usize) -> (r: Option<(Session, usize)>)
    requires
        i <= t@.len(),
    ensures
        match r {
            Some((v, j)) => i <= j <= t@.len() && sp_session(t@.skip(i as int)) == Some(
                (v@, t@.skip(j as int)),
            ),
            None => sp_session(t@.skip(i as int)) is None,
        },
{
    let j1 = match p_lit(t, i, "{") {
        Some(j) => j,
        None => {
            return None;
        },
    };
    let j2 = match p_lit(t, j1, "\"user\":") {
        Some(j) => j,
        None => {
            return None;
        },
    };
    let (user, j3) = match p_user(t, j2) {
        Some(x) => x,
        None => {
            return None;
        },
    };
    let j4 = match p_lit(t, j3, ",") {
        Some(j) => j,
        None => {
            return None;
        },
    };
    let j5 = match p_lit(t, j4, "\"name\":") {
        Some(j) => j,
        None => {
            return None;
        },
    };
    let (name, j6) = match p_string(t, j5) {
        Some(x) => x,
        None => {
            return None;
        },
    };
    let j7 = match p_lit(t, j6, ",") {
        Some(j) => j,
        None => {
            return None;
        },
    };
    let j8 = match p_lit(t, j7, "\"blog_feeds\":") {
        Some(j) => j,
        None => {
            return None;
        },
    };
    let (blog_feeds, j9) = match p_feeds(t, j8) {
        Some(x) => x,
        None => {
            return None;
        },
    };
    let j10 = match p_lit(t, j9, "}") {
        Some(j) => j,
        None => {
            return None;
        },
    };
    let s = Session { user, name, blog_feeds };
    proof {
        assert(s@ =~= (SessionV {
            user: s.user@,
            name: s.name@,
            blog_feeds: s.blog_feeds.deep_view(),
        }));
    }
    Some((s, j10))
}


impl Session {
    /// Decodes a session from the store's document text: the session the
    /// text renders, or nothing when the text is not a rendered session
    /// (followed by at most whitespace).
    pub fn from_json(text: &str) -> (r: Option<Session>)
        ensures
            match r {
                Some(sess) => spec_load(text@) == Some(sess@),
                None => spec_load(text@) is None,
            },
    {
        let t = str_to_chars(text);
        proof {
            assert(t@.skip(0) =~= text@);
        }
        match p_session(&t, 0) {
            None => None,
            Some((sess, j)) => {
                let j2 = p_ws(&t, j);
                if j2 == t.len() {
                    proof {
                        assert(sp_ws(t@.skip(j as int)).len() == 0);
                    }
                    Some(sess)
                } else {
                    proof {
                        assert(sp_ws(t@.skip(j as int)).len() > 0);
                    }
                    None
                }
            },
        }
    }
}

impl Session {
    /// The round trip check: rendering this session and decoding the text
    /// gives a structurally equal session. Proved, so this always holds.
    pub fn test_json_translation(&self) -> (r: bool)
        ensures
            r,
    {
        let text = self.to_json_string();
        proof {
            lemma_render_load_round_trip(self@);
        }
        let back = Session::from_json(text.as_str());
        match back {
            Some(b) => b == *self,
            None => vstd::pervasive::unreached(),
        }
    }

    /// Renders this session as the store's whole document text.
    pub fn to_json_string(&self) -> (r: String)
        ensures
            r@ == spec_render(self@),
    {
        let mut out: Vec<char> = Vec::new();
        emit_session(&mut out, self);
        proof {
            assert(Seq::<char>::empty() + spec_render(self@) =~= spec_render(self@));
        }
        chars_to_string(&out)
    }
}

} // verus!
