//! Small verified string helpers: character-level equality, conversions
//! between strings and character vectors, and joining with a separator.

use vstd::prelude::*;
use vstd::string::*;

verus! {

/// Character-wise equality of two string slices.
pub fn str_eq(a: &str, b: &str) -> (r: bool)
    ensures
        r == (a@ == b@),
{
    let n = a.unicode_len();
    let m = b.unicode_len();
    if n != m {
        proof {
            assert(a@ != b@) by {
                if a@ == b@ {
                    assert(a@.len() == b@.len());
                }
            }
        }
        return false;
    }
    let mut i: usize = 0;
    while i < n
        invariant
            i <= n,
            n == a@.len(),
            n == b@.len(),
            forall|j: int| 0 <= j < i ==> a@[j] == b@[j],
        decreases n - i,
    {
        let ca = a.get_char(i);
        let cb = b.get_char(i);
        if ca != cb {
            proof {
                assert(a@ != b@) by {
                    if a@ == b@ {
                        assert(a@[i as int] == b@[i as int]);
                    }
                }
            }
            return false;
        }
        i = i + 1;
    }
    proof {
        assert(a@ =~= b@);
    }
    true
}

/// Relies on std's `String::push`: appends exactly the given character.
#[verifier::external_body]
pub fn push_char(s: &mut String, c: char)
    ensures
        final(s)@ == old(s)@.push(c),
{
    s.push(c);
}

/// Relies on std's `String::pop`: removes exactly the last character, if any.
#[verifier::external_body]
pub fn pop_char(s: &mut String)
    ensures
        final(s)@ == if old(s)@.len() > 0 {
            old(s)@.drop_last()
        } else {
            old(s)@
        },
{
    s.pop();
}

/// Builds the string holding exactly the given characters.
pub fn chars_to_string(v: &Vec<char>) -> (r: String)
    ensures
        r@ == v@,
{
    let mut r = String::new();
    let mut i: usize = 0;
    while i < v.len()
        invariant
            i <= v.len(),
            r@ == v@.take(i as int),
        decreases v.len() - i,
    {
        push_char(&mut r, v[i]);
        proof {
            assert(v@.take(i + 1 as int) =~= v@.take(i as int).push(v@[i as int]));
        }
        i = i + 1;
    }
    proof {
        assert(v@.take(v.len() as int) =~= v@);
    }
    r
}

/// Collects the characters of a string slice into a vector.
pub fn str_to_chars(s: &str) -> (r: Vec<char>)
    ensures
        r@ == s@,
{
    let n = s.unicode_len();
    let mut r: Vec<char> = Vec::new();
    let mut i: usize = 0;
    while i < n
        invariant
            i <= n,
            n == s@.len(),
            r@ == s@.take(i as int),
        decreases n - i,
    {
        r.push(s.get_char(i));
        proof {
            assert(s@.take(i + 1 as int) =~= s@.take(i as int).push(s@[i as int]));
        }
        i = i + 1;
    }
    proof {
        assert(s@.take(n as int) =~= s@);
    }
    r
}

/// Appends every character of `lit` to `out`.
pub fn append_chars_of(out: &mut Vec<char>, lit: &str)
    ensures
        final(out)@ == old(out)@ + lit@,
{
    let n = lit.unicode_len();
    let mut i: usize = 0;
    while i < n
        invariant
            i <= n,
            n == lit@.len(),
            out@ == old(out)@ + lit@.take(i as int),
        decreases n - i,
    {
        out.push(lit.get_char(i));
        proof {
            assert(old(out)@ + lit@.take(i + 1 as int) =~= (old(out)@ + lit@.take(i as int)).push(
                lit@[i as int],
            ));
        }
        i = i + 1;
    }
    proof {
        assert(old(out)@ + lit@.take(n as int) =~= old(out)@ + lit@);
    }
}

/// The sequence obtained by placing `sep` between consecutive elements of
/// `parts` (empty for no parts, the sole part for one).
pub open spec fn spec_join(parts: Seq<Seq<char>>, sep: Seq<char>) -> Seq<char>
    decreases parts.len(),
{
    if parts.len() == 0 {
        Seq::<char>::empty()
    } else if parts.len() == 1 {
        parts[0]
    } else {
        parts[0] + sep + spec_join(parts.drop_first(), sep)
    }
}

/// Appending one more part to a join appends a separator and the part
/// (or is just the part, when there was nothing yet).
pub proof fn lemma_join_push(parts: Seq<Seq<char>>, sep: Seq<char>, x: Seq<char>)
    ensures
        spec_join(parts.push(x), sep) == if parts.len() == 0 {
            x
        } else {
            spec_join(parts, sep) + sep + x
        },
    decreases parts.len(),
{
    let p = parts.push(x);
    if parts.len() == 0 {
        assert(p.len() == 1);
        assert(p[0] == x);
    } else if parts.len() == 1 {
        assert(p.drop_first() =~= seq![x]);
        assert(spec_join(p.drop_first(), sep) == x);
        assert(spec_join(parts, sep) == parts[0]);
    } else {
        lemma_join_push(parts.drop_first(), sep, x);
        assert(p.drop_first() =~= parts.drop_first().push(x));
        assert(spec_join(parts.drop_first().push(x), sep) == spec_join(parts.drop_first(), sep)
            + sep + x);
        assert(spec_join(p, sep) == p[0] + sep + spec_join(p.drop_first(), sep));
        assert(p[0] == parts[0]);
        assert(spec_join(p, sep) =~= spec_join(parts, sep) + sep + x);
    }
}

/// The concatenation of `f` applied to every element of `s`, in order.
pub open spec fn spec_flat_map<A, B>(s: Seq<A>, f: spec_fn(A) -> Seq<B>) -> Seq<B>
    decreases s.len(),
{
    if s.len() == 0 {
        Seq::<B>::empty()
    } else {
        f(s[0]) + spec_flat_map(s.drop_first(), f)
    }
}

/// Appending one element to the input appends its image to the flat map.
pub proof fn lemma_flat_map_push<A, B>(s: Seq<A>, f: spec_fn(A) -> Seq<B>, x: A)
    ensures
        spec_flat_map(s.push(x), f) == spec_flat_map(s, f) + f(x),
    decreases s.len(),
{
    let p = s.push(x);
    if s.len() == 0 {
        assert(p.drop_first() =~= Seq::<A>::empty());
        assert(p[0] == x);
        assert(spec_flat_map(p.drop_first(), f) =~= Seq::<B>::empty());
        assert(spec_flat_map(p, f) =~= f(x));
        assert(spec_flat_map(s, f) + f(x) =~= f(x));
    } else {
        lemma_flat_map_push(s.drop_first(), f, x);
        assert(p.drop_first() =~= s.drop_first().push(x));
        assert(p[0] == s[0]);
        assert(spec_flat_map(p, f) =~= spec_flat_map(s, f) + f(x));
    }
}

/// First-seen-order deduplication of `s`, appended to what `acc` already
/// holds: an element enters only if neither `acc` nor an earlier element
/// already brought it in.
pub open spec fn spec_dedup_first(s: Seq<Seq<char>>, acc: Seq<Seq<char>>) -> Seq<Seq<char>>
    decreases s.len(),
{
    if s.len() == 0 {
        acc
    } else if acc.contains(s[0]) {
        spec_dedup_first(s.drop_first(), acc)
    } else {
        spec_dedup_first(s.drop_first(), acc.push(s[0]))
    }
}

/// One more input element extends the deduplicated sequence exactly when it
/// is not in it yet.
pub proof fn lemma_dedup_first_push(s: Seq<Seq<char>>, acc: Seq<Seq<char>>, x: Seq<char>)
    ensures
        spec_dedup_first(s.push(x), acc) == if spec_dedup_first(s, acc).contains(x) {
            spec_dedup_first(s, acc)
        } else {
            spec_dedup_first(s, acc).push(x)
        },
    decreases s.len(),
{
    let p = s.push(x);
    if s.len() == 0 {
        assert(p.drop_first() =~= Seq::<Seq<char>>::empty());
        assert(p[0] == x);
        assert(spec_dedup_first(Seq::<Seq<char>>::empty(), acc) == acc);
        assert(spec_dedup_first(Seq::<Seq<char>>::empty(), acc.push(x)) == acc.push(x));
        assert(spec_dedup_first(s, acc) == acc);
    } else {
        assert(p.drop_first() =~= s.drop_first().push(x));
        assert(p[0] == s[0]);
        if acc.contains(s[0]) {
            lemma_dedup_first_push(s.drop_first(), acc, x);
        } else {
            lemma_dedup_first_push(s.drop_first(), acc.push(s[0]), x);
        }
    }
}

/// Whether the vector holds a string with the given characters.
pub fn vec_contains_str(v: &Vec<String>, s: &str) -> (r: bool)
    ensures
        r == v.deep_view().contains(s@),
{
    let mut i: usize = 0;
    while i < v.len()
        invariant
            i <= v.len(),
            v.deep_view().len() == v.len(),
            forall|j: int| 0 <= j < i ==> v.deep_view()[j] != s@,
        decreases v.len() - i,
    {
        if str_eq(v[i].as_str(), s) {
            proof {
                assert(v.deep_view()[i as int] == s@);
            }
            return true;
        }
        proof {
            assert(v.deep_view()[i as int] == v@[i as int]@);
        }
        i = i + 1;
    }
    proof {
        assert(!v.deep_view().contains(s@));
    }
    false
}

/// Joins the given strings with the separator between consecutive ones.
pub fn join_strings(parts: &Vec<String>, sep: &str) -> (r: String)
    ensures
        r@ == spec_join(parts.deep_view(), sep@),
{
    if parts.len() == 0 {
        proof {
            assert(parts.deep_view().len() == 0);
        }
        return String::new();
    }
    let mut r: String = parts[0].clone();
    proof {
        assert(parts.deep_view().take(1) =~= seq![parts.deep_view()[0]]);
        assert(spec_join(parts.deep_view().take(1), sep@) == parts.deep_view()[0]);
        assert(parts.deep_view()[0] == parts@[0].deep_view());
    }
    let mut i: usize = 1;
    while i < parts.len()
        invariant
            1 <= i <= parts.len(),
            parts.deep_view().len() == parts.len(),
            r@ == spec_join(parts.deep_view().take(i as int), sep@),
        decreases parts.len() - i,
    {
        r.append(sep);
        r.append(parts[i].as_str());
        proof {
            let dv = parts.deep_view();
            assert(dv.take(i + 1 as int) =~= dv.take(i as int).push(dv[i as int]));
            lemma_join_push(dv.take(i as int), sep@, dv[i as int]);
            assert(dv[i as int] == parts@[i as int].deep_view());
        }
        i = i + 1;
    }
    proof {
        assert(parts.deep_view().take(parts.len() as int) =~= parts.deep_view());
    }
    r
}

} // verus!
