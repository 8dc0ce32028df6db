//! Cleaning of text before it is stored in a column of bounded length.

use vstd::prelude::*;
use crate::text::{chars_of, string_of};

verus! {

/// The characters that may be stored: line feed, carriage return, tab,
/// printable ASCII, and the code points from U+0080 up to, but not including,
/// U+FFFF.
pub open spec fn is_storable(c: char) -> bool {
    let n = c as u32;
    c == '\n' || c == '\r' || c == '\t' || (0x20 <= n && n < 0x7F) || (0x80 <= n && n < 0xFFFF)
}

/// The storable characters of `s`, in order.
pub open spec fn storable(s: Seq<char>) -> Seq<char> {
    s.filter(|c: char| is_storable(c))
}

/// What is stored of `s` in a column of `max_len` characters: the first
/// `max_len` of its storable characters, or all of them where there are fewer.
pub open spec fn sanitized(s: Seq<char>, max_len: nat) -> Seq<char> {
    if storable(s).len() <= max_len {
        storable(s)
    } else {
        storable(s).take(max_len as int)
    }
}

/// Removes what the store cannot hold (NUL and other control characters, and
/// the code points from U+FFFF on) and cuts the rest to `max_len` characters.
pub fn sanitize_for_mysql(s: &str, max_len: usize) -> (r: String)
    ensures
        r@ == sanitized(s@, max_len as nat),
{
    let v = chars_of(s);
    let mut out: Vec<char> = Vec::new();
    let mut i: usize = 0;
    assert(v@.take(0) =~= Seq::<char>::empty());
    while i < v.len() && out.len() < max_len
        invariant
            i <= v.len(),
            v@ == s@,
            out@ == storable(v@.take(i as int)),
            out.len() <= max_len,
        decreases v.len() - i,
    {
        let c: char = v[i];
        let n: u32 = c as u32;
        proof {
            assert(v@.take(i + 1).drop_last() =~= v@.take(i as int));
            reveal(Seq::filter);
        }
        if c == '\n' || c == '\r' || c == '\t' || (0x20 <= n && n < 0x7F) || (0x80 <= n && n
            < 0xFFFF) {
            out.push(c);
        }
        i += 1;
    }
    proof {
        lemma_storable_prefix(v@, i as int);
        if i == v.len() {
            assert(v@.take(i as int) =~= v@);
        }
    }
    string_of(&out)
}

/// The storable characters of a prefix are a prefix of the storable
/// characters of the whole.
pub proof fn lemma_storable_prefix(s: Seq<char>, i: int)
    requires
        0 <= i <= s.len(),
    ensures
        storable(s.take(i)).len() <= storable(s).len(),
        storable(s.take(i)) == storable(s).take(storable(s.take(i)).len() as int),
    decreases s.len() - i,
{
    if i == s.len() {
        assert(s.take(i) =~= s);
        assert(storable(s).take(storable(s).len() as int) =~= storable(s));
    } else {
        lemma_storable_prefix(s, i + 1);
        assert(s.take(i + 1).drop_last() =~= s.take(i));
        reveal(Seq::filter);
        let a = storable(s.take(i));
        let b = storable(s.take(i + 1));
        assert(b == if is_storable(s[i]) { a.push(s[i]) } else { a });
        assert(a =~= b.take(a.len() as int));
        assert(b.take(a.len() as int) =~= storable(s).take(b.len() as int).take(a.len() as int));
        assert(storable(s).take(b.len() as int).take(a.len() as int) =~= storable(s).take(
            a.len() as int,
        ));
    }
}

} // verus!
