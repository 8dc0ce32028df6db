//! The digest of a repository URL, from which the name of its working copy is
//! made.

use vstd::prelude::*;
use vstd::std_specs::hash::DefaultHasherAdditionalSpecFns;
use std::collections::hash_map::DefaultHasher;
use std::hash::Hash;
use std::hash::Hasher;
use crate::text::string_of;

verus! {

/// What hashing a string hands to a hasher: the byte strings, in the order of
/// the writes. It stands for the `Hash` impl of `str`.
pub uninterp spec fn str_hash_writes(s: Seq<char>) -> Seq<Seq<u8>>;

/// Trusted: `<str as Hash>::hash` into a `DefaultHasher`. The hasher has then
/// seen, after what it had seen before, the writes that belong to the string,
/// and these depend on the string alone.
#[verifier::external_body]
fn feed_str(hasher: &mut DefaultHasher, s: &str)
    ensures
        final(hasher)@ == old(hasher)@ + str_hash_writes(s@),
{
    s.hash(hasher);
}

/// The digest of `input`: what a fresh default hasher gives after hashing the
/// string.
pub open spec fn digest(input: Seq<char>) -> u128 {
    DefaultHasher::spec_finish(str_hash_writes(input)) as u128
}

/// Digests a string. Equal strings have equal digests.
pub fn compute(input: &str) -> (d: u128)
    ensures
        d == digest(input@),
{
    let mut hasher = DefaultHasher::new();
    feed_str(&mut hasher, input);
    assert(hasher@ =~= str_hash_writes(input@));
    hasher.finish() as u128
}

/// The lower-case hexadecimal digit of a value below 16.
pub open spec fn hex_digit(d: int) -> char {
    if d < 10 {
        (48 + d) as u8 as char
    } else {
        (87 + d) as u8 as char
    }
}

/// The lower-case hexadecimal numeral of `n`, without leading zeros.
pub open spec fn hex(n: nat) -> Seq<char>
    decreases n,
{
    if n < 16 {
        seq![hex_digit(n as int)]
    } else {
        hex(n / 16).push(hex_digit((n % 16) as int))
    }
}

/// Different values below 16 have different digits.
pub proof fn lemma_hex_digit_is_one_to_one(c: int, d: int)
    requires
        0 <= c < 16,
        0 <= d < 16,
        hex_digit(c) == hex_digit(d),
    ensures
        c == d,
{
    let x = if c < 10 {
        48 + c
    } else {
        87 + c
    };
    let y = if d < 10 {
        48 + d
    } else {
        87 + d
    };
    assert(hex_digit(c) as int == x);
    assert(hex_digit(d) as int == y);
}

/// Different numbers have different numerals.
pub proof fn lemma_hex_is_one_to_one(a: nat, b: nat)
    requires
        hex(a) == hex(b),
    ensures
        a == b,
    decreases a,
{
    if a < 16 && b < 16 {
        assert(hex(a)[0] == hex_digit(a as int));
        assert(hex(b)[0] == hex_digit(b as int));
        lemma_hex_digit_is_one_to_one(a as int, b as int);
    } else if a < 16 {
        assert(hex(a).len() == 1);
        assert(hex(b).len() == hex(b / 16).len() + 1);
        lemma_hex_not_empty(b / 16);
    } else if b < 16 {
        assert(hex(b).len() == 1);
        assert(hex(a).len() == hex(a / 16).len() + 1);
        lemma_hex_not_empty(a / 16);
    } else {
        assert(hex(a).last() == hex_digit((a % 16) as int));
        assert(hex(b).last() == hex_digit((b % 16) as int));
        assert(hex(a).drop_last() =~= hex(a / 16));
        assert(hex(b).drop_last() =~= hex(b / 16));
        lemma_hex_digit_is_one_to_one((a % 16) as int, (b % 16) as int);
        lemma_hex_is_one_to_one(a / 16, b / 16);
        assert(a == 16 * (a / 16) + a % 16);
        assert(b == 16 * (b / 16) + b % 16);
    }
}

/// A numeral has at least one digit.
pub proof fn lemma_hex_not_empty(n: nat)
    ensures
        hex(n).len() >= 1,
    decreases n,
{
    if n >= 16 {
        lemma_hex_not_empty(n / 16);
    }
}

fn hex_chars(n: u128) -> (v: Vec<char>)
    ensures
        v@ == hex(n as nat),
    decreases n,
{
    let d: u8 = (n % 16) as u8;
    let c: char = if d < 10 {
        (48 + d) as char
    } else {
        (87 + d) as char
    };
    if n < 16 {
        let mut v: Vec<char> = Vec::new();
        v.push(c);
        assert(v@ =~= seq![hex_digit(n as int)]);
        v
    } else {
        let mut v = hex_chars(n / 16);
        v.push(c);
        v
    }
}

/// Writes a number as lower-case hexadecimal.
pub fn to_hex(n: u128) -> (s: String)
    ensures
        s@ == hex(n as nat),
{
    let v = hex_chars(n);
    string_of(&v)
}

} // verus!
