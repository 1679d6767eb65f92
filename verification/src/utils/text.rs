//! Verified text helpers: equality, prefix and substring tests on `&str`,
//! each specified against the character sequences the strings denote.

use vstd::prelude::*;

verus! {

/// Holds when `needle` occurs contiguously inside `hay`.
pub open spec fn spec_contains(hay: Seq<char>, needle: Seq<char>) -> bool {
    exists|i: int|
        0 <= i && i + needle.len() <= hay.len() && #[trigger] hay.subrange(
            i,
            i + needle.len() as int,
        ) == needle
}

/// Character-wise equality of two strings.
pub fn str_eq(a: &str, b: &str) -> (result: bool)
    ensures
        result == (a@ == b@),
{
    let a_len = a.unicode_len();
    let b_len = b.unicode_len();
    if a_len != b_len {
        return false;
    }
    for i in 0..a_len
        invariant
            a_len == a@.len(),
            b_len == b@.len(),
            a_len == b_len,
            forall|j: int| 0 <= j < i ==> a@[j] == b@[j],
    {
        if a.get_char(i) != b.get_char(i) {
            return false;
        }
    }
    proof {
        assert(a@ =~= b@);
    }
    true
}

/// Whether `needle` matches `hay` starting at position `at`.
fn matches_at(hay: &str, needle: &str, at: usize) -> (result: bool)
    requires
        at + needle@.len() <= hay@.len(),
        at + needle@.len() <= usize::MAX,
    ensures
        result == (hay@.subrange(at as int, at + needle@.len() as int) == needle@),
{
    let needle_len = needle.unicode_len();
    for j in 0..needle_len
        invariant
            needle_len == needle@.len(),
            at + needle_len <= hay@.len(),
            at + needle_len <= usize::MAX,
            forall|k: int| 0 <= k < j ==> hay@[at + k] == needle@[k],
    {
        if hay.get_char(at + j) != needle.get_char(j) {
            proof {
                let sub = hay@.subrange(at as int, at + needle@.len() as int);
                assert(sub[j as int] != needle@[j as int]);
            }
            return false;
        }
    }
    proof {
        assert(hay@.subrange(at as int, at + needle@.len() as int) =~= needle@);
    }
    true
}

/// Whether `needle` occurs anywhere inside `hay`.
pub fn str_contains(hay: &str, needle: &str) -> (result: bool)
    ensures
        result == spec_contains(hay@, needle@),
{
    let hay_len = hay.unicode_len();
    let needle_len = needle.unicode_len();
    if needle_len > hay_len {
        return false;
    }
    if needle_len == 0 {
        proof {
            assert(hay@.subrange(0, 0 + needle@.len() as int) =~= needle@);
        }
        return true;
    }
    let last_start = hay_len - needle_len;
    for i in 0..last_start + 1
        invariant
            hay_len == hay@.len(),
            needle_len == needle@.len(),
            last_start == hay_len - needle_len,
            forall|k: int|
                0 <= k < i ==> #[trigger] hay@.subrange(k, k + needle@.len() as int)
                    != needle@,
    {
        if matches_at(hay, needle, i) {
            return true;
        }
    }
    false
}

/// Whether `prefix` is an initial segment of `s`.
pub fn str_starts_with(s: &str, prefix: &str) -> (result: bool)
    ensures
        result == prefix@.is_prefix_of(s@),
{
    let s_len = s.unicode_len();
    let prefix_len = prefix.unicode_len();
    if prefix_len > s_len {
        return false;
    }
    matches_at(s, prefix, 0)
}

} // verus!
