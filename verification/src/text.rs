//! Verified helpers for comparing and searching character sequences.

use vstd::prelude::*;

verus! {

/// Whether `needle` occurs in `hay` starting at position `at`.
pub open spec fn matches_at(hay: Seq<char>, needle: Seq<char>, at: int) -> bool {
    0 <= at && at + needle.len() <= hay.len() && hay.subrange(at, at + needle.len()) == needle
}

/// Whether `needle` occurs anywhere in `hay`.
pub open spec fn contains_seq(hay: Seq<char>, needle: Seq<char>) -> bool {
    exists|at: int| matches_at(hay, needle, at)
}

/// Whether `hay` starts with `needle`.
pub open spec fn starts_with_seq(hay: Seq<char>, needle: Seq<char>) -> bool {
    matches_at(hay, needle, 0)
}

/// The text without its trailing whitespace.
pub uninterp spec fn spec_trim_end(s: Seq<char>) -> Seq<char>;

/// Relies on str::trim_end: the result depends on the characters alone, and
/// is the prefix of the text that remains when trailing whitespace is
/// removed.
#[verifier::external_body]
pub fn trim_end(s: &str) -> (r: &str)
    ensures
        r@ == spec_trim_end(s@),
        r@.len() <= s@.len(),
        r@ == s@.take(r@.len() as int),
{
    s.trim_end()
}

/// A match in a text still matches after more text is appended.
pub proof fn lemma_matches_at_prefix(x: Seq<char>, y: Seq<char>, needle: Seq<char>, k: int)
    requires
        matches_at(x, needle, k),
    ensures
        matches_at(x + y, needle, k),
{
    assert((x + y).subrange(k, k + needle.len()) =~= x.subrange(k, k + needle.len()));
}

/// A match in a text still matches, shifted, after text is prepended.
pub proof fn lemma_matches_at_suffix(x: Seq<char>, y: Seq<char>, needle: Seq<char>, k: int)
    requires
        matches_at(y, needle, k),
    ensures
        matches_at(x + y, needle, x.len() + k),
{
    assert((x + y).subrange(x.len() + k, x.len() + k + needle.len()) =~= y.subrange(
        k,
        k + needle.len(),
    ));
}

/// The text without its leading and trailing whitespace.
pub uninterp spec fn spec_trim(s: Seq<char>) -> Seq<char>;

/// Relies on str::trim: the result depends on the characters alone; equal
/// texts trim to equal results.
#[verifier::external_body]
pub fn trim(s: &str) -> (r: &str)
    ensures
        r@ == spec_trim(s@),
        r@.len() <= s@.len(),
{
    s.trim()
}

/// The two texts, one after the other.
pub fn str_concat(a: &str, b: &str) -> (r: String)
    ensures
        r@ == a@ + b@,
{
    a.to_owned().concat(b)
}

/// Equality of two string slices, decided character by character.
pub fn str_eq(a: &str, b: &str) -> (r: bool)
    ensures
        r == (a@ == b@),
{
    let a_len = a.unicode_len();
    let b_len = b.unicode_len();
    if a_len != b_len {
        assert(a@ != b@) by {
            assert(a@.len() != b@.len());
        }
        return false;
    }
    let mut i: usize = 0;
    while i < a_len
        invariant
            a_len == a@.len(),
            b_len == b@.len(),
            a_len == b_len,
            0 <= i <= a_len,
            forall|k: int| 0 <= k < i ==> a@[k] == b@[k],
        decreases a_len - i,
    {
        if a.get_char(i) != b.get_char(i) {
            return false;
        }
        i += 1;
    }
    assert(a@ =~= b@);
    true
}

/// Whether `needle` occurs in `hay` starting at `at`, decided character by character.
fn matches_at_exec(hay: &str, needle: &str, at: usize) -> (r: bool)
    requires
        at + needle@.len() <= hay@.len(),
    ensures
        r == matches_at(hay@, needle@, at as int),
{
    let h_len = hay.unicode_len();
    let n_len = needle.unicode_len();
    let mut i: usize = 0;
    while i < n_len
        invariant
            h_len == hay@.len(),
            n_len == needle@.len(),
            at + n_len <= h_len,
            0 <= i <= n_len,
            forall|k: int| 0 <= k < i ==> hay@[at + k] == needle@[k],
        decreases n_len - i,
    {
        if hay.get_char(at + i) != needle.get_char(i) {
            assert(!matches_at(hay@, needle@, at as int)) by {
                assert(hay@.subrange(at as int, at + needle@.len())[i as int] == hay@[at + i]);
            }
            return false;
        }
        i += 1;
    }
    assert(hay@.subrange(at as int, at + needle@.len()) =~= needle@);
    true
}

/// Whether `needle` occurs anywhere in `hay`.
pub fn contains_str(hay: &str, needle: &str) -> (r: bool)
    ensures
        r == contains_seq(hay@, needle@),
{
    let h_len = hay.unicode_len();
    let n_len = needle.unicode_len();
    if n_len > h_len {
        assert(!contains_seq(hay@, needle@));
        return false;
    }
    if n_len == 0 {
        assert(matches_at(hay@, needle@, 0)) by {
            assert(hay@.subrange(0, 0) =~= needle@);
        }
        return true;
    }
    let mut at: usize = 0;
    while at <= h_len - n_len
        invariant
            h_len == hay@.len(),
            n_len == needle@.len(),
            0 < n_len <= h_len,
            0 <= at <= h_len - n_len + 1,
            forall|k: int| 0 <= k < at ==> !matches_at(hay@, needle@, k),
        decreases h_len - at,
    {
        if matches_at_exec(hay, needle, at) {
            return true;
        }
        at += 1;
    }
    assert(forall|k: int| matches_at(hay@, needle@, k) ==> 0 <= k <= h_len - n_len);
    false
}

/// Whether `hay` starts with `needle`.
pub fn starts_with_str(hay: &str, needle: &str) -> (r: bool)
    ensures
        r == starts_with_seq(hay@, needle@),
{
    let h_len = hay.unicode_len();
    let n_len = needle.unicode_len();
    if n_len > h_len {
        return false;
    }
    matches_at_exec(hay, needle, 0)
}

} // verus!
