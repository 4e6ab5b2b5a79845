//! Byte-level substring search.
//!
//! Lines and the literal encodings searched for are modelled as sequences
//! of bytes; a condition holds of a line when one of its encodings occurs
//! as a contiguous run of bytes somewhere in the line.

use vstd::prelude::*;

verus! {

/// `pat` occurs in `text` starting at position `at`.
pub open spec fn occurs_at(pat: Seq<u8>, text: Seq<u8>, at: int) -> bool {
    0 <= at && at + pat.len() <= text.len() && text.subrange(at, at + pat.len()) == pat
}

/// `pat` occurs somewhere in `text` as a contiguous run of bytes.
pub open spec fn is_substring_of(pat: Seq<u8>, text: Seq<u8>) -> bool {
    exists|i: int| occurs_at(pat, text, i)
}

/// Compares `pat` against the bytes of `text` starting at `at`.
fn matches_at(text: &[u8], pat: &[u8], at: usize) -> (r: bool)
    requires
        at + pat@.len() <= text@.len(),
    ensures
        r == occurs_at(pat@, text@, at as int),
{
    let text_len = text.len();
    let mut j: usize = 0;
    while j < pat.len()
        invariant
            at + pat@.len() <= text@.len(),
            text@.len() == text_len,
            j <= pat@.len(),
            forall|k: int| 0 <= k < j ==> text@[at + k] == pat@[k],
        decreases pat@.len() - j,
    {
        if text[at + j] != pat[j] {
            assert(text@.subrange(at as int, at + pat@.len())[j as int] != pat@[j as int]);
            return false;
        }
        j = j + 1;
    }
    assert(text@.subrange(at as int, at + pat@.len()) =~= pat@);
    true
}

/// Compares two byte slices for equality.
pub fn bytes_eq(a: &[u8], b: &[u8]) -> (r: bool)
    ensures
        r == (a@ == b@),
{
    if a.len() != b.len() {
        return false;
    }
    let n = a.len();
    let mut i: usize = 0;
    while i < n
        invariant
            n == a@.len() == b@.len(),
            i <= n,
            forall|k: int| 0 <= k < i ==> a@[k] == b@[k],
        decreases n - i,
    {
        if a[i] != b[i] {
            return false;
        }
        i = i + 1;
    }
    assert(a@ =~= b@);
    true
}

/// `b` occurs somewhere in `s`.
pub open spec fn contains_byte(s: Seq<u8>, b: u8) -> bool {
    exists|i: int| 0 <= i < s.len() && s[i] == b
}

/// Position of the first occurrence of `b` in `s`; `s.len()` when absent.
pub open spec fn first_index_of(s: Seq<u8>, b: u8) -> int
    decreases s.len(),
{
    if s.len() == 0 {
        0
    } else if s[0] == b {
        0
    } else {
        1 + first_index_of(s.drop_first(), b)
    }
}

/// What `first_index_of` returns: the position of the first occurrence,
/// or the length when the byte is absent.
pub proof fn lemma_first_index_of(s: Seq<u8>, b: u8)
    ensures
        0 <= first_index_of(s, b) <= s.len(),
        first_index_of(s, b) < s.len() ==> s[first_index_of(s, b)] == b,
        forall|k: int| 0 <= k < first_index_of(s, b) ==> s[k] != b,
        (first_index_of(s, b) < s.len()) == contains_byte(s, b),
    decreases s.len(),
{
    if s.len() == 0 {
        assert(!contains_byte(s, b));
    } else if s[0] == b {
        assert(contains_byte(s, b));
    } else {
        let rest = s.drop_first();
        lemma_first_index_of(rest, b);
        let fi = first_index_of(rest, b);
        assert forall|k: int| 1 <= k < 1 + fi implies s[k] != b by {
            assert(rest[k - 1] == s[k]);
            assert(rest[k - 1] != b);
        }
        if fi < rest.len() {
            assert(s[1 + fi] == rest[fi]);
            assert(contains_byte(s, b));
        } else {
            assert(forall|k: int| 0 <= k < s.len() ==> s[k] != b);
            assert(!contains_byte(s, b));
        }
    }
}

/// Finds the first occurrence of `b` in `s`.
pub fn find_byte(s: &[u8], b: u8) -> (r: Option<usize>)
    ensures
        match r {
            Some(i) => i == first_index_of(s@, b) && i < s@.len() && s@[i as int] == b,
            None => first_index_of(s@, b) == s@.len() && !contains_byte(s@, b),
        },
{
    proof {
        lemma_first_index_of(s@, b);
    }
    let n = s.len();
    let mut i: usize = 0;
    while i < n
        invariant
            n == s@.len(),
            i <= n,
            forall|k: int| 0 <= k < i ==> s@[k] != b,
        decreases n - i,
    {
        if s[i] == b {
            proof {
                lemma_first_index_of(s@, b);
                let fi = first_index_of(s@, b);
                if fi < i {
                    assert(s@[fi] == b);
                } else if fi > i {
                    assert(s@[i as int] != b);
                }
            }
            return Some(i);
        }
        i = i + 1;
    }
    None
}

/// Scans `text` left to right for an occurrence of `pat`.
pub fn contains_subslice(text: &[u8], pat: &[u8]) -> (r: bool)
    ensures
        r == is_substring_of(pat@, text@),
{
    if pat.len() > text.len() {
        return false;
    }
    let last = text.len() - pat.len();
    let mut i: usize = 0;
    loop
        invariant
            pat@.len() <= text@.len(),
            last == text@.len() - pat@.len(),
            i <= last,
            forall|k: int| 0 <= k < i ==> !occurs_at(pat@, text@, k),
        decreases last - i,
    {
        if matches_at(text, pat, i) {
            return true;
        }
        if i == last {
            assert(forall|k: int| occurs_at(pat@, text@, k) ==> 0 <= k <= last);
            return false;
        }
        i = i + 1;
    }
}

} // verus!
