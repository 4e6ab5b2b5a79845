//! Lower-casing of query entries and record lines.
//!
//! Matching is case-insensitive: query keys and values are folded to
//! lowercase when the specification is compiled, and each record line is
//! folded the same way before the literal encodings are searched for.

use vstd::prelude::*;
use vstd::string::StringSliceAdditionalSpecFns;

verus! {

/// The UTF-8 bytes of a string: the byte-level model of entries and lines.
pub open spec fn string_bytes(s: String) -> Seq<u8> {
    vstd::utf8::encode_utf8(s@)
}

/// The bytes that `str::to_lowercase` produces from a string with the
/// given UTF-8 bytes.
pub uninterp spec fn lower_of(s: Seq<u8>) -> Seq<u8>;

/// UTF-8 encoding is injective: equal byte forms mean equal strings.
pub proof fn lemma_encode_utf8_injective(a: Seq<char>, b: Seq<char>)
    requires
        vstd::utf8::encode_utf8(a) == vstd::utf8::encode_utf8(b),
    ensures
        a == b,
{
    vstd::utf8::encode_utf8_decode_utf8(a);
    vstd::utf8::encode_utf8_decode_utf8(b);
}

/// Compares two strings for equality.
pub fn str_eq(a: &str, b: &str) -> (r: bool)
    ensures
        r == (a@ == b@),
{
    let r = crate::substring::bytes_eq(a.as_bytes(), b.as_bytes());
    proof {
        if a.spec_bytes() == b.spec_bytes() {
            lemma_encode_utf8_injective(a@, b@);
        }
    }
    r
}

/// Relies on `str::to_lowercase`: the Unicode lowercase form of `s`,
/// a function of the characters of `s` alone; an empty string stays empty.
#[verifier::external_body]
pub fn lower_bytes(s: &str) -> (r: Vec<u8>)
    ensures
        r@ == lower_of(s.spec_bytes()),
        s.spec_bytes().len() == 0 ==> r@.len() == 0,
{
    s.to_lowercase().into_bytes()
}

} // verus!
