//! Length and format policies.
//!
//! A length policy measures a text and a format policy accepts or rejects it.
//! Both are pure functions of the text, stated over its sequence of characters.

use vstd::prelude::*;
use vstd::string::StrSliceExecFns;
use vstd::string::StringSliceAdditionalSpecFns;
use vstd::utf8::encode_utf8;
use vstd::utf8::is_ascii_chars;

verus! {

/// How long a text is, for the purpose of the bounds.
///
/// An implementation names the length of every text in `spec_logical_len` and
/// computes it in `logical_len`; the length of a text that a `&str` can hold
/// must therefore fit a `usize`.
pub trait LengthPolicy {
    /// The logical length of `text`.
    spec fn spec_logical_len(text: Seq<char>) -> nat;

    /// Computes the logical length of `s`.
    fn logical_len(s: &str) -> (n: usize)
        ensures
            n == Self::spec_logical_len(s@),
    ;
}

/// Counts the bytes of the UTF-8 encoding.
#[derive(Clone, Copy, Debug, PartialEq, Eq, Default)]
pub struct Bytes;

impl LengthPolicy for Bytes {
    open spec fn spec_logical_len(text: Seq<char>) -> nat {
        encode_utf8(text).len()
    }

    #[inline(always)]
    fn logical_len(s: &str) -> (n: usize) {
        s.as_bytes().len()
    }
}

/// Counts Unicode scalar values: one per character, whatever its encoded width.
#[derive(Clone, Copy, Debug, PartialEq, Eq, Default)]
pub struct Chars;

impl LengthPolicy for Chars {
    open spec fn spec_logical_len(text: Seq<char>) -> nat {
        text.len()
    }

    #[inline(always)]
    fn logical_len(s: &str) -> (n: usize) {
        s.unicode_len()
    }
}

/// Which texts are admissible, apart from their length.
///
/// A policy is meant for structural rules: encoding, character class, absence
/// of control characters. What a text means is for a parser that takes a
/// bounded string and returns a stricter type.
pub trait FormatPolicy {
    /// Whether `text` is accepted.
    spec fn spec_check(text: Seq<char>) -> bool;

    /// Decides whether `s` is accepted.
    fn check(s: &str) -> (ok: bool)
        ensures
            ok == Self::spec_check(s@),
    ;
}

/// Accepts every text.
#[derive(Clone, Copy, Debug, PartialEq, Eq, Default)]
pub struct AllowAll;

impl FormatPolicy for AllowAll {
    open spec fn spec_check(text: Seq<char>) -> bool {
        true
    }

    #[inline(always)]
    fn check(_s: &str) -> (ok: bool) {
        true
    }
}

/// Accepts the texts whose every character is ASCII.
#[derive(Clone, Copy, Debug, PartialEq, Eq, Default)]
pub struct AsciiOnly;

impl FormatPolicy for AsciiOnly {
    open spec fn spec_check(text: Seq<char>) -> bool {
        is_ascii_chars(text)
    }

    #[inline(always)]
    fn check(s: &str) -> (ok: bool) {
        s.is_ascii()
    }
}

/// Whether `c` is an ASCII letter or an ASCII digit.
pub open spec fn is_ascii_alphanumeric(c: char) -> bool {
    ||| '0' <= c <= '9'
    ||| 'A' <= c <= 'Z'
    ||| 'a' <= c <= 'z'
}

/// The most bytes a token may take.
pub const TOKEN_MAX_BYTES: usize = 128;

/// Accepts the texts of at most [`TOKEN_MAX_BYTES`] bytes that are made of
/// ASCII letters and ASCII digits alone.
#[derive(Clone, Copy, Debug, Default)]
pub struct TokenPolicy;

impl FormatPolicy for TokenPolicy {
    open spec fn spec_check(text: Seq<char>) -> bool {
        &&& encode_utf8(text).len() <= TOKEN_MAX_BYTES
        &&& forall|i: int| 0 <= i < text.len() ==> is_ascii_alphanumeric(#[trigger] text[i])
    }

    fn check(s: &str) -> (ok: bool) {
        let bytes = s.as_bytes();
        let n: usize = bytes.len();
        if n > TOKEN_MAX_BYTES || !s.is_ascii() {
            return false;
        }
        proof {
            vstd::utf8::is_ascii_chars_encode_utf8(s@);
        }
        let mut i: usize = 0;
        while i < n
            invariant
                i <= n,
                n == bytes@.len(),
                n == s@.len(),
                bytes@ == encode_utf8(s@),
                is_ascii_chars(s@),
                forall|j: int| 0 <= j < n ==> s@[j] as u8 == #[trigger] bytes@[j],
                forall|j: int| 0 <= j < i ==> is_ascii_alphanumeric(#[trigger] s@[j]),
            decreases n - i,
        {
            let b: u8 = bytes[i];
            let alnum = (48 <= b && b <= 57) || (65 <= b && b <= 90) || (97 <= b && b <= 122);
            assert(alnum == is_ascii_alphanumeric(s@[i as int])) by {
                let c = s@[i as int];
                assert('\0' <= c <= '\u{7f}');
                assert(c as u8 == bytes@[i as int]);
            }
            if !alnum {
                return false;
            }
            i += 1;
        }
        true
    }
}

} // verus!
