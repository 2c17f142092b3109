//! Well-formedness of byte sequences as text.
//!
//! An image name extracted from a snapshot record is only a byte string;
//! whether it is text at all is a property of the bytes. The predicate here
//! states the standard shortest-form encoding of Unicode scalar values:
//! one-byte sequences below 0x80, and two- to four-byte sequences whose
//! leading byte fixes the length and whose continuation bytes lie in
//! 0x80..0xC0, with the usual tightened second-byte ranges that rule out
//! overlong forms, surrogates, and values past the last code point.

use vstd::prelude::*;

verus! {

/// `b` is a continuation byte of a multi-byte sequence.
pub open spec fn is_continuation(b: u8) -> bool {
    0x80 <= b < 0xC0
}

/// The admissible range of the byte after the leading byte `b0`: narrowed
/// for the leading bytes whose full continuation range would reach overlong
/// encodings (0xE0, 0xF0), surrogates (0xED), or code points past the
/// maximum (0xF4).
pub open spec fn second_byte_ok(b0: u8, b1: u8) -> bool {
    if b0 == 0xE0 {
        0xA0 <= b1 < 0xC0
    } else if b0 == 0xED {
        0x80 <= b1 < 0xA0
    } else if b0 == 0xF0 {
        0x90 <= b1 < 0xC0
    } else if b0 == 0xF4 {
        0x80 <= b1 < 0x90
    } else {
        is_continuation(b1)
    }
}

/// The suffix of `s` starting at `i` is a well-formed encoding.
pub open spec fn utf8_valid_from(s: Seq<u8>, i: int) -> bool
    decreases s.len() - i,
{
    if i < 0 || i >= s.len() {
        true
    } else {
        let b0 = s[i];
        if b0 < 0x80 {
            utf8_valid_from(s, i + 1)
        } else if b0 < 0xC2 {
            false
        } else if b0 < 0xE0 {
            i + 1 < s.len() && is_continuation(s[i + 1]) && utf8_valid_from(s, i + 2)
        } else if b0 < 0xF0 {
            i + 2 < s.len() && second_byte_ok(b0, s[i + 1]) && is_continuation(s[i + 2])
                && utf8_valid_from(s, i + 3)
        } else if b0 < 0xF5 {
            i + 3 < s.len() && second_byte_ok(b0, s[i + 1]) && is_continuation(s[i + 2])
                && is_continuation(s[i + 3]) && utf8_valid_from(s, i + 4)
        } else {
            false
        }
    }
}

/// The whole of `s` is a well-formed encoding.
pub open spec fn is_utf8(s: Seq<u8>) -> bool {
    utf8_valid_from(s, 0)
}

/// A sequence of bytes below 0x80 is well-formed from any position on.
pub proof fn lemma_ascii_is_utf8(s: Seq<u8>, i: int)
    requires
        forall|j: int| 0 <= j < s.len() ==> (#[trigger] s[j]) < 0x80,
        0 <= i,
    ensures
        utf8_valid_from(s, i),
    decreases s.len() - i,
{
    if i < s.len() {
        lemma_ascii_is_utf8(s, i + 1);
    }
}

/// Decides whether `bytes` is well-formed text, by one left-to-right pass.
pub fn is_valid_text(bytes: &Vec<u8>) -> (r: bool)
    ensures
        r == is_utf8(bytes@),
{
    let n = bytes.len();
    let mut i: usize = 0;
    while i < n
        invariant
            n == bytes@.len(),
            i <= n,
            is_utf8(bytes@) == utf8_valid_from(bytes@, i as int),
        decreases n - i,
    {
        let b0 = bytes[i];
        let remaining = n - i;
        if b0 < 0x80 {
            i = i + 1;
        } else if b0 < 0xC2 {
            return false;
        } else if b0 < 0xE0 {
            if remaining < 2 || !continuation(bytes[i + 1]) {
                return false;
            }
            i = i + 2;
        } else if b0 < 0xF0 {
            if remaining < 3 || !second_ok(b0, bytes[i + 1]) || !continuation(bytes[i + 2]) {
                return false;
            }
            i = i + 3;
        } else if b0 < 0xF5 {
            if remaining < 4 || !second_ok(b0, bytes[i + 1]) || !continuation(bytes[i + 2])
                || !continuation(bytes[i + 3]) {
                return false;
            }
            i = i + 4;
        } else {
            return false;
        }
    }
    true
}

/// Executable form of [`is_continuation`].
fn continuation(b: u8) -> (r: bool)
    ensures
        r == is_continuation(b),
{
    0x80 <= b && b < 0xC0
}

/// Executable form of [`second_byte_ok`].
fn second_ok(b0: u8, b1: u8) -> (r: bool)
    ensures
        r == second_byte_ok(b0, b1),
{
    if b0 == 0xE0 {
        0xA0 <= b1 && b1 < 0xC0
    } else if b0 == 0xED {
        0x80 <= b1 && b1 < 0xA0
    } else if b0 == 0xF0 {
        0x90 <= b1 && b1 < 0xC0
    } else if b0 == 0xF4 {
        0x80 <= b1 && b1 < 0x90
    } else {
        continuation(b1)
    }
}

} // verus!
