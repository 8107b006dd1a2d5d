//! Text fields: UTF-8, padded by the device with null bytes.

use vstd::prelude::*;
use vstd::utf8::{
    decode_utf8, is_char_boundary_iff_not_is_continuation_byte,
    is_char_boundary_start_end_of_seq, is_continuation_byte, valid_utf8, valid_utf8_split,
};
use crate::bytes::{lemma_span, span, span_from};

verus! {

/// The bytes of a text field that count: those before its first null byte.
pub open spec fn unpadded(s: Seq<u8>) -> Seq<u8> {
    s.take(span(s, 0))
}

/// What a field holds when it is read as text. The whole field must be
/// UTF-8; the text ends before the first null byte.
pub open spec fn text_value(s: Seq<u8>) -> Option<Seq<char>> {
    if valid_utf8(s) {
        Some(decode_utf8(unpadded(s)))
    } else {
        None
    }
}

/// `core::str::from_utf8`: the bytes as a string slice where they are
/// well-formed UTF-8, and nothing where they are not. The slice that comes
/// back borrows the same bytes, so its characters are those that the bytes
/// encode.
#[verifier::external_body]
fn utf8_text<'a>(b: &'a [u8]) -> (r: Option<&'a str>)
    ensures
        r is Some <==> valid_utf8(b@),
        r is Some ==> r.unwrap()@ == decode_utf8(b@),
{
    core::str::from_utf8(b).ok()
}

/// Cutting well-formed UTF-8 before its first null byte leaves well-formed
/// UTF-8: a null byte is never in the middle of a character.
pub proof fn lemma_unpadded_valid(s: Seq<u8>)
    requires
        valid_utf8(s),
    ensures
        valid_utf8(unpadded(s)),
{
    lemma_span(s, 0);
    let k = span(s, 0);
    if k < s.len() {
        assert(!is_continuation_byte(0u8)) by (bit_vector);
        is_char_boundary_iff_not_is_continuation_byte(s, k);
    } else {
        is_char_boundary_start_end_of_seq(s);
    }
    valid_utf8_split(s, k);
    assert(s.subrange(0, k) =~= s.take(k));
}

/// Reads a whole field as text.
pub fn parse_text(b: &[u8]) -> (r: Option<String>)
    ensures
        match r {
            Some(t) => text_value(b@) == Some(t@),
            None => text_value(b@) is None,
        },
{
    if utf8_text(b).is_none() {
        return None;
    }
    let cut: usize = span_from(b, 0, 0);
    proof {
        assert(b@.skip(0) =~= b@);
        lemma_unpadded_valid(b@);
        assert(b@.subrange(0, cut as int) =~= unpadded(b@));
    }
    match utf8_text(vstd::slice::slice_subrange(b, 0, cut)) {
        Some(s) => Some(s.to_owned()),
        None => None,
    }
}

} // verus!
