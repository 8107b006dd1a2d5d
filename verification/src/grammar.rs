//! The field grammar of a response payload, stated over plain byte sequences.
//!
//! A payload body is a run of fields separated by commas. A text field ends
//! at the next comma or at the end of the body. A binary field has a width
//! that only the reader knows; the one check on it is that a comma, or the
//! end of the body, follows its last byte.

use vstd::prelude::*;
use crate::bytes::{lemma_span, span, COMMA};

verus! {

/// The number of bytes before the first comma of `s`, or the length of `s`
/// where it holds no comma.
pub open spec fn field_len(s: Seq<u8>) -> int {
    span(s, COMMA)
}

/// The bytes of the delimited field at the front of `s`.
pub open spec fn delimited(s: Seq<u8>) -> Seq<u8> {
    s.take(field_len(s))
}

/// What is left of `s` once a field of `n` bytes and the separator behind it,
/// if there is one, have been consumed.
pub open spec fn after(s: Seq<u8>, n: int) -> Seq<u8> {
    if 0 <= n < s.len() {
        s.skip(n + 1)
    } else {
        Seq::empty()
    }
}

/// What is left of `s` behind its first delimited field.
pub open spec fn after_delimited(s: Seq<u8>) -> Seq<u8> {
    after(s, field_len(s))
}

/// True when a binary field of `n` bytes can be read at the front of `s`:
/// the bytes are there, and what follows them is a comma or nothing.
pub open spec fn blob_fits(s: Seq<u8>, n: nat) -> bool {
    n <= s.len() && (n < s.len() ==> s[n as int] == COMMA)
}

/// The delimited fields of `s` that are not empty, in order.
pub open spec fn nonempty_fields(s: Seq<u8>) -> Seq<Seq<u8>>
    decreases s.len(),
{
    if s.len() == 0 {
        Seq::empty()
    } else {
        proof {
            lemma_field_len(s);
        }
        let rest = nonempty_fields(after_delimited(s));
        if field_len(s) > 0 {
            seq![delimited(s)] + rest
        } else {
            rest
        }
    }
}

/// The first delimited field lies inside `s`, holds no comma, and is followed
/// by a comma unless it reaches the end.
pub proof fn lemma_field_len(s: Seq<u8>)
    ensures
        0 <= field_len(s) <= s.len(),
        forall|i: int| 0 <= i < field_len(s) ==> s[i] != COMMA,
        field_len(s) < s.len() ==> s[field_len(s)] == COMMA,
{
    lemma_span(s, COMMA);
}

} // verus!
