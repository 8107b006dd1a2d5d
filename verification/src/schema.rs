//! The positional schema of each record: which kind of field stands at which
//! place. The wire format does not describe itself, so this table is all
//! that tells a number from a binary field.

use vstd::prelude::*;
use vstd::string::StringSliceAdditionalSpecFns;
use crate::bytes::{be32, be64};
use crate::cursor::{framed, pattern_at};
use crate::decimal::decimal_value;
use crate::error::{DecodeError, Error, Fault, FramingError};
use crate::grammar::{after, after_delimited, blob_fits, delimited, nonempty_fields};
use crate::text::text_value;

verus! {

/// The five kinds of response payload, named by the three letters that each
/// one starts with.
#[derive(Clone, Copy, Debug, PartialEq, Eq, Structural)]
pub enum Tag {
    /// Storage summary.
    Mib,
    /// One title.
    Gtb,
    /// The device-wide id of one capture.
    Gab,
    /// The measurement record of one capture.
    Mrb,
    /// The secondary record of one capture.
    Meb,
}

/// The kinds of field that a record is made of.
#[derive(Clone, Copy, Debug, PartialEq, Eq, Structural)]
pub enum Kind {
    /// A delimited field that holds an unsigned decimal number.
    Unsigned,
    /// A delimited field that holds text.
    Text,
    /// A delimited field that is kept as it came.
    Raw,
    /// A binary field of this many bytes.
    Blob(usize),
}

/// The number of bytes of a payload before its first field: three letters and
/// the marker.
pub const HEADER: usize = 5;

impl Tag {
    /// The three letters as bytes.
    pub open spec fn letters(self) -> Seq<u8> {
        match self {
            Tag::Mib => seq![0x4du8, 0x49u8, 0x42u8],
            Tag::Gtb => seq![0x47u8, 0x54u8, 0x42u8],
            Tag::Gab => seq![0x47u8, 0x41u8, 0x42u8],
            Tag::Mrb => seq![0x4du8, 0x52u8, 0x42u8],
            Tag::Meb => seq![0x4du8, 0x45u8, 0x42u8],
        }
    }

    /// The three letters as text.
    pub fn name(self) -> (s: &'static str)
        ensures
            s.spec_bytes() == self.letters(),
    {
        broadcast use vstd::string::is_ascii_spec_bytes;

        proof {
            reveal_strlit("MIB");
            reveal_strlit("GTB");
            reveal_strlit("GAB");
            reveal_strlit("MRB");
            reveal_strlit("MEB");
        }
        let s: &'static str = match self {
            Tag::Mib => "MIB",
            Tag::Gtb => "GTB",
            Tag::Gab => "GAB",
            Tag::Mrb => "MRB",
            Tag::Meb => "MEB",
        };
        assert(vstd::string::is_ascii(s));
        assert(s.spec_bytes() =~= self.letters());
        s
    }

    /// The number of fields that the decoder of this record reads.
    pub open spec fn field_count(self) -> nat {
        match self {
            Tag::Mib => 3,
            Tag::Gtb => 2,
            Tag::Gab => 1,
            Tag::Mrb => 57,
            Tag::Meb => 79,
        }
    }

    /// The kind of the field at place `j`, counted from zero.
    pub open spec fn kind(self, j: int) -> Kind {
        match self {
            Tag::Mib => Kind::Unsigned,
            Tag::Gtb => if j == 0 {
                Kind::Text
            } else {
                Kind::Unsigned
            },
            Tag::Gab => Kind::Unsigned,
            Tag::Mrb => if j == 1 {
                Kind::Text
            } else if j == 6 || j == 8 || 13 <= j <= 18 {
                Kind::Raw
            } else if j <= 9 || j == 12 || 50 <= j <= 53 {
                Kind::Unsigned
            } else if 21 <= j <= 23 {
                Kind::Blob(8)
            } else if j == 48 {
                Kind::Blob(324)
            } else if j == 49 {
                Kind::Blob(1604)
            } else {
                Kind::Blob(4)
            },
            Tag::Meb => if j == 68 || j == 70 || j == 73 || j == 77 || j == 78 {
                Kind::Unsigned
            } else {
                Kind::Blob(4)
            },
        }
    }
}

impl Kind {
    /// True when a field of this kind can be read at the front of `s`.
    pub open spec fn readable(self, s: Seq<u8>) -> bool {
        match self {
            Kind::Unsigned => decimal_value(delimited(s)) is Some,
            Kind::Text => text_value(delimited(s)) is Some,
            Kind::Raw => true,
            Kind::Blob(n) => blob_fits(s, n as nat),
        }
    }

    /// The bytes of the field of this kind at the front of `s`.
    pub open spec fn taken(self, s: Seq<u8>) -> Seq<u8> {
        match self {
            Kind::Blob(n) => s.take(n as int),
            _ => delimited(s),
        }
    }

    /// What is left of `s` behind the field of this kind at its front.
    pub open spec fn rest(self, s: Seq<u8>) -> Seq<u8> {
        match self {
            Kind::Blob(n) => after(s, n as int),
            _ => after_delimited(s),
        }
    }

    /// The fault that is reported where a field of this kind cannot be read.
    pub open spec fn fault(self) -> Fault {
        match self {
            Kind::Unsigned => Fault::Number,
            Kind::Text => Fault::Text,
            _ => Fault::Width,
        }
    }
}

/// The fields of a payload: what follows the tag and the marker.
pub open spec fn body_of(payload: Seq<u8>) -> Seq<u8> {
    payload.skip(HEADER as int)
}

/// What is left of `body` where field `k` of the record starts, each field
/// before it taken as the schema says.
pub open spec fn rest_after(tag: Tag, body: Seq<u8>, k: nat) -> Seq<u8>
    decreases k,
{
    if k == 0 {
        body
    } else {
        tag.kind(k - 1).rest(rest_after(tag, body, (k - 1) as nat))
    }
}

/// True when field `j` can be read where it starts.
pub open spec fn field_ok(tag: Tag, body: Seq<u8>, j: nat) -> bool {
    tag.kind(j as int).readable(rest_after(tag, body, j))
}

/// True when the first `k` fields of the record can be read.
pub open spec fn fields_ok(tag: Tag, body: Seq<u8>, k: nat) -> bool {
    forall|j: nat| j < k ==> #[trigger] field_ok(tag, body, j)
}

/// The bytes of field `j`.
pub open spec fn field_bytes(tag: Tag, body: Seq<u8>, j: nat) -> Seq<u8> {
    tag.kind(j as int).taken(rest_after(tag, body, j))
}

/// The number that field `j` of a payload holds.
#[verifier::opaque]
pub open spec fn unsigned_at(tag: Tag, payload: Seq<u8>, j: nat) -> u32 {
    decimal_value(field_bytes(tag, body_of(payload), j)).unwrap()
}

/// The text that field `j` of a payload holds.
#[verifier::opaque]
pub open spec fn text_at(tag: Tag, payload: Seq<u8>, j: nat) -> Seq<char> {
    text_value(field_bytes(tag, body_of(payload), j)).unwrap()
}

/// The bytes of field `j` of a payload.
#[verifier::opaque]
pub open spec fn raw_at(tag: Tag, payload: Seq<u8>, j: nat) -> Seq<u8> {
    field_bytes(tag, body_of(payload), j)
}

/// The 32-bit pattern that field `j` of a payload holds.
#[verifier::opaque]
pub open spec fn bits32_at(tag: Tag, payload: Seq<u8>, j: nat) -> nat {
    be32(field_bytes(tag, body_of(payload), j))
}

/// The 64-bit pattern that field `j` of a payload holds.
#[verifier::opaque]
pub open spec fn bits64_at(tag: Tag, payload: Seq<u8>, j: nat) -> nat {
    be64(field_bytes(tag, body_of(payload), j))
}

/// The 32-bit pattern number `i` of those that field `j` of a payload holds
/// side by side.
#[verifier::opaque]
pub open spec fn pattern_in(tag: Tag, payload: Seq<u8>, j: nat, i: int) -> nat {
    pattern_at(field_bytes(tag, body_of(payload), j), i)
}

/// The fields behind the last one that the schema names, those that are not
/// empty.
#[verifier::opaque]
pub open spec fn tail_of(tag: Tag, payload: Seq<u8>) -> Seq<Seq<u8>> {
    nonempty_fields(rest_after(tag, body_of(payload), tag.field_count()))
}

/// The place of the first field that cannot be read, looking from `j` on, or
/// the number of fields where all of them can.
pub open spec fn first_fault_from(tag: Tag, body: Seq<u8>, j: nat) -> nat
    decreases tag.field_count() - j,
{
    if j >= tag.field_count() {
        tag.field_count()
    } else if !field_ok(tag, body, j) {
        j
    } else {
        first_fault_from(tag, body, j + 1)
    }
}

/// The report on field `j` of a payload that cannot be read.
pub open spec fn fault_at(tag: Tag, payload: Seq<u8>, j: nat) -> DecodeError {
    DecodeError {
        tag,
        field: j as usize,
        offset: (payload.len() - rest_after(tag, body_of(payload), j).len()) as usize,
        fault: tag.kind(j as int).fault(),
    }
}

/// Why a payload cannot be decoded as the record `tag`, or nothing where it
/// can: the tag or the marker is not there, or some field cannot be read, and
/// then the first such field is reported.
pub open spec fn decode_error(tag: Tag, payload: Seq<u8>) -> Option<Error> {
    if !framed(payload, tag.letters()) {
        Some(Error::Framing(FramingError::TagMismatch(tag)))
    } else if first_fault_from(tag, body_of(payload), 0) < tag.field_count() {
        Some(Error::Decode(fault_at(tag, payload, first_fault_from(tag, body_of(payload), 0))))
    } else {
        None
    }
}

/// The search for the first fault passes over fields that can be read.
pub proof fn lemma_first_fault(tag: Tag, body: Seq<u8>, from: nat, k: nat)
    requires
        from <= k <= tag.field_count(),
        fields_ok(tag, body, k),
    ensures
        first_fault_from(tag, body, from) == first_fault_from(tag, body, k),
    decreases k - from,
{
    if from < k {
        assert(field_ok(tag, body, from));
        lemma_first_fault(tag, body, from + 1, k);
    }
}

/// What the search for the first fault finds: every field before it can be
/// read, and the field itself cannot, unless the search ran to the end.
pub proof fn lemma_first_fault_found(tag: Tag, body: Seq<u8>, from: nat)
    requires
        from <= tag.field_count(),
    ensures
        from <= first_fault_from(tag, body, from) <= tag.field_count(),
        forall|j: nat|
            from <= j < first_fault_from(tag, body, from) ==> #[trigger] field_ok(tag, body, j),
        first_fault_from(tag, body, from) < tag.field_count() ==> !field_ok(
            tag,
            body,
            first_fault_from(tag, body, from),
        ),
    decreases tag.field_count() - from,
{
    if from < tag.field_count() && field_ok(tag, body, from) {
        lemma_first_fault_found(tag, body, from + 1);
    }
}

/// A payload decodes exactly when it starts with the tag and the marker and
/// every field of the schema can be read.
pub proof fn lemma_decodes(tag: Tag, payload: Seq<u8>)
    ensures
        decode_error(tag, payload) is None <==> {
            &&& framed(payload, tag.letters())
            &&& fields_ok(tag, body_of(payload), tag.field_count())
        },
{
    let body = body_of(payload);
    lemma_first_fault_found(tag, body, 0);
    if fields_ok(tag, body, tag.field_count()) {
        lemma_first_fault(tag, body, 0, tag.field_count());
    }
}

} // verus!
