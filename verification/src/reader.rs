//! Reading one record field by field, in step with its schema.

use vstd::prelude::*;
use crate::bytes::{Binary32, Binary64, HVec};
use crate::cursor::{framed, ParseHelper};
use crate::error::{DecodeError, Error, FieldError, FramingError};
use crate::schema::{
    bits32_at, bits64_at, body_of, decode_error, field_ok, fields_ok, first_fault_from,
    lemma_first_fault, pattern_in, raw_at, rest_after, tail_of, text_at, unsigned_at, Kind, Tag,
};

verus! {

/// A cursor over the fields of one record that knows how many of them it has
/// read.
pub(crate) struct RecordReader<'a> {
    cur: ParseHelper<'a>,
    tag: Tag,
    read: usize,
    payload: Ghost<Seq<u8>>,
}

impl<'a> RecordReader<'a> {
    /// The record that is being read.
    pub closed spec fn tag(&self) -> Tag {
        self.tag
    }

    /// The number of fields read so far.
    pub closed spec fn count(&self) -> nat {
        self.read as nat
    }

    /// The payload that is being read.
    pub closed spec fn payload(&self) -> Seq<u8> {
        self.payload@
    }

    /// The fields of the payload.
    pub open spec fn body(&self) -> Seq<u8> {
        body_of(self.payload())
    }

    /// The reader stands where the next field of the schema starts, and every
    /// field before it could be read.
    pub closed spec fn wf(&self) -> bool {
        &&& framed(self.payload@, self.tag.letters())
        &&& self.read <= self.tag.field_count()
        &&& self.cur.remaining() == rest_after(self.tag, body_of(self.payload@), self.read as nat)
        &&& self.cur.offset() + self.cur.remaining().len() == self.payload@.len()
        &&& fields_ok(self.tag, body_of(self.payload@), self.read as nat)
    }

    /// True when this reader is `before` after one more field.
    pub open spec fn next_of(&self, before: &Self) -> bool {
        &&& self.wf()
        &&& self.tag() == before.tag()
        &&& self.payload() == before.payload()
        &&& self.count() == before.count() + 1
    }

    /// True when `e` is the failure owed for the payload that is being read.
    pub open spec fn fails_with(&self, e: Error) -> bool {
        decode_error(self.tag(), self.payload()) == Some(e)
    }

    /// Opens a payload as the record `tag`.
    pub fn open(payload: &'a [u8], tag: Tag) -> (r: Result<RecordReader<'a>, Error>)
        ensures
            match r {
                Ok(rd) => {
                    &&& framed(payload@, tag.letters())
                    &&& rd.wf()
                    &&& rd.tag() == tag
                    &&& rd.payload() == payload@
                    &&& rd.count() == 0
                },
                Err(e) => decode_error(tag, payload@) == Some(e),
            },
    {
        match ParseHelper::start(payload, tag.name()) {
            Some(cur) => Ok(RecordReader { cur, tag, read: 0, payload: Ghost(payload@) }),
            None => Err(Error::Framing(FramingError::TagMismatch(tag))),
        }
    }

    /// The field that the reader stands at cannot be read: this is the report.
    proof fn lemma_report(&self, e: FieldError)
        requires
            self.wf(),
            self.read < self.tag.field_count(),
            !field_ok(self.tag, self.body(), self.read as nat),
            e.offset == self.cur.offset(),
            e.fault == self.tag.kind(self.read as int).fault(),
        ensures
            self.fails_with(self.report(e)),
    {
        let body = self.body();
        lemma_first_fault(self.tag, body, 0, self.read as nat);
        assert(first_fault_from(self.tag, body, self.read as nat) == self.read);
    }

    /// The report on the field that the reader stands at.
    pub closed spec fn report(&self, e: FieldError) -> Error {
        Error::Decode(
            DecodeError { tag: self.tag, field: self.read, offset: e.offset, fault: e.fault },
        )
    }

    /// Every field of the record has been read: the payload decodes.
    pub proof fn lemma_complete(&self)
        requires
            self.wf(),
            self.count() == self.tag().field_count(),
        ensures
            decode_error(self.tag(), self.payload()) is None,
            framed(self.payload(), self.tag().letters()),
            fields_ok(self.tag(), self.body(), self.tag().field_count()),
    {
        lemma_first_fault(self.tag, self.body(), 0, self.read as nat);
    }

    /// Reads the next field, which the schema says is a number.
    pub fn unsigned(&mut self) -> (r: Result<u32, Error>)
        requires
            old(self).wf(),
            old(self).count() < old(self).tag().field_count(),
            old(self).tag().kind(old(self).count() as int) == Kind::Unsigned,
        ensures
            match r {
                Ok(v) => {
                    &&& final(self).next_of(old(self))
                    &&& v == unsigned_at(old(self).tag(), old(self).payload(), old(self).count())
                },
                Err(e) => old(self).fails_with(e),
            },
    {
        reveal(unsigned_at);
        let ghost k = self.read as nat;
        match self.cur.unsigned() {
            Ok(v) => {
                self.read = self.read + 1;
                proof {
                    assert(field_ok(self.tag, self.body(), k));
                    assert(rest_after(self.tag, self.body(), k + 1) == self.cur.remaining());
                }
                Ok(v)
            },
            Err(e) => {
                proof {
                    old(self).lemma_report(e);
                }
                Err(self.fail(e))
            },
        }
    }

    /// Reads the next field, which the schema says is text.
    pub fn text(&mut self) -> (r: Result<String, Error>)
        requires
            old(self).wf(),
            old(self).count() < old(self).tag().field_count(),
            old(self).tag().kind(old(self).count() as int) == Kind::Text,
        ensures
            match r {
                Ok(t) => {
                    &&& final(self).next_of(old(self))
                    &&& t@ == text_at(old(self).tag(), old(self).payload(), old(self).count())
                },
                Err(e) => old(self).fails_with(e),
            },
    {
        reveal(text_at);
        let ghost k = self.read as nat;
        match self.cur.string() {
            Ok(t) => {
                self.read = self.read + 1;
                proof {
                    assert(field_ok(self.tag, self.body(), k));
                    assert(rest_after(self.tag, self.body(), k + 1) == self.cur.remaining());
                }
                Ok(t)
            },
            Err(e) => {
                proof {
                    old(self).lemma_report(e);
                }
                Err(self.fail(e))
            },
        }
    }

    /// Reads the next field, which the schema says is kept as it came.
    pub fn raw(&mut self) -> (r: HVec)
        requires
            old(self).wf(),
            old(self).count() < old(self).tag().field_count(),
            old(self).tag().kind(old(self).count() as int) == Kind::Raw,
        ensures
            final(self).next_of(old(self)),
            r@ == raw_at(old(self).tag(), old(self).payload(), old(self).count()),
    {
        reveal(raw_at);
        let ghost k = self.read as nat;
        let b: &[u8] = self.cur.bytes();
        self.read = self.read + 1;
        proof {
            assert(field_ok(self.tag, self.body(), k));
            assert(rest_after(self.tag, self.body(), k + 1) == self.cur.remaining());
        }
        HVec(vstd::slice::slice_to_vec(b))
    }

    /// Reads the next field, which the schema says is one 32-bit pattern.
    pub fn bits32(&mut self) -> (r: Result<Binary32, Error>)
        requires
            old(self).wf(),
            old(self).count() < old(self).tag().field_count(),
            old(self).tag().kind(old(self).count() as int) == Kind::Blob(4),
        ensures
            match r {
                Ok(v) => {
                    &&& final(self).next_of(old(self))
                    &&& v.bits == bits32_at(old(self).tag(), old(self).payload(), old(self).count())
                },
                Err(e) => old(self).fails_with(e),
            },
    {
        reveal(bits32_at);
        let ghost k = self.read as nat;
        match self.cur.float() {
            Ok(v) => {
                self.read = self.read + 1;
                proof {
                    assert(field_ok(self.tag, self.body(), k));
                    assert(rest_after(self.tag, self.body(), k + 1) == self.cur.remaining());
                }
                Ok(v)
            },
            Err(e) => {
                proof {
                    old(self).lemma_report(e);
                }
                Err(self.fail(e))
            },
        }
    }

    /// Reads the next field, which the schema says is one 64-bit pattern.
    pub fn bits64(&mut self) -> (r: Result<Binary64, Error>)
        requires
            old(self).wf(),
            old(self).count() < old(self).tag().field_count(),
            old(self).tag().kind(old(self).count() as int) == Kind::Blob(8),
        ensures
            match r {
                Ok(v) => {
                    &&& final(self).next_of(old(self))
                    &&& v.bits == bits64_at(old(self).tag(), old(self).payload(), old(self).count())
                },
                Err(e) => old(self).fails_with(e),
            },
    {
        reveal(bits64_at);
        let ghost k = self.read as nat;
        match self.cur.double() {
            Ok(v) => {
                self.read = self.read + 1;
                proof {
                    assert(field_ok(self.tag, self.body(), k));
                    assert(rest_after(self.tag, self.body(), k + 1) == self.cur.remaining());
                }
                Ok(v)
            },
            Err(e) => {
                proof {
                    old(self).lemma_report(e);
                }
                Err(self.fail(e))
            },
        }
    }

    /// Reads the next field, which the schema says holds `LEN` 32-bit
    /// patterns side by side.
    pub fn patterns<const LEN: usize>(&mut self) -> (r: Result<[Binary32; LEN], Error>)
        requires
            old(self).wf(),
            old(self).count() < old(self).tag().field_count(),
            4 * LEN <= usize::MAX,
            old(self).tag().kind(old(self).count() as int) == Kind::Blob((4 * LEN) as usize),
        ensures
            match r {
                Ok(a) => {
                    &&& final(self).next_of(old(self))
                    &&& forall|i: int|
                        0 <= i < LEN ==> (#[trigger] a@[i]).bits == pattern_in(
                            old(self).tag(),
                            old(self).payload(),
                            old(self).count(),
                            i,
                        )
                },
                Err(e) => old(self).fails_with(e),
            },
    {
        reveal(pattern_in);
        let ghost k = self.read as nat;
        match self.cur.float_array::<LEN>() {
            Ok(a) => {
                self.read = self.read + 1;
                proof {
                    assert(field_ok(self.tag, self.body(), k));
                    assert(rest_after(self.tag, self.body(), k + 1) == self.cur.remaining());
                }
                Ok(a)
            },
            Err(e) => {
                proof {
                    old(self).lemma_report(e);
                }
                Err(self.fail(e))
            },
        }
    }

    /// Reads what follows the last field of the schema: every field that is
    /// not empty, kept as it came.
    pub fn tail(&mut self) -> (r: Vec<HVec>)
        requires
            old(self).wf(),
            old(self).count() == old(self).tag().field_count(),
        ensures
            r@.len() == tail_of(old(self).tag(), old(self).payload()).len(),
            forall|i: int|
                0 <= i < r@.len() ==> (#[trigger] r@[i])@ == tail_of(
                    old(self).tag(),
                    old(self).payload(),
                )[i],
    {
        reveal(tail_of);
        self.cur.collect_remaining()
    }

    /// The report on a field that the cursor could not read.
    fn fail(&self, e: FieldError) -> (r: Error)
        ensures
            r == self.report(e),
    {
        Error::Decode(
            DecodeError { tag: self.tag, field: self.read, offset: e.offset, fault: e.fault },
        )
    }
}

} // verus!
