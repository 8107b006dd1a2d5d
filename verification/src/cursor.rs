//! The field cursor: a read position over the bytes of one payload, with the
//! primitive reads that the record decoders are built from.

use vstd::prelude::*;
use vstd::slice::slice_subrange;
use vstd::string::StringSliceAdditionalSpecFns;
use crate::bytes::{be32, be64, dword_be, span_from, word_be, Binary32, Binary64, HVec, COMMA};
use crate::decimal::{decimal_value, parse_unsigned};
use crate::error::{Fault, FieldError};
use crate::grammar::{
    after, after_delimited, blob_fits, delimited, lemma_field_len, nonempty_fields,
};
use crate::text::{parse_text, text_value};

verus! {

/// The byte that stands twice between a payload's tag and its first field.
pub const MARKER: u8 = 0x40;

/// True when `payload` starts with `tag` and the two marker bytes.
pub open spec fn framed(payload: Seq<u8>, tag: Seq<u8>) -> bool {
    &&& payload.len() >= tag.len() + 2
    &&& payload.take(tag.len() as int) == tag
    &&& payload[tag.len() as int] == MARKER
    &&& payload[tag.len() as int + 1] == MARKER
}

/// The pattern number `i` of a binary field that holds 32-bit patterns side
/// by side.
pub open spec fn pattern_at(blob: Seq<u8>, i: int) -> nat {
    be32(blob.subrange(4 * i, 4 * i + 4))
}

/// A cursor over the bytes of one payload.
pub struct ParseHelper<'a> {
    buf: &'a [u8],
    pos: usize,
}

impl<'a> ParseHelper<'a> {
    #[verifier::type_invariant]
    spec fn in_bounds(self) -> bool {
        self.pos <= self.buf@.len()
    }

    /// The bytes that have not been read yet.
    pub closed spec fn remaining(&self) -> Seq<u8> {
        self.buf@.skip(self.pos as int)
    }

    /// The number of bytes of the buffer that lie before the read position.
    pub closed spec fn offset(&self) -> nat {
        self.pos as nat
    }

    /// True when this cursor is `before` moved forward so that `rest` is
    /// what remains.
    pub open spec fn follows(&self, before: &Self, rest: Seq<u8>) -> bool {
        &&& self.remaining() == rest
        &&& self.offset() + rest.len() == before.offset() + before.remaining().len()
    }

    /// A cursor at the first byte of `buf`.
    pub fn new(buf: &'a [u8]) -> (p: Self)
        ensures
            p.remaining() == buf@,
            p.offset() == 0,
    {
        ParseHelper { buf, pos: 0 }
    }

    /// Opens a payload: checks that it starts with `name` and the marker, and
    /// hands back a cursor at the first field.
    pub fn start(to_parse: &'a [u8], name: &str) -> (r: Option<ParseHelper<'a>>)
        ensures
            r is Some <==> framed(to_parse@, name.spec_bytes()),
            r is Some ==> {
                &&& r.unwrap().remaining() == to_parse@.skip(name.spec_bytes().len() as int + 2)
                &&& r.unwrap().offset() == name.spec_bytes().len() + 2
            },
    {
        let tag: &[u8] = name.as_bytes();
        let n: usize = tag.len();
        let len: usize = to_parse.len();
        if len < n || len - n < 2 {
            return None;
        }
        let mut i: usize = 0;
        while i < n
            invariant
                n == tag@.len(),
                tag@ == name.spec_bytes(),
                len == to_parse@.len(),
                n + 2 <= len,
                i <= n,
                forall|j: int| 0 <= j < i ==> to_parse@[j] == tag@[j],
            decreases n - i,
        {
            if to_parse[i] != tag[i] {
                assert(to_parse@.take(n as int)[i as int] != tag@[i as int]);
                return None;
            }
            i = i + 1;
        }
        assert(to_parse@.take(n as int) =~= tag@);
        if to_parse[n] != MARKER || to_parse[n + 1] != MARKER {
            return None;
        }
        Some(ParseHelper { buf: to_parse, pos: n + 2 })
    }

    /// True when nothing is left to read.
    pub fn is_empty(&self) -> (r: bool)
        ensures
            r <==> self.remaining().len() == 0,
    {
        proof {
            use_type_invariant(self);
        }
        self.pos >= self.buf.len()
    }

    /// The read position, in bytes from the start of the buffer.
    pub fn position(&self) -> (r: usize)
        ensures
            r == self.offset(),
    {
        self.pos
    }

    /// Reads a delimited field: the bytes up to the next comma, or all that
    /// is left where there is no comma. The cursor moves behind the comma.
    /// At the end of the buffer the field is empty and the cursor stays.
    pub fn bytes(&mut self) -> (r: &'a [u8])
        ensures
            r@ == delimited(old(self).remaining()),
            final(self).follows(old(self), after_delimited(old(self).remaining())),
    {
        proof {
            use_type_invariant(&*self);
            lemma_field_len(self.remaining());
        }
        let buf: &'a [u8] = self.buf;
        let total: usize = buf.len();
        let from: usize = self.pos;
        let n: usize = span_from(buf, from, COMMA);
        let r: &'a [u8] = slice_subrange(buf, from, from + n);
        let next: usize = if from + n < total {
            from + n + 1
        } else {
            total
        };
        self.pos = next;
        proof {
            let rem = buf@.skip(from as int);
            assert(r@ =~= delimited(rem));
            assert(buf@.skip(next as int) =~= after_delimited(rem));
        }
        r
    }

    /// Reads a binary field of `len` bytes. It fails, and the cursor stays,
    /// where fewer than `len` bytes are left or where the byte behind the
    /// field is not a comma. Otherwise the cursor moves behind the field and
    /// the comma that follows it, if there is one.
    pub fn bytes_exact(&mut self, len: usize) -> (r: Result<&'a [u8], FieldError>)
        ensures
            r is Ok <==> blob_fits(old(self).remaining(), len as nat),
            match r {
                Ok(b) => {
                    &&& b@ == old(self).remaining().take(len as int)
                    &&& final(self).follows(old(self), after(old(self).remaining(), len as int))
                },
                Err(e) => {
                    &&& e.offset == old(self).offset()
                    &&& e.fault == Fault::Width
                    &&& final(self).follows(old(self), old(self).remaining())
                },
            },
    {
        proof {
            use_type_invariant(&*self);
        }
        let buf: &'a [u8] = self.buf;
        let from: usize = self.pos;
        let left: usize = buf.len() - from;
        if len > left || (len < left && buf[from + len] != COMMA) {
            return Err(FieldError { offset: from, fault: Fault::Width });
        }
        let r: &'a [u8] = slice_subrange(buf, from, from + len);
        let next: usize = if len < left {
            from + len + 1
        } else {
            buf.len()
        };
        self.pos = next;
        proof {
            let rem = buf@.skip(from as int);
            assert(r@ =~= rem.take(len as int));
            assert(buf@.skip(next as int) =~= after(rem, len as int));
        }
        Ok(r)
    }

    /// Reads a delimited field as an unsigned decimal number of at most 32
    /// bits. The field is consumed whether or not it holds one.
    pub fn unsigned(&mut self) -> (r: Result<u32, FieldError>)
        ensures
            final(self).follows(old(self), after_delimited(old(self).remaining())),
            match r {
                Ok(v) => decimal_value(delimited(old(self).remaining())) == Some(v),
                Err(e) => {
                    &&& decimal_value(delimited(old(self).remaining())) is None
                    &&& e.offset == old(self).offset()
                    &&& e.fault == Fault::Number
                },
            },
    {
        let at: usize = self.pos;
        let field: &[u8] = self.bytes();
        match parse_unsigned(field) {
            Some(v) => Ok(v),
            None => Err(FieldError { offset: at, fault: Fault::Number }),
        }
    }

    /// Reads a delimited field as text, up to its first null byte. The field
    /// is consumed whether or not it is UTF-8.
    pub fn string(&mut self) -> (r: Result<String, FieldError>)
        ensures
            final(self).follows(old(self), after_delimited(old(self).remaining())),
            match r {
                Ok(t) => text_value(delimited(old(self).remaining())) == Some(t@),
                Err(e) => {
                    &&& text_value(delimited(old(self).remaining())) is None
                    &&& e.offset == old(self).offset()
                    &&& e.fault == Fault::Text
                },
            },
    {
        let at: usize = self.pos;
        let field: &[u8] = self.bytes();
        match parse_text(field) {
            Some(t) => Ok(t),
            None => Err(FieldError { offset: at, fault: Fault::Text }),
        }
    }

    /// Reads a binary field of four bytes as a big-endian binary32 pattern.
    pub fn float(&mut self) -> (r: Result<Binary32, FieldError>)
        ensures
            r is Ok <==> blob_fits(old(self).remaining(), 4),
            match r {
                Ok(v) => {
                    &&& v.bits == be32(old(self).remaining().take(4))
                    &&& final(self).follows(old(self), after(old(self).remaining(), 4))
                },
                Err(e) => {
                    &&& e.offset == old(self).offset()
                    &&& e.fault == Fault::Width
                    &&& final(self).follows(old(self), old(self).remaining())
                },
            },
    {
        match self.bytes_exact(4) {
            Ok(b) => Ok(Binary32 { bits: word_be(b) }),
            Err(e) => Err(e),
        }
    }

    /// Reads a binary field of eight bytes as a big-endian binary64 pattern.
    pub fn double(&mut self) -> (r: Result<Binary64, FieldError>)
        ensures
            r is Ok <==> blob_fits(old(self).remaining(), 8),
            match r {
                Ok(v) => {
                    &&& v.bits == be64(old(self).remaining().take(8))
                    &&& final(self).follows(old(self), after(old(self).remaining(), 8))
                },
                Err(e) => {
                    &&& e.offset == old(self).offset()
                    &&& e.fault == Fault::Width
                    &&& final(self).follows(old(self), old(self).remaining())
                },
            },
    {
        match self.bytes_exact(8) {
            Ok(b) => Ok(Binary64 { bits: dword_be(b) }),
            Err(e) => Err(e),
        }
    }

    /// Reads one binary field of `4 * LEN` bytes as `LEN` big-endian binary32
    /// patterns side by side, with no comma between them.
    pub fn float_array<const LEN: usize>(&mut self) -> (r: Result<[Binary32; LEN], FieldError>)
        ensures
            r is Ok <==> blob_fits(old(self).remaining(), (4 * LEN) as nat),
            match r {
                Ok(a) => {
                    &&& forall|i: int|
                        0 <= i < LEN ==> (#[trigger] a@[i]).bits == pattern_at(
                            old(self).remaining().take(4 * LEN),
                            i,
                        )
                    &&& final(self).follows(old(self), after(old(self).remaining(), 4 * LEN))
                },
                Err(e) => {
                    &&& e.offset == old(self).offset()
                    &&& e.fault == Fault::Width
                    &&& final(self).follows(old(self), old(self).remaining())
                },
            },
    {
        proof {
            use_type_invariant(&*self);
        }
        let total: usize = self.buf.len();
        let width: usize = match LEN.checked_mul(4) {
            Some(w) => w,
            None => {
                assert(self.remaining().len() <= total);
                return Err(FieldError { offset: self.pos, fault: Fault::Width });
            },
        };
        let blob: &[u8] = match self.bytes_exact(width) {
            Ok(b) => b,
            Err(e) => {
                return Err(e);
            },
        };
        let mut out: [Binary32; LEN] = [Binary32 { bits: 0 };LEN];
        let mut i: usize = 0;
        while i < LEN
            invariant
                i <= LEN,
                width == 4 * LEN,
                blob@.len() == width,
                forall|j: int| 0 <= j < i ==> (#[trigger] out@[j]).bits == pattern_at(blob@, j),
            decreases LEN - i,
        {
            let w: u32 = word_be(slice_subrange(blob, 4 * i, 4 * i + 4));
            out[i] = Binary32 { bits: w };
            i = i + 1;
        }
        Ok(out)
    }

    /// Reads every field that is left and keeps those that are not empty,
    /// each as the bytes that the device sent. Nothing remains afterwards.
    pub fn collect_remaining(&mut self) -> (r: Vec<HVec>)
        ensures
            r@.len() == nonempty_fields(old(self).remaining()).len(),
            forall|i: int|
                0 <= i < r@.len() ==> (#[trigger] r@[i])@ == nonempty_fields(
                    old(self).remaining(),
                )[i],
            final(self).follows(old(self), Seq::empty()),
    {
        let mut ret: Vec<HVec> = Vec::new();
        let ghost all = nonempty_fields(self.remaining());
        while !self.is_empty()
            invariant
                self.offset() + self.remaining().len() == old(self).offset() + old(
                    self,
                ).remaining().len(),
                all == nonempty_fields(old(self).remaining()),
                ret@.len() + nonempty_fields(self.remaining()).len() == all.len(),
                forall|i: int| 0 <= i < ret@.len() ==> (#[trigger] ret@[i])@ == all[i],
                forall|i: int|
                    0 <= i < nonempty_fields(self.remaining()).len() ==> all[ret@.len() + i]
                        == #[trigger] nonempty_fields(self.remaining())[i],
            decreases self.remaining().len(),
        {
            let ghost before = self.remaining();
            proof {
                lemma_field_len(before);
            }
            let b: &[u8] = self.bytes();
            if b.len() > 0 {
                let ghost rest = nonempty_fields(self.remaining());
                proof {
                    assert(nonempty_fields(before) =~= seq![b@] + rest);
                    assert(nonempty_fields(before)[0] == b@);
                    assert forall|i: int| 0 <= i < rest.len() implies all[ret@.len() + 1 + i]
                        == #[trigger] rest[i] by {
                        assert(nonempty_fields(before)[i + 1] == rest[i]);
                    }
                }
                ret.push(HVec(vstd::slice::slice_to_vec(b)));
            }
        }
        proof {
            assert(self.remaining() =~= Seq::<u8>::empty());
        }
        ret
    }
}

} // verus!
