//! Byte-level vocabulary shared by the field grammar and the records.

use vstd::prelude::*;

verus! {

/// The field separator of the wire format.
pub const COMMA: u8 = 0x2c;

/// The pattern of an IEEE 754 binary32 number, as the device sent it.
#[derive(Clone, Copy, Debug, PartialEq, Eq, Structural)]
pub struct Binary32 {
    pub bits: u32,
}

/// The pattern of an IEEE 754 binary64 number, as the device sent it.
#[derive(Clone, Copy, Debug, PartialEq, Eq, Structural)]
pub struct Binary64 {
    pub bits: u64,
}

/// A field kept as the bytes that the device sent, uninterpreted.
#[derive(Clone, Debug, PartialEq, Eq)]
pub struct HVec(pub Vec<u8>);

impl View for HVec {
    type V = Seq<u8>;

    open spec fn view(&self) -> Seq<u8> {
        self.0@
    }
}

impl From<Vec<u8>> for HVec {
    fn from(value: Vec<u8>) -> (r: HVec) {
        HVec(value)
    }
}

impl vstd::std_specs::convert::FromSpecImpl<Vec<u8>> for HVec {
    open spec fn obeys_from_spec() -> bool {
        true
    }

    open spec fn from_spec(value: Vec<u8>) -> HVec {
        HVec(value)
    }
}

/// The number of bytes of `s` before the first byte equal to `stop`, or the
/// length of `s` where no byte equals it.
pub open spec fn span(s: Seq<u8>, stop: u8) -> int
    decreases s.len(),
{
    if s.len() == 0 || s[0] == stop {
        0
    } else {
        1 + span(s.skip(1), stop)
    }
}

/// The span lies inside `s`, holds no `stop`, and ends at a `stop` unless it
/// reaches the end.
pub proof fn lemma_span(s: Seq<u8>, stop: u8)
    ensures
        0 <= span(s, stop) <= s.len(),
        forall|i: int| 0 <= i < span(s, stop) ==> s[i] != stop,
        span(s, stop) < s.len() ==> s[span(s, stop)] == stop,
    decreases s.len(),
{
    if s.len() == 0 || s[0] == stop {
    } else {
        let t = s.skip(1);
        lemma_span(t, stop);
        assert forall|i: int| 0 <= i < span(s, stop) implies s[i] != stop by {
            if i > 0 {
                assert(s[i] == t[i - 1]);
            }
        }
        if span(s, stop) < s.len() {
            assert(s[span(s, stop)] == t[span(t, stop)]);
        }
    }
}

/// The place of the first `stop` determines the span.
pub proof fn lemma_span_is(s: Seq<u8>, stop: u8, k: int)
    requires
        0 <= k <= s.len(),
        forall|i: int| 0 <= i < k ==> s[i] != stop,
        k < s.len() ==> s[k] == stop,
    ensures
        span(s, stop) == k,
{
    lemma_span(s, stop);
    let f = span(s, stop);
    if f < k {
        assert(s[f] == stop);
    } else if k < f {
        assert(s[k] != stop);
    }
}

/// Finds the first byte equal to `stop`, looking from `from` on.
pub(crate) fn span_from(b: &[u8], from: usize, stop: u8) -> (n: usize)
    requires
        from <= b@.len(),
    ensures
        n as int == span(b@.skip(from as int), stop),
        from + n <= b@.len(),
{
    let len: usize = b.len();
    let mut i: usize = from;
    while i < len && b[i] != stop
        invariant
            len == b@.len(),
            from <= i <= len,
            forall|j: int| from <= j < i ==> b@[j] != stop,
        decreases len - i,
    {
        i = i + 1;
    }
    proof {
        lemma_span_is(b@.skip(from as int), stop, i - from);
    }
    i - from
}

/// The value of four bytes read as a big-endian unsigned integer.
pub open spec fn be32(b: Seq<u8>) -> nat
    recommends
        b.len() == 4,
{
    (b[0] as nat) * 0x100_0000 + (b[1] as nat) * 0x1_0000 + (b[2] as nat) * 0x100 + (b[3] as nat)
}

/// The value of eight bytes read as a big-endian unsigned integer.
pub open spec fn be64(b: Seq<u8>) -> nat
    recommends
        b.len() == 8,
{
    be32(b.take(4)) * 0x1_0000_0000 + be32(b.skip(4))
}

/// Assembles four bytes, most significant first, into one word.
pub(crate) fn word_be(b: &[u8]) -> (w: u32)
    requires
        b@.len() == 4,
    ensures
        w as nat == be32(b@),
{
    let b0: u32 = b[0] as u32;
    let b1: u32 = b[1] as u32;
    let b2: u32 = b[2] as u32;
    let b3: u32 = b[3] as u32;
    b0 * 0x100_0000 + b1 * 0x1_0000 + b2 * 0x100 + b3
}

/// Assembles eight bytes, most significant first, into one double word.
pub(crate) fn dword_be(b: &[u8]) -> (w: u64)
    requires
        b@.len() == 8,
    ensures
        w as nat == be64(b@),
{
    let hi: u32 = word_be(vstd::slice::slice_subrange(b, 0, 4));
    let lo: u32 = word_be(vstd::slice::slice_subrange(b, 4, 8));
    proof {
        assert(b@.take(4) =~= b@.subrange(0, 4));
        assert(b@.skip(4) =~= b@.subrange(4, 8));
    }
    (hi as u64) * 0x1_0000_0000 + (lo as u64)
}

} // verus!
