//! Reading a spectrum: where its peak lies.
//!
//! The samples are bit patterns, so they are ranked by the total order that
//! IEEE 754 defines on patterns: negative numbers below positive ones, and
//! among numbers of one sign by magnitude, so that negative zero comes just
//! below positive zero and a NaN beyond the infinity of its sign.

use vstd::prelude::*;
use crate::bytes::Binary32;

verus! {

/// The wavelength of the first sample of a spectrum, in nanometres.
pub const FIRST_WAVELENGTH: u32 = 380;

/// The rank of a pattern in the total order: a pattern comes before another
/// exactly when its rank is smaller.
pub open spec fn rank(bits: u32) -> int {
    if bits >= 0x8000_0000 {
        -1 - (bits - 0x8000_0000)
    } else {
        bits as int
    }
}

/// True when sample `i` is the peak of `data`: no sample ranks above it, and
/// of the samples that rank as high it is the last.
pub open spec fn is_peak(data: Seq<Binary32>, i: int) -> bool {
    &&& 0 <= i < data.len()
    &&& forall|j: int| 0 <= j < data.len() ==> rank(#[trigger] data[j].bits) <= rank(data[i].bits)
    &&& forall|j: int| i < j < data.len() ==> rank(#[trigger] data[j].bits) < rank(data[i].bits)
}

/// The rank of a sample.
pub fn rank_of(v: Binary32) -> (k: i64)
    ensures
        k == rank(v.bits),
{
    if v.bits >= 0x8000_0000 {
        -1 - ((v.bits - 0x8000_0000) as i64)
    } else {
        v.bits as i64
    }
}

/// The place of the peak of a spectrum, or nothing where it has no sample.
pub fn peak_index(data: &[Binary32]) -> (r: Option<usize>)
    ensures
        match r {
            Some(i) => is_peak(data@, i as int),
            None => data@.len() == 0,
        },
{
    let n: usize = data.len();
    if n == 0 {
        return None;
    }
    let mut best: usize = 0;
    let mut best_rank: i64 = rank_of(data[0]);
    let mut i: usize = 1;
    while i < n
        invariant
            n == data@.len(),
            1 <= i <= n,
            is_peak(data@.take(i as int), best as int),
            best_rank == rank(data@[best as int].bits),
        decreases n - i,
    {
        let k: i64 = rank_of(data[i]);
        let ghost before = data@.take(i as int);
        let ghost now = data@.take(i + 1);
        proof {
            assert forall|j: int| 0 <= j < i implies now[j] == before[j] by {}
            assert(forall|j: int| 0 <= j < i ==> rank(#[trigger] before[j].bits) <= best_rank);
        }
        if k >= best_rank {
            best = i;
            best_rank = k;
        }
        i = i + 1;
        proof {
            assert forall|j: int| 0 <= j < now.len() implies rank(#[trigger] now[j].bits) <= rank(
                now[best as int].bits,
            ) by {
                if j < i - 1 {
                    assert(rank(before[j].bits) <= rank(now[best as int].bits));
                }
            }
            assert forall|j: int| best < j < now.len() implies rank(#[trigger] now[j].bits) < rank(
                now[best as int].bits,
            ) by {
                if j < i - 1 {
                    assert(rank(before[j].bits) < rank(now[best as int].bits));
                }
            }
        }
    }
    proof {
        assert(data@.take(n as int) =~= data@);
    }
    Some(best)
}

/// The wavelength at which a spectrum sampled every nanometre from
/// `FIRST_WAVELENGTH` on has its peak, in nanometres.
pub fn peak_wavelength(data: &[Binary32; 401]) -> (nm: u32)
    ensures
        380 <= nm <= 780,
        is_peak(data@, nm - 380),
{
    match peak_index(data.as_slice()) {
        Some(i) => FIRST_WAVELENGTH + i as u32,
        None => FIRST_WAVELENGTH,
    }
}

} // verus!
