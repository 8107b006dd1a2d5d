//! The secondary record of one capture: fidelity and gamut indices and the
//! colour vector table.

use vstd::prelude::*;
use crate::bytes::Binary32;
use crate::error::Error;
use crate::reader::RecordReader;
use crate::schema::{bits32_at, decode_error, unsigned_at, Tag};

verus! {

/// The secondary record of one capture. Numbers that the device sends in
/// binary are kept as bit patterns.
#[derive(Clone, Copy, Debug, PartialEq, Eq)]
pub struct CaptureData {
    /// TM-30 fidelity index.
    pub tm_30_rf: Binary32,
    /// TM-30 gamut index.
    pub tm_30_rg: Binary32,
    /// One row for each bin: the chromaticity x and y of the reference
    /// illuminant, then those of the measured one.
    pub illuminants: [[Binary32; 4]; 16],
    /// Spectral similarity index against tungsten.
    pub ssit: Binary32,
    /// Spectral similarity index against daylight.
    pub ssid: Binary32,
    pub unk3: u32,
    pub unk4: Binary32,
    pub unk5: u32,
    pub unk6: Binary32,
    /// Television lighting consistency index.
    pub tlci: Binary32,
    pub unk8: u32,
    pub unk9: [Binary32; 3],
    pub unk10: u32,
    pub unk11: u32,
}

impl CaptureData {
    /// True when the scalar fields of this record are what `payload` holds.
    pub open spec fn describes_scalars(&self, payload: Seq<u8>) -> bool {
        &&& self.tm_30_rf.bits == bits32_at(Tag::Meb, payload, 0)
        &&& self.tm_30_rg.bits == bits32_at(Tag::Meb, payload, 1)
        &&& self.ssit.bits == bits32_at(Tag::Meb, payload, 66)
        &&& self.ssid.bits == bits32_at(Tag::Meb, payload, 67)
        &&& self.unk3 == unsigned_at(Tag::Meb, payload, 68)
        &&& self.unk4.bits == bits32_at(Tag::Meb, payload, 69)
        &&& self.unk5 == unsigned_at(Tag::Meb, payload, 70)
        &&& self.unk6.bits == bits32_at(Tag::Meb, payload, 71)
        &&& self.tlci.bits == bits32_at(Tag::Meb, payload, 72)
        &&& self.unk8 == unsigned_at(Tag::Meb, payload, 73)
        &&& self.unk10 == unsigned_at(Tag::Meb, payload, 77)
        &&& self.unk11 == unsigned_at(Tag::Meb, payload, 78)
    }

    /// True when row `row` of the table is what `payload` holds.
    pub open spec fn describes_row(row: [Binary32; 4], payload: Seq<u8>, at: int) -> bool {
        forall|col: int|
            0 <= col < 4 ==> (#[trigger] row@[col]).bits == bits32_at(
                Tag::Meb,
                payload,
                (2 + 4 * at + col) as nat,
            )
    }

    /// True when the array fields of this record are what `payload` holds.
    pub open spec fn describes_arrays(&self, payload: Seq<u8>) -> bool {
        &&& forall|row: int|
            0 <= row < 16 ==> Self::describes_row(#[trigger] self.illuminants@[row], payload, row)
        &&& forall|i: int|
            0 <= i < 3 ==> (#[trigger] self.unk9@[i]).bits == bits32_at(
                Tag::Meb,
                payload,
                (74 + i) as nat,
            )
    }

    /// True when this record is what `payload` holds.
    pub open spec fn describes(&self, payload: Seq<u8>) -> bool {
        &&& self.describes_scalars(payload)
        &&& self.describes_arrays(payload)
    }

    /// Decodes the payload of a secondary record. Either every field decodes,
    /// or the first one that does not is reported and no record is made.
    /// What follows the last field is not looked at.
    pub fn parse(i: &[u8]) -> (r: Result<CaptureData, Error>)
        ensures
            match r {
                Ok(rec) => decode_error(Tag::Meb, i@) is None && rec.describes(i@),
                Err(e) => decode_error(Tag::Meb, i@) == Some(e),
            },
    {
        let zero = Binary32 { bits: 0 };
        let mut p = RecordReader::open(i, Tag::Meb)?;
        let tm_30_rf: Binary32 = p.bits32()?;
        let tm_30_rg: Binary32 = p.bits32()?;
        let mut illuminants: [[Binary32; 4]; 16] = [[zero;4];16];
        let mut row: usize = 0;
        while row < 16
            invariant
                row <= 16,
                p.wf(),
                p.tag() == Tag::Meb,
                p.payload() == i@,
                p.count() == 2 + 4 * row,
                forall|k: int|
                    0 <= k < row ==> Self::describes_row(#[trigger] illuminants@[k], i@, k),
            decreases 16 - row,
        {
            let a: Binary32 = p.bits32()?;
            let b: Binary32 = p.bits32()?;
            let c: Binary32 = p.bits32()?;
            let d: Binary32 = p.bits32()?;
            let cells: [Binary32; 4] = [a, b, c, d];
            assert(Self::describes_row(cells, i@, row as int));
            illuminants[row] = cells;
            row = row + 1;
        }
        let ssit: Binary32 = p.bits32()?;
        let ssid: Binary32 = p.bits32()?;
        let unk3: u32 = p.unsigned()?;
        let unk4: Binary32 = p.bits32()?;
        let unk5: u32 = p.unsigned()?;
        let unk6: Binary32 = p.bits32()?;
        let tlci: Binary32 = p.bits32()?;
        let unk8: u32 = p.unsigned()?;
        let unk9_0: Binary32 = p.bits32()?;
        let unk9_1: Binary32 = p.bits32()?;
        let unk9_2: Binary32 = p.bits32()?;
        let unk9: [Binary32; 3] = [unk9_0, unk9_1, unk9_2];
        let unk10: u32 = p.unsigned()?;
        let unk11: u32 = p.unsigned()?;
        proof {
            p.lemma_complete();
        }
        let rec = CaptureData {
            tm_30_rf,
            tm_30_rg,
            illuminants,
            ssit,
            ssid,
            unk3,
            unk4,
            unk5,
            unk6,
            tlci,
            unk8,
            unk9,
            unk10,
            unk11,
        };
        assert(rec.describes_scalars(i@));
        assert(rec.describes_arrays(i@));
        Ok(rec)
    }
}

} // verus!
