//! The measurement record of one capture.

use vstd::prelude::*;
use crate::bytes::{Binary32, Binary64, HVec};
use crate::error::Error;
use crate::reader::RecordReader;
use crate::schema::{
    bits32_at, bits64_at, decode_error, pattern_in, raw_at, tail_of, text_at, unsigned_at, Tag,
};

verus! {

/// The colorimetric measurement of one capture. Numbers that the device
/// sends in binary are kept as bit patterns; fields of unknown meaning are
/// kept as they came.
#[derive(Clone, Debug, PartialEq, Eq)]
pub struct CaptureInfo {
    pub unk0: u32,
    /// The name of the title that the capture is filed under.
    pub title: String,
    pub unk1: u32,
    pub unk2: u32,
    pub unk3: u32,
    pub unk4: u32,
    pub unk5: HVec,
    pub unk6: u32,
    pub unk7: HVec,
    pub unk8: u32,
    /// Correlated colour temperature, in kelvin.
    pub cct_k: Binary32,
    /// Distance from the black-body locus.
    pub uv_angle: Binary32,
    pub unk11: u32,
    pub unks: [HVec; 6],
    /// Illuminance, in lux.
    pub illum_lx: Binary32,
    /// Illuminance, in foot-candles.
    pub illum_fc: Binary32,
    pub tristimulus_x: Binary64,
    pub tristimulus_y: Binary64,
    pub tristimulus_z: Binary64,
    pub cie1931_x: Binary32,
    pub cie1931_y: Binary32,
    pub cie1976_up: Binary32,
    pub unk12: Binary32,
    pub unk13: Binary32,
    pub cie1976_vp: Binary32,
    /// Dominant wavelength, in nanometres.
    pub dominant_wavelength: Binary32,
    /// Excitation purity, in percent.
    pub purity: Binary32,
    /// General colour rendering index.
    pub cri_ra: Binary32,
    /// The special colour rendering indices R1 to R15.
    pub cri: [Binary32; 15],
    /// Spectral power in steps of 5 nm, from 380 nm.
    pub spectral_data_5nm: [Binary32; 81],
    /// Spectral power in steps of 1 nm, from 380 nm.
    pub spectral_data_1nm: [Binary32; 401],
    pub unk14: [u32; 4],
    pub unk15: [Binary32; 2],
    /// Photosynthetic photon flux density.
    pub ppfd: Binary32,
    /// The fields behind the last one that is understood, as they came.
    pub remaining: Vec<HVec>,
}

impl CaptureInfo {
    /// True when the scalar fields of this record are what `payload` holds.
    pub open spec fn describes_scalars(&self, payload: Seq<u8>) -> bool {
        &&& self.unk0 == unsigned_at(Tag::Mrb, payload, 0)
        &&& self.title@ == text_at(Tag::Mrb, payload, 1)
        &&& self.unk1 == unsigned_at(Tag::Mrb, payload, 2)
        &&& self.unk2 == unsigned_at(Tag::Mrb, payload, 3)
        &&& self.unk3 == unsigned_at(Tag::Mrb, payload, 4)
        &&& self.unk4 == unsigned_at(Tag::Mrb, payload, 5)
        &&& self.unk5@ == raw_at(Tag::Mrb, payload, 6)
        &&& self.unk6 == unsigned_at(Tag::Mrb, payload, 7)
        &&& self.unk7@ == raw_at(Tag::Mrb, payload, 8)
        &&& self.unk8 == unsigned_at(Tag::Mrb, payload, 9)
        &&& self.cct_k.bits == bits32_at(Tag::Mrb, payload, 10)
        &&& self.uv_angle.bits == bits32_at(Tag::Mrb, payload, 11)
        &&& self.unk11 == unsigned_at(Tag::Mrb, payload, 12)
        &&& self.illum_lx.bits == bits32_at(Tag::Mrb, payload, 19)
        &&& self.illum_fc.bits == bits32_at(Tag::Mrb, payload, 20)
        &&& self.tristimulus_x.bits == bits64_at(Tag::Mrb, payload, 21)
        &&& self.tristimulus_y.bits == bits64_at(Tag::Mrb, payload, 22)
        &&& self.tristimulus_z.bits == bits64_at(Tag::Mrb, payload, 23)
        &&& self.cie1931_x.bits == bits32_at(Tag::Mrb, payload, 24)
        &&& self.cie1931_y.bits == bits32_at(Tag::Mrb, payload, 25)
        &&& self.cie1976_up.bits == bits32_at(Tag::Mrb, payload, 26)
        &&& self.unk12.bits == bits32_at(Tag::Mrb, payload, 27)
        &&& self.unk13.bits == bits32_at(Tag::Mrb, payload, 28)
        &&& self.cie1976_vp.bits == bits32_at(Tag::Mrb, payload, 29)
        &&& self.dominant_wavelength.bits == bits32_at(Tag::Mrb, payload, 30)
        &&& self.purity.bits == bits32_at(Tag::Mrb, payload, 31)
        &&& self.cri_ra.bits == bits32_at(Tag::Mrb, payload, 32)
        &&& self.ppfd.bits == bits32_at(Tag::Mrb, payload, 56)
    }

    /// True when the array fields of this record are what `payload` holds.
    pub open spec fn describes_arrays(&self, payload: Seq<u8>) -> bool {
        &&& forall|i: int|
            0 <= i < 6 ==> (#[trigger] self.unks@[i])@ == raw_at(Tag::Mrb, payload, (13 + i) as nat)
        &&& forall|i: int|
            0 <= i < 15 ==> (#[trigger] self.cri@[i]).bits == bits32_at(
                Tag::Mrb,
                payload,
                (33 + i) as nat,
            )
        &&& forall|i: int|
            0 <= i < 81 ==> (#[trigger] self.spectral_data_5nm@[i]).bits == pattern_in(
                Tag::Mrb,
                payload,
                48,
                i,
            )
        &&& forall|i: int|
            0 <= i < 401 ==> (#[trigger] self.spectral_data_1nm@[i]).bits == pattern_in(
                Tag::Mrb,
                payload,
                49,
                i,
            )
        &&& forall|i: int|
            0 <= i < 4 ==> #[trigger] self.unk14@[i] == unsigned_at(
                Tag::Mrb,
                payload,
                (50 + i) as nat,
            )
        &&& forall|i: int|
            0 <= i < 2 ==> (#[trigger] self.unk15@[i]).bits == bits32_at(
                Tag::Mrb,
                payload,
                (54 + i) as nat,
            )
    }

    /// True when the uninterpreted tail of this record is what `payload`
    /// holds behind its last understood field.
    pub open spec fn describes_tail(&self, payload: Seq<u8>) -> bool {
        &&& self.remaining@.len() == tail_of(Tag::Mrb, payload).len()
        &&& forall|i: int|
            0 <= i < self.remaining@.len() ==> (#[trigger] self.remaining@[i])@ == tail_of(
                Tag::Mrb,
                payload,
            )[i]
    }

    /// True when this record is what `payload` holds.
    pub open spec fn describes(&self, payload: Seq<u8>) -> bool {
        &&& self.describes_scalars(payload)
        &&& self.describes_arrays(payload)
        &&& self.describes_tail(payload)
    }

    /// Decodes the payload of a measurement record. Either every field
    /// decodes, or the first one that does not is reported and no record is
    /// made.
    pub fn parse(i: &[u8]) -> (r: Result<CaptureInfo, Error>)
        ensures
            match r {
                Ok(rec) => decode_error(Tag::Mrb, i@) is None && rec.describes(i@),
                Err(e) => decode_error(Tag::Mrb, i@) == Some(e),
            },
    {
        let mut p = RecordReader::open(i, Tag::Mrb)?;
        let unk0: u32 = p.unsigned()?;
        let title: String = p.text()?;
        let unk1: u32 = p.unsigned()?;
        let unk2: u32 = p.unsigned()?;
        let unk3: u32 = p.unsigned()?;
        let unk4: u32 = p.unsigned()?;
        let unk5: HVec = p.raw();
        let unk6: u32 = p.unsigned()?;
        let unk7: HVec = p.raw();
        let unk8: u32 = p.unsigned()?;
        let cct_k: Binary32 = p.bits32()?;
        let uv_angle: Binary32 = p.bits32()?;
        let unk11: u32 = p.unsigned()?;
        let unks0: HVec = p.raw();
        let unks1: HVec = p.raw();
        let unks2: HVec = p.raw();
        let unks3: HVec = p.raw();
        let unks4: HVec = p.raw();
        let unks5: HVec = p.raw();
        let unks: [HVec; 6] = [unks0, unks1, unks2, unks3, unks4, unks5];
        let illum_lx: Binary32 = p.bits32()?;
        let illum_fc: Binary32 = p.bits32()?;
        let tristimulus_x: Binary64 = p.bits64()?;
        let tristimulus_y: Binary64 = p.bits64()?;
        let tristimulus_z: Binary64 = p.bits64()?;
        let cie1931_x: Binary32 = p.bits32()?;
        let cie1931_y: Binary32 = p.bits32()?;
        let cie1976_up: Binary32 = p.bits32()?;
        let unk12: Binary32 = p.bits32()?;
        let unk13: Binary32 = p.bits32()?;
        let cie1976_vp: Binary32 = p.bits32()?;
        let dominant_wavelength: Binary32 = p.bits32()?;
        let purity: Binary32 = p.bits32()?;
        let cri_ra: Binary32 = p.bits32()?;
        let mut cri: [Binary32; 15] = [Binary32 { bits: 0 };15];
        let mut j: usize = 0;
        while j < 15
            invariant
                j <= 15,
                p.wf(),
                p.tag() == Tag::Mrb,
                p.payload() == i@,
                p.count() == 33 + j,
                forall|k: int|
                    0 <= k < j ==> (#[trigger] cri@[k]).bits == bits32_at(
                        Tag::Mrb,
                        i@,
                        (33 + k) as nat,
                    ),
            decreases 15 - j,
        {
            let v: Binary32 = p.bits32()?;
            cri[j] = v;
            j = j + 1;
        }
        let spectral_data_5nm: [Binary32; 81] = p.patterns::<81>()?;
        let spectral_data_1nm: [Binary32; 401] = p.patterns::<401>()?;
        let unk14_0: u32 = p.unsigned()?;
        let unk14_1: u32 = p.unsigned()?;
        let unk14_2: u32 = p.unsigned()?;
        let unk14_3: u32 = p.unsigned()?;
        let unk14: [u32; 4] = [unk14_0, unk14_1, unk14_2, unk14_3];
        let unk15_0: Binary32 = p.bits32()?;
        let unk15_1: Binary32 = p.bits32()?;
        let unk15: [Binary32; 2] = [unk15_0, unk15_1];
        let ppfd: Binary32 = p.bits32()?;
        proof {
            p.lemma_complete();
        }
        let remaining: Vec<HVec> = p.tail();
        let rec = CaptureInfo {
            unk0,
            title,
            unk1,
            unk2,
            unk3,
            unk4,
            unk5,
            unk6,
            unk7,
            unk8,
            cct_k,
            uv_angle,
            unk11,
            unks,
            illum_lx,
            illum_fc,
            tristimulus_x,
            tristimulus_y,
            tristimulus_z,
            cie1931_x,
            cie1931_y,
            cie1976_up,
            unk12,
            unk13,
            cie1976_vp,
            dominant_wavelength,
            purity,
            cri_ra,
            cri,
            spectral_data_5nm,
            spectral_data_1nm,
            unk14,
            unk15,
            ppfd,
            remaining,
        };
        assert(rec.describes_scalars(i@));
        assert(rec.describes_arrays(i@));
        assert(rec.describes_tail(i@));
        Ok(rec)
    }
}

} // verus!
