//! The three short records: the storage summary, a title, and the
//! device-wide id of a capture.

use vstd::prelude::*;
use crate::error::Error;
use crate::reader::RecordReader;
use crate::schema::{decode_error, text_at, unsigned_at, Tag};

verus! {

/// The storage summary of the device.
#[derive(Clone, Copy, Debug, PartialEq, Eq, Structural)]
pub struct StorageInfoResp {
    /// A counter of unknown meaning.
    pub _unk1: u32,
    /// The number of captures on the device, over all titles.
    pub num_captures: u32,
    /// The number of titles on the device.
    pub num_titles: u32,
}

impl StorageInfoResp {
    /// True when this record is what `payload` holds.
    pub open spec fn describes(&self, payload: Seq<u8>) -> bool {
        &&& self._unk1 == unsigned_at(Tag::Mib, payload, 0)
        &&& self.num_captures == unsigned_at(Tag::Mib, payload, 1)
        &&& self.num_titles == unsigned_at(Tag::Mib, payload, 2)
    }

    /// Decodes the payload of a storage summary: three numbers.
    pub fn parse(i: &[u8]) -> (r: Result<StorageInfoResp, Error>)
        ensures
            match r {
                Ok(rec) => decode_error(Tag::Mib, i@) is None && rec.describes(i@),
                Err(e) => decode_error(Tag::Mib, i@) == Some(e),
            },
    {
        let mut p = RecordReader::open(i, Tag::Mib)?;
        let _unk1: u32 = p.unsigned()?;
        let num_captures: u32 = p.unsigned()?;
        let num_titles: u32 = p.unsigned()?;
        proof {
            p.lemma_complete();
        }
        Ok(StorageInfoResp { _unk1, num_captures, num_titles })
    }
}

/// One title: a named group of captures.
#[derive(Clone, Debug, PartialEq, Eq)]
pub struct TitleInfo {
    /// The name of the title, without the null bytes that pad it.
    pub name: String,
    /// The number of captures filed under the title.
    pub num_captures: u32,
}

impl TitleInfo {
    /// True when this record is what `payload` holds.
    pub open spec fn describes(&self, payload: Seq<u8>) -> bool {
        &&& self.name@ == text_at(Tag::Gtb, payload, 0)
        &&& self.num_captures == unsigned_at(Tag::Gtb, payload, 1)
    }

    /// Decodes the payload of a title: its name and its number of captures.
    pub fn parse(i: &[u8]) -> (r: Result<TitleInfo, Error>)
        ensures
            match r {
                Ok(rec) => decode_error(Tag::Gtb, i@) is None && rec.describes(i@),
                Err(e) => decode_error(Tag::Gtb, i@) == Some(e),
            },
    {
        let mut p = RecordReader::open(i, Tag::Gtb)?;
        let name: String = p.text()?;
        let num_captures: u32 = p.unsigned()?;
        proof {
            p.lemma_complete();
        }
        Ok(TitleInfo { name, num_captures })
    }
}

/// Decodes the payload that answers a lookup of a capture by title and place:
/// the device-wide id of the capture.
pub fn parse_global_capture_id(i: &[u8]) -> (r: Result<u32, Error>)
    ensures
        match r {
            Ok(id) => decode_error(Tag::Gab, i@) is None && id == unsigned_at(Tag::Gab, i@, 0),
            Err(e) => decode_error(Tag::Gab, i@) == Some(e),
        },
{
    let mut p = RecordReader::open(i, Tag::Gab)?;
    let id: u32 = p.unsigned()?;
    proof {
        p.lemma_complete();
    }
    Ok(id)
}

} // verus!
