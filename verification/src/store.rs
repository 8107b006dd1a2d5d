//! The ordered map that the capture index is kept in.

use std::collections::BTreeMap;
use vstd::prelude::*;
use crate::capture_info::CaptureInfo;

verus! {

/// One capture of the index.
#[derive(Clone, Debug, PartialEq, Eq)]
pub struct IndexEntry {
    /// The measurement record of the capture.
    pub info: CaptureInfo,
    /// The place of the capture in its title, counted from one.
    pub local_capture_id: u32,
    /// The title that the capture is filed under, counted from one.
    pub title_id: u32,
}

/// Files `entry` under `global_capture_id`. An entry that was filed under
/// the same id before is replaced.
pub fn file(index: &mut BTreeMap<u32, IndexEntry>, global_capture_id: u32, entry: IndexEntry)
    ensures
        final(index)@ == old(index)@.insert(global_capture_id, entry),
{
    broadcast use vstd::laws_cmp::group_laws_cmp;

    let _ = index.insert(global_capture_id, entry);
}

} // verus!
