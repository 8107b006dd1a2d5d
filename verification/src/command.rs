//! The commands of the protocol: ASCII mnemonics, some of them followed by
//! numbers of four digits.

use vstd::prelude::*;
use crate::bytes::COMMA;
use crate::decimal::{padded4, push_padded4};

verus! {

/// The bytes of the command that asks for the storage summary: `MI`.
pub open spec fn storage_info_wire() -> Seq<u8> {
    seq![0x4du8, 0x49u8]
}

/// The bytes of the command that asks for title `id`: `GT` and the number.
pub open spec fn title_info_wire(id: u32) -> Seq<u8> {
    seq![0x47u8, 0x54u8] + padded4(id as nat)
}

/// The bytes of the command that asks for the device-wide id of the capture
/// at place `local_capture_id` of title `title_id`: `GA`, the title, a comma,
/// the place.
pub open spec fn global_capture_id_wire(title_id: u32, local_capture_id: u32) -> Seq<u8> {
    seq![0x47u8, 0x41u8] + padded4(title_id as nat) + seq![COMMA] + padded4(
        local_capture_id as nat,
    )
}

/// The bytes of the command that asks for the measurement record of a
/// capture: `MR` and its device-wide id.
pub open spec fn capture_info_wire(global_capture_id: u32) -> Seq<u8> {
    seq![0x4du8, 0x52u8] + padded4(global_capture_id as nat)
}

/// The bytes of the command that asks for the secondary record of a capture:
/// `ME` and its device-wide id.
pub open spec fn capture_data_wire(global_capture_id: u32) -> Seq<u8> {
    seq![0x4du8, 0x45u8] + padded4(global_capture_id as nat)
}

/// The command that asks for the storage summary.
pub fn storage_info_request() -> (r: Vec<u8>)
    ensures
        r@ == storage_info_wire(),
{
    let mut r: Vec<u8> = Vec::new();
    r.push(0x4d);
    r.push(0x49);
    assert(r@ =~= storage_info_wire());
    r
}

/// The command that asks for title `id`. Titles are counted from one.
pub fn title_info_request(id: u32) -> (r: Vec<u8>)
    requires
        id > 0,
    ensures
        r@ == title_info_wire(id),
{
    let mut r: Vec<u8> = Vec::new();
    r.push(0x47);
    r.push(0x54);
    assert(r@ =~= seq![0x47u8, 0x54u8]);
    push_padded4(&mut r, id);
    r
}

/// The command that asks for the device-wide id of a capture. Titles, and
/// the captures of a title, are counted from one.
pub fn global_capture_id_request(title_id: u32, local_capture_id: u32) -> (r: Vec<u8>)
    requires
        title_id > 0,
        local_capture_id > 0,
    ensures
        r@ == global_capture_id_wire(title_id, local_capture_id),
{
    let mut r: Vec<u8> = Vec::new();
    r.push(0x47);
    r.push(0x41);
    assert(r@ =~= seq![0x47u8, 0x41u8]);
    push_padded4(&mut r, title_id);
    r.push(COMMA);
    assert(r@ =~= seq![0x47u8, 0x41u8] + padded4(title_id as nat) + seq![COMMA]);
    push_padded4(&mut r, local_capture_id);
    r
}

/// The command that asks for the measurement record of a capture.
pub fn capture_info_request(global_capture_id: u32) -> (r: Vec<u8>)
    ensures
        r@ == capture_info_wire(global_capture_id),
{
    let mut r: Vec<u8> = Vec::new();
    r.push(0x4d);
    r.push(0x52);
    assert(r@ =~= seq![0x4du8, 0x52u8]);
    push_padded4(&mut r, global_capture_id);
    r
}

/// The command that asks for the secondary record of a capture.
pub fn capture_data_request(global_capture_id: u32) -> (r: Vec<u8>)
    ensures
        r@ == capture_data_wire(global_capture_id),
{
    let mut r: Vec<u8> = Vec::new();
    r.push(0x4d);
    r.push(0x45);
    assert(r@ =~= seq![0x4du8, 0x45u8]);
    push_padded4(&mut r, global_capture_id);
    r
}

} // verus!
