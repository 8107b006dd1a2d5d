//! The failures that the protocol layer reports. None of them ends the
//! process: every operation hands its failure back to the caller.

use vstd::prelude::*;
use crate::schema::Tag;

verus! {

/// What was wrong with a field.
#[derive(Clone, Copy, Debug, PartialEq, Eq, Structural)]
pub enum Fault {
    /// A binary field is cut short, or is not followed by a comma.
    Width,
    /// A field that should hold an unsigned decimal number does not, or the
    /// number needs more than 32 bits.
    Number,
    /// A field that should hold text is not UTF-8.
    Text,
}

/// A field that the cursor could not read.
#[derive(Clone, Copy, Debug, PartialEq, Eq, Structural)]
pub struct FieldError {
    /// Where the field starts, in bytes from the start of the buffer.
    pub offset: usize,
    pub fault: Fault,
}

/// A field of a record that could not be decoded.
#[derive(Clone, Copy, Debug, PartialEq, Eq, Structural)]
pub struct DecodeError {
    /// The record that was being decoded.
    pub tag: Tag,
    /// The position of the field in the record, counted from zero.
    pub field: usize,
    /// Where the field starts, in bytes from the start of the payload.
    pub offset: usize,
    pub fault: Fault,
}

/// A response that does not have the shape that the protocol promises.
#[derive(Clone, Copy, Debug, PartialEq, Eq, Structural)]
pub enum FramingError {
    /// The status prefix came with this many bytes instead of two.
    StatusLength(usize),
    /// The payload does not start with this tag and the marker.
    TagMismatch(Tag),
    /// The transport reported something that the transaction was not
    /// waiting for.
    OutOfSequence,
}

/// A failure of the channel below the protocol.
#[derive(Clone, Copy, Debug, PartialEq, Eq, Structural)]
pub enum TransportError {
    /// The device did not answer in time.
    Timeout,
    /// The device is gone.
    NoDevice,
    /// The transfer failed.
    Io,
    /// Any other failure.
    Other,
}

/// Everything that can go wrong between a command and a decoded record.
#[derive(Clone, Copy, Debug, PartialEq, Eq, Structural)]
pub enum Error {
    /// The response is out of step with the protocol.
    Framing(FramingError),
    /// The device refused the command.
    RequestRejected,
    /// The device answered with a status prefix that is neither accept nor
    /// refuse.
    UnknownStatus(u8, u8),
    /// A field of the payload could not be decoded.
    Decode(DecodeError),
    /// The channel failed.
    Transport(TransportError),
}

} // verus!
