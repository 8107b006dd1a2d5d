//! Protocol layer for reading stored measurements from a Sekonic C-7000
//! spectrometer: field grammar, record decoders, transaction framing and
//! the enumeration of stored captures.

pub mod bytes;
pub mod decimal;
pub mod error;
pub mod grammar;
pub mod text;
pub mod cursor;
pub mod schema;
mod reader;
pub mod records;
pub mod capture_info;
pub mod capture_data;
pub mod command;
pub mod transaction;
pub mod store;
pub mod index;
pub mod spectrum;
