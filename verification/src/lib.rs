//! A small embedded time-series store.
//!
//! A store is one binary image: a fifteen-byte header (the origin date and the
//! number of records) followed by five-byte records, each a number of seconds
//! since the origin date and a one-byte value. Every number is little-endian.
//! The library encodes and decodes these pieces, addresses records by index,
//! appends and updates them, scans an image for damage and repairs the order
//! of its records.

pub mod endian;
pub mod error;
pub mod timestamp;
pub mod record;
pub mod header;
pub mod layout;
pub mod store;
pub mod laws;

pub use crate::error::{DbIssue, DecodeError, TSLiteError};
pub use crate::header::DbHeader;
pub use crate::record::RecordInfo;
pub use crate::store::PhysicalDB;
pub use crate::timestamp::Timestamp;
