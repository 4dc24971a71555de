//! What can go wrong, and what a scan of a store can find.

use vstd::prelude::*;

verus! {

/// The ways in which an operation on a store fails.
#[derive(Debug, PartialEq)]
pub enum TSLiteError {
    /// The store could not be read or written as far as the operation needs;
    /// the text says what was missing.
    IOError(String),
    /// No record slot with the given index lies fully inside the store.
    IndexOutOfBound,
}

/// Whether `r` is a failure to read or write, whatever its text.
pub open spec fn is_io_failure<T>(r: Result<T, TSLiteError>) -> bool {
    r matches Err(TSLiteError::IOError(_))
}

/// Whether `r` is a failure to read or write with the given text.
pub open spec fn is_io_failure_with<T>(r: Result<T, TSLiteError>, text: Seq<char>) -> bool {
    r matches Err(TSLiteError::IOError(msg)) && msg@ == text
}

/// Too few bytes were handed to a decoder.
#[derive(Debug, Copy, Clone, PartialEq, Eq, Structural)]
pub struct DecodeError {
    /// The number of bytes that the decoder needs.
    pub needed: usize,
    /// The number of bytes that it was given.
    pub found: usize,
}

/// What a scan of a store reports.
#[derive(Debug, Copy, Clone, PartialEq, Eq, Structural)]
pub enum DbIssue {
    /// A record is older than the record before it.
    UnorderedRecord,
    /// The header cannot be read in full.
    HeaderCorrupted,
    /// The origin date of the header is no calendar date.
    OriginDateInvalid,
    /// The record with this index cannot be read in full.
    RecordCorrupted(u64),
    /// The header counts another number of records than the store holds.
    MismatchRecordAmount,
    /// Nothing is wrong.
    NoIssue,
}

} // verus!
