//! The header of a store: its origin date and the number of its records.

use crate::endian::{
    le_bytes, le_value, lemma_le_bytes_len, lemma_le_value_of_bytes, lemma_pow256_values,
    read_u64_le, write_u64_le,
};
use crate::error::DecodeError;
use crate::timestamp::{lemma_timestamp_roundtrip, Timestamp};
use vstd::prelude::*;
use vstd::slice::slice_subrange;

verus! {

/// The number of bytes of an encoded header.
pub const HEADER_SIZE: usize = 15;

/// The place of the record count in an encoded header.
pub const RECORD_COUNT_POSITION: usize = 7;

/// The header of a store. `origin_date` is the date from which the records
/// count their seconds; no record of the store is older.
#[derive(Debug, Copy, Clone, PartialEq, Eq, Structural)]
pub struct DbHeader {
    pub origin_date: Timestamp,
    pub records_number: u64,
}

impl DbHeader {
    /// The fifteen bytes of a header: the origin date in seven, the record
    /// count in eight.
    pub open spec fn spec_bytes(&self) -> Seq<u8> {
        self.origin_date.spec_bytes() + le_bytes(self.records_number as nat, 8)
    }

    /// The header that the first fifteen bytes of `s` stand for.
    pub open spec fn spec_from_bytes(s: Seq<u8>) -> DbHeader {
        DbHeader {
            origin_date: Timestamp::spec_from_bytes(s),
            records_number: le_value(s.subrange(7, 15)) as u64,
        }
    }

    /// Encodes the header in fifteen bytes.
    pub fn as_bytes(&self) -> (bytes: Vec<u8>)
        ensures
            bytes@ == self.spec_bytes(),
            bytes@.len() == HEADER_SIZE,
    {
        let mut store: Vec<u8> = self.origin_date.as_bytes();
        write_u64_le(&mut store, self.records_number);
        proof {
            lemma_le_bytes_len(self.records_number as nat, 8);
        }
        store
    }

    /// Decodes a header from the first fifteen bytes of `d`, and fails where
    /// `d` is shorter. Neither the date nor the count is checked.
    pub fn from_bytes(d: &[u8]) -> (r: Result<DbHeader, DecodeError>)
        ensures
            d@.len() >= HEADER_SIZE ==> r == Ok::<DbHeader, DecodeError>(
                DbHeader::spec_from_bytes(d@),
            ),
            d@.len() < HEADER_SIZE ==> r == Err::<DbHeader, DecodeError>(
                (DecodeError { needed: HEADER_SIZE, found: d@.len() as usize }),
            ),
    {
        if d.len() < 15 {
            return Err(DecodeError { needed: 15, found: d.len() });
        }
        let origin_date = match Timestamp::from_bytes(d) {
            Ok(t) => t,
            Err(e) => {
                return Err(e);
            },
        };
        let records_number = read_u64_le(slice_subrange(d, 7, 15));
        assert(d@.subrange(7, 15).subrange(0, 8) =~= d@.subrange(7, 15));
        Ok(DbHeader { origin_date, records_number })
    }
}

/// Encoding and decoding give the header back.
pub proof fn lemma_header_roundtrip(h: DbHeader)
    ensures
        h.spec_bytes().len() == HEADER_SIZE,
        DbHeader::spec_from_bytes(h.spec_bytes()) == h,
{
    let b = h.spec_bytes();
    let t = h.origin_date.spec_bytes();
    lemma_timestamp_roundtrip(h.origin_date);
    lemma_le_bytes_len(h.records_number as nat, 8);
    lemma_pow256_values();
    lemma_le_value_of_bytes(h.records_number as nat, 8);
    assert(b.subrange(7, 15) =~= le_bytes(h.records_number as nat, 8));
    assert(b.subrange(0, 2) =~= t.subrange(0, 2));
    assert(b[2] == t[2] && b[3] == t[3] && b[4] == t[4] && b[5] == t[5] && b[6] == t[6]);
}

} // verus!
