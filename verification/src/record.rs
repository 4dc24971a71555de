//! One sample: the seconds since the origin date and a one-byte value.

use crate::endian::{
    le_bytes, le_value, lemma_le_bytes_len, lemma_le_value_of_bytes, lemma_pow256_values,
    read_u32_le, write_u32_le,
};
use crate::error::DecodeError;
use std::cmp::Ordering;
use vstd::prelude::*;
use vstd::slice::slice_subrange;
use vstd::std_specs::cmp::PartialOrdSpecImpl;

verus! {

/// The number of bytes of an encoded record.
pub const RECORD_SIZE: usize = 5;

/// A record of a store. `time_offset` counts the seconds that have passed
/// since the origin date of the store that holds the record, so a store
/// reaches about 136 years past its origin.
#[derive(Debug, Copy, Clone, PartialEq, Eq, Structural)]
pub struct RecordInfo {
    pub time_offset: u32,
    pub value: u8,
}

impl RecordInfo {
    /// The five bytes of a record: the offset in four, then the value.
    pub open spec fn spec_bytes(&self) -> Seq<u8> {
        le_bytes(self.time_offset as nat, 4) + seq![self.value]
    }

    /// The record that the first five bytes of `s` stand for.
    pub open spec fn spec_from_bytes(s: Seq<u8>) -> RecordInfo {
        RecordInfo { time_offset: le_value(s.subrange(0, 4)) as u32, value: s[4] }
    }

    /// Encodes the record in five bytes.
    pub fn as_bytes(&self) -> (bytes: Vec<u8>)
        ensures
            bytes@ == self.spec_bytes(),
            bytes@.len() == RECORD_SIZE,
    {
        let mut store: Vec<u8> = Vec::with_capacity(5);
        write_u32_le(&mut store, self.time_offset);
        store.push(self.value);
        proof {
            lemma_le_bytes_len(self.time_offset as nat, 4);
            assert(store@ =~= self.spec_bytes());
        }
        store
    }

    /// Decodes a record from the first five bytes of `d`, and fails where `d`
    /// is shorter.
    pub fn from_bytes(d: &[u8]) -> (r: Result<RecordInfo, DecodeError>)
        ensures
            d@.len() >= RECORD_SIZE ==> r == Ok::<RecordInfo, DecodeError>(
                RecordInfo::spec_from_bytes(d@),
            ),
            d@.len() < RECORD_SIZE ==> r == Err::<RecordInfo, DecodeError>(
                (DecodeError { needed: RECORD_SIZE, found: d@.len() as usize }),
            ),
    {
        if d.len() < 5 {
            return Err(DecodeError { needed: 5, found: d.len() });
        }
        let time_offset = read_u32_le(slice_subrange(d, 0, 4));
        assert(d@.subrange(0, 4).subrange(0, 4) =~= d@.subrange(0, 4));
        Ok(RecordInfo { time_offset, value: d[4] })
    }
}

impl PartialOrd for RecordInfo {
    /// Compares two records by their time offsets alone.
    fn partial_cmp(&self, other: &RecordInfo) -> (r: Option<Ordering>) {
        if self.time_offset < other.time_offset {
            Some(Ordering::Less)
        } else if self.time_offset == other.time_offset {
            Some(Ordering::Equal)
        } else {
            Some(Ordering::Greater)
        }
    }
}

impl PartialOrdSpecImpl for RecordInfo {
    open spec fn obeys_partial_cmp_spec() -> bool {
        true
    }

    open spec fn partial_cmp_spec(&self, other: &RecordInfo) -> Option<Ordering> {
        if self.time_offset < other.time_offset {
            Some(Ordering::Less)
        } else if self.time_offset == other.time_offset {
            Some(Ordering::Equal)
        } else {
            Some(Ordering::Greater)
        }
    }
}

/// Encoding and decoding give the record back.
pub proof fn lemma_record_roundtrip(r: RecordInfo)
    ensures
        r.spec_bytes().len() == RECORD_SIZE,
        RecordInfo::spec_from_bytes(r.spec_bytes()) == r,
{
    let b = r.spec_bytes();
    lemma_le_bytes_len(r.time_offset as nat, 4);
    lemma_pow256_values();
    lemma_le_value_of_bytes(r.time_offset as nat, 4);
    assert(b.subrange(0, 4) =~= le_bytes(r.time_offset as nat, 4));
}

} // verus!
