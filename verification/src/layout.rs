//! How a store is laid out in bytes: where the header and each record lie,
//! and what a write at a position does to the bytes.

use crate::header::DbHeader;
use crate::record::RecordInfo;
use vstd::prelude::*;

verus! {

/// The position of the first byte of the record with index `rec_id`.
pub open spec fn record_position(rec_id: int) -> int {
    15 + 5 * rec_id
}

/// Whether `len` bytes hold the whole slot of the record with index `rec_id`.
pub open spec fn has_slot(len: int, rec_id: int) -> bool {
    15 + 5 * (rec_id + 1) <= len
}

/// The number of whole record slots in `len` bytes.
pub open spec fn slot_count(len: int) -> int {
    if len < 15 {
        0
    } else {
        (len - 15) / 5
    }
}

/// The header that the bytes begin with.
pub open spec fn header_of(img: Seq<u8>) -> DbHeader {
    DbHeader::spec_from_bytes(img)
}

/// The record in the slot with index `rec_id`.
pub open spec fn record_at(img: Seq<u8>, rec_id: int) -> RecordInfo {
    RecordInfo::spec_from_bytes(
        img.subrange(record_position(rec_id), record_position(rec_id) + 5),
    )
}

/// The first `n` records, in the order of their slots.
pub open spec fn records_of(img: Seq<u8>, n: nat) -> Seq<RecordInfo> {
    Seq::new(n, |i: int| record_at(img, i))
}

/// No record is older than the record before it.
pub open spec fn ordered(rs: Seq<RecordInfo>) -> bool {
    forall|i: int| 0 < i < rs.len() ==> rs[i - 1].time_offset <= (#[trigger] rs[i]).time_offset
}

/// No record is older than any record before it.
pub open spec fn sorted(rs: Seq<RecordInfo>) -> bool {
    forall|i: int, j: int|
        0 <= i < j < rs.len() ==> (#[trigger] rs[i]).time_offset <= (#[trigger] rs[j]).time_offset
}

/// The bytes after `data` was written at `pos`, as a file takes a write: the
/// bytes under `data` are replaced, and where `data` reaches past the end the
/// bytes grow, with zeros between the old end and `pos`. Writing nothing
/// changes nothing.
pub open spec fn write_at(img: Seq<u8>, pos: int, data: Seq<u8>) -> Seq<u8> {
    if data.len() == 0 {
        img
    } else {
        Seq::new(
            (if img.len() < pos + data.len() {
                pos + data.len()
            } else {
                img.len() as int
            }) as nat,
            |i: int|
                if pos <= i < pos + data.len() {
                    data[i - pos]
                } else if i < img.len() {
                    img[i]
                } else {
                    0u8
                },
        )
    }
}

/// A slot is whole exactly when its index is below the number of slots.
pub proof fn lemma_has_slot_iff_below_count(len: int, rec_id: int)
    requires
        0 <= rec_id,
        0 <= len,
    ensures
        has_slot(len, rec_id) <==> rec_id < slot_count(len),
{
}

/// Computes the position of the record with index `rec_id` in a store of
/// `file_len` bytes, if the whole slot lies inside.
pub fn slot_position(file_len: u64, rec_id: u64) -> (pos: Option<u64>)
    ensures
        has_slot(file_len as int, rec_id as int) ==> pos == Some(
            record_position(rec_id as int) as u64,
        ) && record_position(rec_id as int) + 5 <= file_len,
        !has_slot(file_len as int, rec_id as int) ==> pos.is_none(),
{
    if file_len >= 20 && (file_len - 20) / 5 >= rec_id {
        Some(15 + 5 * rec_id)
    } else {
        None
    }
}

/// Computes the number of whole record slots in a store of `file_len` bytes.
pub fn slot_total(file_len: u64) -> (slots: u64)
    ensures
        slots == slot_count(file_len as int),
{
    if file_len < 15 {
        0
    } else {
        (file_len - 15) / 5
    }
}

/// Writes `data` at `pos`, as a file takes a write.
pub fn write_bytes_at(image: &mut Vec<u8>, pos: usize, data: &[u8])
    requires
        pos + data@.len() <= usize::MAX,
    ensures
        final(image)@ == write_at(old(image)@, pos as int, data@),
{
    if data.len() == 0 {
        return ;
    }
    let ghost before = image@;
    while image.len() < pos
        invariant
            before.len() <= image@.len(),
            image@.len() <= pos || image@.len() == before.len(),
            forall|i: int| 0 <= i < before.len() ==> image@[i] == before[i],
            forall|i: int| before.len() <= i < image@.len() ==> image@[i] == 0u8,
        decreases pos - image@.len(),
    {
        image.push(0u8);
    }
    let ghost padded = image@;
    let mut k: usize = 0;
    while k < data.len()
        invariant
            pos + data@.len() <= usize::MAX,
            pos <= padded.len(),
            k <= data@.len(),
            image@.len() == (if padded.len() < pos + k {
                pos + k
            } else {
                padded.len() as int
            }),
            forall|i: int|
                0 <= i < image@.len() ==> image@[i] == (if pos <= i < pos + k {
                    data@[i - pos]
                } else {
                    padded[i]
                }),
        decreases data@.len() - k,
    {
        let byte: u8 = data[k];
        if pos + k < image.len() {
            image[pos + k] = byte;
        } else {
            image.push(byte);
        }
        k += 1;
    }
    assert(image@ =~= write_at(before, pos as int, data@));
}

} // verus!
