//! What holds of a store across its operations, stated over the bytes of its
//! image and proved from the definitions of the operations.

use crate::endian::{le_bytes, lemma_le_bytes_len, lemma_le_value_of_bytes, lemma_pow256_values};
use crate::error::DbIssue;
use crate::header::{lemma_header_roundtrip, DbHeader};
use crate::layout::{
    has_slot, header_of, lemma_has_slot_iff_below_count, ordered, record_at, record_position,
    records_of, slot_count, sorted,
};
use crate::record::{lemma_record_roundtrip, RecordInfo};
use crate::store::{appended, check_of, is_reordering, PhysicalDB};
use crate::timestamp::Timestamp;
use vstd::prelude::*;

verus! {

/// Two images that begin with the same fifteen bytes have the same header.
pub proof fn lemma_header_depends_on_first_bytes(a: Seq<u8>, b: Seq<u8>)
    requires
        a.len() >= 15,
        b.len() >= 15,
        forall|k: int| 0 <= k < 15 ==> a[k] == b[k],
    ensures
        header_of(a) == header_of(b),
{
    assert(a.subrange(0, 2) =~= b.subrange(0, 2));
    assert(a.subrange(7, 15) =~= b.subrange(7, 15));
}

/// The image of a store that was just made is a header with the origin date
/// that was given and a count of zero. It holds no record, and a scan
/// finds nothing wrong with it if the origin date is a date.
pub proof fn lemma_fresh_store(origin: Timestamp)
    ensures
        ({
            let header = DbHeader { origin_date: origin, records_number: 0 };
            &&& header.spec_bytes().len() == 15
            &&& header_of(header.spec_bytes()) == header
            &&& slot_count(header.spec_bytes().len() as int) == 0
            &&& origin.spec_is_valid() ==> check_of(header.spec_bytes()) == DbIssue::NoIssue
        }),
{
    let header = DbHeader { origin_date: origin, records_number: 0 };
    lemma_header_roundtrip(header);
    assert(records_of(header.spec_bytes(), 0).len() == 0);
}

/// After a record was appended to an image that is a header and whole
/// records, the image is one record longer, the new record is read back from
/// the slot behind the last, every record before it and the origin date are
/// as they were, and the header in the image counts one more than the count
/// that the store believed in.
pub proof fn lemma_append_reads_back(img: Seq<u8>, count: u64, rec: RecordInfo)
    requires
        img.len() >= 15,
        (img.len() - 15) % 5 == 0,
        count < u64::MAX,
    ensures
        appended(img, count, rec).len() == img.len() + 5,
        slot_count(appended(img, count, rec).len() as int) == slot_count(img.len() as int) + 1,
        record_at(appended(img, count, rec), slot_count(img.len() as int)) == rec,
        forall|k: int|
            0 <= k < slot_count(img.len() as int) ==> #[trigger] record_at(
                appended(img, count, rec),
                k,
            ) == record_at(img, k),
        header_of(appended(img, count, rec)).origin_date == header_of(img).origin_date,
        header_of(appended(img, count, rec)).records_number == count + 1,
{
    let out = appended(img, count, rec);
    let last = slot_count(img.len() as int);
    lemma_record_roundtrip(rec);
    lemma_le_bytes_len((count + 1) as nat, 8);
    lemma_pow256_values();
    lemma_le_value_of_bytes((count + 1) as nat, 8);
    assert(out.len() == img.len() + 5);
    assert(record_position(last) == img.len());
    assert(out.subrange(record_position(last), record_position(last) + 5) =~= rec.spec_bytes());
    assert forall|k: int| 0 <= k < last implies #[trigger] record_at(out, k) == record_at(
        img,
        k,
    ) by {
        let p = record_position(k);
        assert(out.subrange(p, p + 5) =~= img.subrange(p, p + 5));
    }
    assert(out.subrange(0, 2) =~= img.subrange(0, 2));
    assert(out.subrange(7, 15) =~= le_bytes((count + 1) as nat, 8));
}

/// After a record was appended to a store that was just made, the image
/// holds one record, which is read back from slot 0, and the header in the
/// image counts one record.
pub proof fn lemma_first_append(origin: Timestamp, rec: RecordInfo)
    ensures
        ({
            let fresh = (DbHeader { origin_date: origin, records_number: 0 }).spec_bytes();
            let out = appended(fresh, 0, rec);
            &&& out.len() == 20
            &&& has_slot(out.len() as int, 0)
            &&& record_at(out, 0) == rec
            &&& header_of(out) == (DbHeader { origin_date: origin, records_number: 1 })
        }),
{
    let header = DbHeader { origin_date: origin, records_number: 0 };
    lemma_header_roundtrip(header);
    lemma_append_reads_back(header.spec_bytes(), 0, rec);
}

/// Replacing the value of a record changes that byte alone: the record keeps
/// its time offset and has the new value, and the length of the image, its
/// header and every other record are as they were.
pub proof fn lemma_update_changes_value_only(img: Seq<u8>, rec_id: int, value: u8)
    requires
        0 <= rec_id,
        has_slot(img.len() as int, rec_id),
    ensures
        ({
            let out = img.update(record_position(rec_id) + 4, value);
            &&& out.len() == img.len()
            &&& forall|k: int|
                0 <= k < img.len() && k != record_position(rec_id) + 4 ==> out[k] == img[k]
            &&& record_at(out, rec_id).time_offset == record_at(img, rec_id).time_offset
            &&& record_at(out, rec_id).value == value
            &&& header_of(out) == header_of(img)
            &&& forall|k: int|
                0 <= k && k != rec_id && has_slot(img.len() as int, k) ==> #[trigger] record_at(
                    out,
                    k,
                ) == record_at(img, k)
        }),
{
    let pos = record_position(rec_id);
    let out = img.update(pos + 4, value);
    lemma_header_depends_on_first_bytes(img, out);
    assert(out.subrange(pos, pos + 5).subrange(0, 4) =~= img.subrange(pos, pos + 5).subrange(0, 4));
    assert forall|k: int| 0 <= k && k != rec_id && has_slot(img.len() as int, k) implies record_at(
        out,
        k,
    ) == record_at(img, k) by {
        let p = record_position(k);
        assert(out.subrange(p, p + 5) =~= img.subrange(p, p + 5));
    }
}

/// Records of which none is older than any before it are in order.
pub proof fn lemma_sorted_is_ordered(rs: Seq<RecordInfo>)
    requires
        sorted(rs),
    ensures
        ordered(rs),
{
}

/// After the records that the header counts were put in order, a scan finds
/// no record out of order: where the origin date is a date and the image
/// holds as many records as the header counts, it finds nothing at all.
pub proof fn lemma_reordered_store_is_healthy(before: Seq<u8>, after: Seq<u8>)
    requires
        before.len() >= 15,
        header_of(before).origin_date.spec_is_valid(),
        header_of(before).records_number <= slot_count(before.len() as int),
        is_reordering(before, after, header_of(before).records_number as nat),
    ensures
        header_of(after) == header_of(before),
        header_of(before).records_number == slot_count(before.len() as int) ==> check_of(after)
            == DbIssue::NoIssue,
        header_of(before).records_number < slot_count(before.len() as int) ==> check_of(after)
            == DbIssue::MismatchRecordAmount,
{
    lemma_header_depends_on_first_bytes(before, after);
    lemma_sorted_is_ordered(records_of(after, header_of(before).records_number as nat));
}

/// In a consistent store the records that can be read are those that the
/// header counts: an index from the count on has no whole slot, so that to
/// read it is out of bound, and an index below the count has one.
pub proof fn lemma_consistent_store_reads_counted_records(db: PhysicalDB, rec_id: u64)
    requires
        db.is_consistent(),
    ensures
        rec_id >= db.header.records_number ==> !has_slot(db.image@.len() as int, rec_id as int),
        rec_id < db.header.records_number ==> has_slot(db.image@.len() as int, rec_id as int),
{
    lemma_has_slot_iff_below_count(db.image@.len() as int, rec_id as int);
}

/// A store with which a scan finds nothing wrong holds the records that the
/// header in its image counts, and no other.
pub proof fn lemma_healthy_image_reads_counted_records(img: Seq<u8>, rec_id: u64)
    requires
        check_of(img) == DbIssue::NoIssue,
    ensures
        rec_id >= header_of(img).records_number ==> !has_slot(img.len() as int, rec_id as int),
        rec_id < header_of(img).records_number ==> has_slot(img.len() as int, rec_id as int),
{
    lemma_has_slot_iff_below_count(img.len() as int, rec_id as int);
}

/// A store that was just made is consistent.
pub proof fn lemma_fresh_store_is_consistent(db: PhysicalDB, origin: Timestamp)
    requires
        db.is_fresh(origin),
    ensures
        db.is_consistent(),
{
    lemma_header_roundtrip(db.header);
}

/// Appending a record keeps a store consistent and its origin date as it
/// was.
pub proof fn lemma_append_keeps_consistency(before: PhysicalDB, after: PhysicalDB, rec: RecordInfo)
    requires
        before.is_consistent(),
        before.header.records_number < u64::MAX,
        after.is_append_of(&before, rec),
    ensures
        after.is_consistent(),
        header_of(after.image@).origin_date == header_of(before.image@).origin_date,
{
    lemma_append_reads_back(before.image@, before.header.records_number, rec);
}

/// Replacing the value of a record keeps a store consistent.
pub proof fn lemma_update_keeps_consistency(
    before: PhysicalDB,
    after: PhysicalDB,
    rec_id: u64,
    value: u8,
)
    requires
        before.is_consistent(),
        has_slot(before.image@.len() as int, rec_id as int),
        after.header == before.header,
        after.image@ == before.image@.update(record_position(rec_id as int) + 4, value),
    ensures
        after.is_consistent(),
{
    lemma_update_changes_value_only(before.image@, rec_id as int, value);
}

/// Putting the records in order keeps a store consistent.
pub proof fn lemma_reorder_keeps_consistency(before: PhysicalDB, after: PhysicalDB)
    requires
        before.is_consistent(),
        after.header == before.header,
        is_reordering(before.image@, after.image@, before.header.records_number as nat),
    ensures
        after.is_consistent(),
{
    lemma_header_depends_on_first_bytes(before.image@, after.image@);
}

/// An image of fewer than fifteen bytes has no header, whatever it holds.
pub proof fn lemma_short_image_has_no_header(img: Seq<u8>)
    requires
        img.len() < 15,
    ensures
        check_of(img) == DbIssue::HeaderCorrupted,
{
}

/// A header that counts another number of records than the image holds is
/// found by a scan. Where it counts more, and the header is otherwise sound,
/// the scan reports the first record that is missing, unless it meets
/// records out of order before; where it counts fewer, it reports the count,
/// unless records that the header counts are out of order.
pub proof fn lemma_wrong_count_is_found(img: Seq<u8>)
    requires
        img.len() >= 15,
        header_of(img).records_number != slot_count(img.len() as int),
    ensures
        check_of(img) != DbIssue::NoIssue,
        header_of(img).origin_date.spec_is_valid() && header_of(img).records_number > slot_count(
            img.len() as int,
        ) ==> check_of(img) == DbIssue::UnorderedRecord || check_of(img)
            == DbIssue::RecordCorrupted(slot_count(img.len() as int) as u64),
        header_of(img).origin_date.spec_is_valid() && header_of(img).records_number < slot_count(
            img.len() as int,
        ) ==> check_of(img) == DbIssue::UnorderedRecord || check_of(img)
            == DbIssue::MismatchRecordAmount,
{
}

} // verus!
