//! The store: a header and its records in one image of bytes, with the
//! operations that read it, extend it, scan it and repair it.

use crate::endian::{le_bytes, lemma_le_bytes_len, write_u64_le};
use crate::error::{is_io_failure, is_io_failure_with, DbIssue, TSLiteError};
use crate::header::DbHeader;
use crate::layout::{
    has_slot, header_of, ordered, record_at, record_position, records_of, slot_count,
    slot_position, slot_total, sorted, write_at, write_bytes_at,
};
use crate::record::{lemma_record_roundtrip, RecordInfo};
use crate::timestamp::Timestamp;
use vstd::prelude::*;
use vstd::slice::slice_subrange;

verus! {

/// A store. `image` holds the bytes of the store, `is_open` says whether the
/// store is in use, and `header` is the header as it was when the store was
/// made or taken over, with the record count kept up by the operations here.
/// Where the image was changed by other means, `header` and the header in the
/// image may differ: `read_header` gives the one in the image.
#[derive(Debug)]
pub struct PhysicalDB {
    pub image: Vec<u8>,
    pub is_open: bool,
    pub header: DbHeader,
}

/// The image after `rec` was appended to a store whose header is believed to
/// count `count` records: the record at the end, then the new count in the
/// header.
pub open spec fn appended(img: Seq<u8>, count: u64, rec: RecordInfo) -> Seq<u8> {
    write_at(img + rec.spec_bytes(), 7, le_bytes((count + 1) as nat, 8))
}

/// What a scan of an image reports: the first of a short header, an origin
/// date that is no date, a record that is older than the one before it among
/// those that the header counts and the image holds, a record that the header
/// counts and the image does not hold, and a count below what the image holds.
pub open spec fn check_of(img: Seq<u8>) -> DbIssue {
    let header = header_of(img);
    let slots = slot_count(img.len() as int);
    let claimed = header.records_number as int;
    let readable = if claimed < slots {
        claimed
    } else {
        slots
    };
    if img.len() < 15 {
        DbIssue::HeaderCorrupted
    } else if !header.origin_date.spec_is_valid() {
        DbIssue::OriginDateInvalid
    } else if !ordered(records_of(img, readable as nat)) {
        DbIssue::UnorderedRecord
    } else if claimed > slots {
        DbIssue::RecordCorrupted(slots as u64)
    } else if claimed < slots {
        DbIssue::MismatchRecordAmount
    } else {
        DbIssue::NoIssue
    }
}

impl PhysicalDB {
    /// A store that was just made with `origin` as its origin date: the image
    /// is a header that counts no record, and the store is not in use.
    pub open spec fn is_fresh(&self, origin: Timestamp) -> bool {
        &&& self.header == (DbHeader { origin_date: origin, records_number: 0 })
        &&& self.image@ == self.header.spec_bytes()
        &&& !self.is_open
    }

    /// A store is consistent where its image is a header and whole records,
    /// the header in memory is the header in the image, and the header
    /// counts the records that the image holds. The operations of a store
    /// keep it so; an image that was taken over may not be.
    pub open spec fn is_consistent(&self) -> bool {
        &&& self.image@.len() >= 15
        &&& (self.image@.len() - 15) % 5 == 0
        &&& self.header == header_of(self.image@)
        &&& self.header.records_number == slot_count(self.image@.len() as int)
    }

    /// The store is in use and `rec` was appended to what `before` held.
    pub open spec fn is_append_of(&self, before: &PhysicalDB, rec: RecordInfo) -> bool {
        &&& self.image@ == appended(before.image@, before.header.records_number, rec)
        &&& self.header.origin_date == before.header.origin_date
        &&& self.header.records_number == before.header.records_number + 1
        &&& self.is_open
    }

    /// The store holds what `before` held.
    pub open spec fn holds_same(&self, before: &PhysicalDB) -> bool {
        &&& self.image@ == before.image@
        &&& self.header == before.header
    }

    /// Whether a record for the time `now` can be appended: the origin date
    /// and `now` are dates, and the record count is below its limit.
    pub open spec fn can_append_at(&self, now: &Timestamp) -> bool {
        &&& self.header.origin_date.spec_is_valid()
        &&& now.spec_is_valid()
        &&& self.header.records_number < u64::MAX
    }

    /// The store is in use and holds what `before` held.
    pub open spec fn is_opened_of(&self, before: &PhysicalDB) -> bool {
        &&& self.image@ == before.image@
        &&& self.header == before.header
        &&& self.is_open
    }

    /// Makes an empty store with the given origin date.
    pub fn with_origin(origin: Timestamp) -> (db: PhysicalDB)
        ensures
            db.is_fresh(origin),
    {
        let header = DbHeader { origin_date: origin, records_number: 0 };
        PhysicalDB { image: header.as_bytes(), is_open: false, header }
    }

    /// Makes an empty store. Its origin date is `origin_date` or, where none
    /// is given, the time of the clock, which is a valid date; this fails
    /// only where the clock's year does not fit a timestamp.
    pub fn create(origin_date: Option<Timestamp>) -> (r: Result<PhysicalDB, TSLiteError>)
        ensures
            origin_date matches Some(origin) ==> r is Ok && r->Ok_0.is_fresh(origin),
            r matches Ok(db) ==> db.is_fresh(db.header.origin_date),
            origin_date is None ==> (r matches Ok(db) ==> db.header.origin_date.spec_is_valid()),
            r is Err ==> is_io_failure_with(r, "The clock is out of range."@),
    {
        let origin = match origin_date {
            Some(origin) => Some(origin),
            None => Timestamp::now(),
        };
        match origin {
            Some(origin) => Ok(PhysicalDB::with_origin(origin)),
            None => Err(TSLiteError::IOError("The clock is out of range.".to_owned())),
        }
    }

    /// Takes over the image of a store, or makes an empty store where there
    /// is none. An image must hold a whole header; neither its date nor its
    /// count is checked. With an image, `origin_date` is not looked at.
    pub fn new(existing: Option<Vec<u8>>, origin_date: Option<Timestamp>) -> (r: Result<
        PhysicalDB,
        TSLiteError,
    >)
        ensures
            existing matches Some(image) ==> (if image@.len() >= 15 {
                r matches Ok(db) && db.image@ == image@ && db.header == header_of(image@)
                    && db.is_open
            } else {
                is_io_failure_with(r, "DB File header is corrupted."@)
            }),
            existing is None ==> (origin_date matches Some(origin) ==> r is Ok && r->Ok_0.is_fresh(
                origin,
            )),
            existing is None ==> (r matches Ok(db) ==> db.is_fresh(db.header.origin_date)),
            existing is None && origin_date is None ==> (r matches Ok(db)
                ==> db.header.origin_date.spec_is_valid()),
            existing is None ==> (r is Err ==> is_io_failure_with(
                r,
                "The clock is out of range."@,
            )),
    {
        match existing {
            Some(image) => match DbHeader::from_bytes(image.as_slice()) {
                Ok(header) => Ok(PhysicalDB { image, is_open: true, header }),
                Err(_) => Err(TSLiteError::IOError("DB File header is corrupted.".to_owned())),
            },
            None => PhysicalDB::create(origin_date),
        }
    }

    /// Takes the store into use. A store in use stays so.
    pub fn open(&mut self)
        ensures
            final(self).is_opened_of(old(self)),
    {
        self.is_open = true;
    }

    /// Lays the store down. A store that is not in use stays so.
    pub fn close(&mut self)
        ensures
            final(self).image@ == old(self).image@,
            final(self).header == old(self).header,
            !final(self).is_open,
    {
        self.is_open = false;
    }

    /// Reads the header from the image, whatever `header` holds, and fails
    /// where the image is too short for one.
    pub fn read_header(&mut self) -> (r: Result<DbHeader, TSLiteError>)
        ensures
            final(self).is_opened_of(old(self)),
            old(self).image@.len() >= 15 ==> r == Ok::<DbHeader, TSLiteError>(
                header_of(old(self).image@),
            ),
            old(self).image@.len() < 15 ==> is_io_failure_with(
                r,
                "Could not read header: not enough octets."@,
            ),
    {
        self.open();
        match DbHeader::from_bytes(self.image.as_slice()) {
            Ok(header) => Ok(header),
            Err(_) => Err(
                TSLiteError::IOError("Could not read header: not enough octets.".to_owned()),
            ),
        }
    }

    /// Whether the whole slot of the record with index `rec_id` lies in the
    /// image, so that the end of the slot is a position in memory.
    fn check_record_index(&self, rec_id: u64) -> (exists: bool)
        ensures
            exists == has_slot(self.image@.len() as int, rec_id as int),
            exists ==> record_position(rec_id as int) + 5 <= usize::MAX,
    {
        slot_position(self.image.len() as u64, rec_id).is_some()
    }

    /// Reads the record with index `rec_id`, which lies at byte
    /// `15 + 5 * rec_id`, and fails where its slot is not whole.
    pub fn read_record(&mut self, rec_id: u64) -> (r: Result<RecordInfo, TSLiteError>)
        ensures
            final(self).is_opened_of(old(self)),
            has_slot(old(self).image@.len() as int, rec_id as int) ==> r == Ok::<
                RecordInfo,
                TSLiteError,
            >(record_at(old(self).image@, rec_id as int)),
            !has_slot(old(self).image@.len() as int, rec_id as int) ==> r == Err::<
                RecordInfo,
                TSLiteError,
            >(TSLiteError::IndexOutOfBound),
    {
        self.open();
        if !self.check_record_index(rec_id) {
            return Err(TSLiteError::IndexOutOfBound);
        }
        let pos: usize = 15 + 5 * (rec_id as usize);
        match RecordInfo::from_bytes(slice_subrange(self.image.as_slice(), pos, pos + 5)) {
            Ok(record) => Ok(record),
            Err(_) => Err(
                TSLiteError::IOError("Could not read record: not enough octets.".to_owned()),
            ),
        }
    }

    /// Adds `drn` to the record count, in `header` and in the image, where the
    /// new count is written over the eight bytes from byte 7 on. Fails, with
    /// nothing written, where the new count does not fit in those bytes.
    pub fn update_record_number(&mut self, drn: u64) -> (r: Result<(), TSLiteError>)
        ensures
            final(self).is_open,
            final(self).header.origin_date == old(self).header.origin_date,
            old(self).header.records_number + drn <= u64::MAX ==> r is Ok && final(self).image@
                == write_at(
                old(self).image@,
                7,
                le_bytes((old(self).header.records_number + drn) as nat, 8),
            ) && final(self).header.records_number == old(self).header.records_number + drn,
            old(self).header.records_number + drn > u64::MAX ==> is_io_failure_with(
                r,
                "The record count is at its limit."@,
            ) && final(self).holds_same(old(self)),
    {
        self.open();
        if drn > u64::MAX - self.header.records_number {
            return Err(TSLiteError::IOError("The record count is at its limit.".to_owned()));
        }
        let count: u64 = self.header.records_number + drn;
        let mut bytes: Vec<u8> = Vec::new();
        write_u64_le(&mut bytes, count);
        proof {
            lemma_le_bytes_len(count as nat, 8);
            assert(bytes@ =~= le_bytes(count as nat, 8));
        }
        write_bytes_at(&mut self.image, 7, bytes.as_slice());
        self.header.records_number = count;
        Ok(())
    }

    /// Appends a record to the end of the image and counts it. The record is
    /// not held against the one before it: to keep the records in the order
    /// of their time is left to the caller, and a scan finds where it was not.
    /// Fails, with nothing written, where the record count is at its limit.
    pub fn append_record(&mut self, rec_nfo: RecordInfo) -> (r: Result<(), TSLiteError>)
        ensures
            final(self).is_open,
            old(self).header.records_number < u64::MAX ==> r is Ok && final(self).is_append_of(
                old(self),
                rec_nfo,
            ),
            old(self).header.records_number == u64::MAX ==> is_io_failure_with(
                r,
                "The record count is at its limit."@,
            ) && final(self).holds_same(old(self)),
    {
        self.open();
        if self.header.records_number == u64::MAX {
            return Err(TSLiteError::IOError("The record count is at its limit.".to_owned()));
        }
        let bytes = rec_nfo.as_bytes();
        self.image.extend_from_slice(bytes.as_slice());
        assert(self.image@ =~= old(self).image@ + rec_nfo.spec_bytes());
        self.update_record_number(1)
    }

    /// Appends a record with the given value for the time `now`: its offset
    /// is the number of seconds from the origin date to `now`, cut to
    /// thirty-two bits. Fails, with nothing written, where the origin date or
    /// `now` is no date, or the record count is at its limit.
    pub fn append_record_at(&mut self, now: &Timestamp, value: u8) -> (r: Result<
        (),
        TSLiteError,
    >)
        ensures
            old(self).can_append_at(now) ==> r is Ok && final(self).is_append_of(
                old(self),
                (RecordInfo {
                    time_offset: old(self).header.origin_date.spec_offset(now) as u32,
                    value,
                }),
            ),
            !old(self).can_append_at(now) ==> final(self).holds_same(old(self)),
            !old(self).header.origin_date.spec_is_valid() || !now.spec_is_valid()
                ==> is_io_failure_with(r, "The date is not valid."@),
            old(self).header.origin_date.spec_is_valid() && now.spec_is_valid()
                && old(self).header.records_number == u64::MAX ==> is_io_failure_with(
                r,
                "The record count is at its limit."@,
            ),
    {
        let origin = self.header.origin_date;
        if !origin.is_valid() || !now.is_valid() {
            return Err(TSLiteError::IOError("The date is not valid.".to_owned()));
        }
        let off: u32 = origin.offset(now);
        self.append_record(RecordInfo { time_offset: off, value })
    }

    /// Appends a record with the given value for the time of the clock.
    /// Fails, with nothing written, where the clock gives no date, the origin
    /// date is no date, or the record count is at its limit.
    pub fn append_record_now(&mut self, value: u8) -> (r: Result<(), TSLiteError>)
        ensures
            r is Ok ==> exists|now: Timestamp|
                old(self).can_append_at(&now) && #[trigger] final(self).is_append_of(
                    old(self),
                    (RecordInfo {
                        time_offset: old(self).header.origin_date.spec_offset(&now) as u32,
                        value,
                    }),
                ),
            r is Err ==> is_io_failure(r) && final(self).holds_same(old(self)),
            !old(self).header.origin_date.spec_is_valid() || old(self).header.records_number
                == u64::MAX ==> r is Err,
    {
        match Timestamp::now() {
            Some(now) => self.append_record_at(&now, value),
            None => Err(TSLiteError::IOError("The clock is out of range.".to_owned())),
        }
    }

    /// Replaces the value of the record with index `rec_id`, and nothing
    /// else; fails where the slot of the record is not whole.
    pub fn update_record(&mut self, rec_id: u64, value: u8) -> (r: Result<(), TSLiteError>)
        ensures
            final(self).header == old(self).header,
            final(self).is_open,
            has_slot(old(self).image@.len() as int, rec_id as int) ==> r is Ok
                && final(self).image@ == old(self).image@.update(
                record_position(rec_id as int) + 4,
                value,
            ),
            !has_slot(old(self).image@.len() as int, rec_id as int) ==> r == Err::<
                (),
                TSLiteError,
            >(TSLiteError::IndexOutOfBound) && final(self).image@ == old(self).image@,
    {
        self.open();
        if !self.check_record_index(rec_id) {
            return Err(TSLiteError::IndexOutOfBound);
        }
        let pos: usize = 15 + 5 * (rec_id as usize);
        self.image[pos + 4] = value;
        Ok(())
    }

    /// Scans the image and reports the first thing that is wrong with it:
    /// the header, then the origin date, then the records that the header
    /// counts, one after the other, then the count. To know that nothing else
    /// is wrong, mend what was found and scan again.
    pub fn check_db_file(&mut self) -> (issue: DbIssue)
        ensures
            final(self).is_opened_of(old(self)),
            issue == check_of(old(self).image@),
    {
        self.open();
        let header = match self.read_header() {
            Ok(header) => header,
            Err(_) => {
                return DbIssue::HeaderCorrupted;
            },
        };
        if !header.origin_date.is_valid() {
            return DbIssue::OriginDateInvalid;
        }
        let ghost img = self.image@;
        let mut time_offset: u32 = 0;
        let mut i: u64 = 0;
        while i < header.records_number
            invariant
                self.is_opened_of(old(self)),
                img == self.image@,
                img.len() >= 15,
                header == header_of(img),
                header.origin_date.spec_is_valid(),
                i == 0 ==> time_offset == 0,
                i <= header.records_number,
                i <= slot_count(img.len() as int),
                ordered(records_of(img, i as nat)),
                i > 0 ==> time_offset == record_at(img, i - 1).time_offset,
            decreases header.records_number - i,
        {
            let record = match self.read_record(i) {
                Ok(record) => record,
                Err(_) => {
                    return DbIssue::RecordCorrupted(i);
                },
            };
            if time_offset > record.time_offset {
                proof {
                    let readable = if header.records_number < slot_count(img.len() as int) {
                        header.records_number as int
                    } else {
                        slot_count(img.len() as int)
                    };
                    let rs = records_of(img, readable as nat);
                    assert(rs[i as int].time_offset < rs[i - 1].time_offset);
                }
                return DbIssue::UnorderedRecord;
            }
            proof {
                let next = records_of(img, (i + 1) as nat);
                let so_far = records_of(img, i as nat);
                assert forall|k: int| 0 < k < next.len() implies next[k - 1].time_offset <= (
                #[trigger] next[k]).time_offset by {
                    if k < i {
                        assert(so_far[k - 1].time_offset <= so_far[k].time_offset);
                    }
                }
            }
            time_offset = record.time_offset;
            i += 1;
        }
        if header.records_number != slot_total(self.image.len() as u64) {
            return DbIssue::MismatchRecordAmount;
        }
        DbIssue::NoIssue
    }

    /// Puts the records that `header` counts into the order of their time:
    /// reads them all, sorts them by their offsets, and writes them back over
    /// their slots. Records of one offset come out in any order. Fails, with
    /// the image as it was, where the image does not hold all those records.
    pub fn reorder_record(&mut self) -> (r: Result<(), TSLiteError>)
        ensures
            final(self).header == old(self).header,
            final(self).is_open,
            old(self).header.records_number <= slot_count(old(self).image@.len() as int) ==> r is Ok
                && is_reordering(
                old(self).image@,
                final(self).image@,
                old(self).header.records_number as nat,
            ),
            old(self).header.records_number > slot_count(old(self).image@.len() as int) ==> r
                == Err::<(), TSLiteError>(TSLiteError::IndexOutOfBound) && final(self).image@
                == old(self).image@,
    {
        self.open();
        let ghost img = self.image@;
        let count: u64 = self.header.records_number;
        let mut records: Vec<RecordInfo> = Vec::new();
        let mut i: u64 = 0;
        while i < count
            invariant
                self.is_opened_of(old(self)),
                img == self.image@,
                count == self.header.records_number,
                i <= count,
                i <= slot_count(img.len() as int),
                records@ =~= records_of(img, i as nat),
            decreases count - i,
        {
            match self.read_record(i) {
                Ok(record) => {
                    records.push(record);
                },
                Err(_) => {
                    return Err(TSLiteError::IndexOutOfBound);
                },
            }
            i += 1;
        }
        let ghost unsorted = records@;
        sort_by_time_offset(&mut records);
        let mut j: usize = 0;
        while j < records.len()
            invariant
                self.header == old(self).header,
                self.is_open,
                records@.len() == count,
                count <= slot_count(img.len() as int),
                j <= records@.len(),
                self.image@.len() == img.len(),
                forall|k: int|
                    0 <= k < img.len() && !(15 <= k < 15 + 5 * count) ==> self.image@[k] == img[k],
                forall|k: int| 0 <= k < j ==> record_at(self.image@, k) == #[trigger] records@[k],
            decreases records@.len() - j,
        {
            let record = records[j];
            let bytes = record.as_bytes();
            let ghost prior = self.image@;
            let len: usize = self.image.len();
            assert(has_slot(len as int, j as int));
            write_bytes_at(&mut self.image, 15 + 5 * j, bytes.as_slice());
            proof {
                lemma_write_record(prior, j as int, record);
            }
            j += 1;
        }
        proof {
            assert(records_of(self.image@, count as nat) =~= records@);
            assert(unsorted =~= records_of(img, count as nat));
        }
        Ok(())
    }
}

/// `after` is `before` with its first `n` records put in the order of their
/// time: the same records, each as often as before, none older than one
/// before it, and every byte outside their slots as it was.
pub open spec fn is_reordering(before: Seq<u8>, after: Seq<u8>, n: nat) -> bool {
    &&& after.len() == before.len()
    &&& forall|k: int|
        0 <= k < before.len() && !(15 <= k < 15 + 5 * n) ==> #[trigger] after[k] == before[k]
    &&& records_of(after, n).to_multiset() == records_of(before, n).to_multiset()
    &&& sorted(records_of(after, n))
}

/// Calls `sort_unstable_by_key` of std's slices with the time offset as the
/// key: afterwards the vector holds the same records, each as often as
/// before, and none is older than one before it.
#[verifier::external_body]
fn sort_by_time_offset(records: &mut Vec<RecordInfo>)
    ensures
        final(records)@.len() == old(records)@.len(),
        final(records)@.to_multiset() == old(records)@.to_multiset(),
        sorted(final(records)@),
{
    records.sort_unstable_by_key(|r| r.time_offset);
}

/// Writing a record over a whole slot puts that record there and leaves every
/// other record, and every byte outside the slot, as it was.
pub proof fn lemma_write_record(img: Seq<u8>, rec_id: int, rec: RecordInfo)
    requires
        0 <= rec_id,
        has_slot(img.len() as int, rec_id),
    ensures
        write_at(img, record_position(rec_id), rec.spec_bytes()).len() == img.len(),
        record_at(write_at(img, record_position(rec_id), rec.spec_bytes()), rec_id) == rec,
        forall|k: int|
            0 <= k && k != rec_id && has_slot(img.len() as int, k) ==> #[trigger] record_at(
                write_at(img, record_position(rec_id), rec.spec_bytes()),
                k,
            ) == record_at(img, k),
        forall|k: int|
            0 <= k < img.len() && !(record_position(rec_id) <= k < record_position(rec_id) + 5)
                ==> #[trigger] write_at(img, record_position(rec_id), rec.spec_bytes())[k]
                == img[k],
{
    let pos = record_position(rec_id);
    let out = write_at(img, pos, rec.spec_bytes());
    lemma_record_roundtrip(rec);
    assert(out.subrange(pos, pos + 5) =~= rec.spec_bytes());
    assert forall|k: int| 0 <= k && k != rec_id && has_slot(img.len() as int, k) implies record_at(
        out,
        k,
    ) == record_at(img, k) by {
        let p = record_position(k);
        assert(out.subrange(p, p + 5) =~= img.subrange(p, p + 5));
    }
}

} // verus!
