use tslite::{DbHeader, DbIssue, PhysicalDB, RecordInfo, TSLiteError, Timestamp};

fn origin() -> Timestamp {
    Timestamp { year: 1994, month: 7, day: 8, hour: 6, minute: 55, second: 34 }
}

fn store_with_offsets(offsets: &[u32]) -> PhysicalDB {
    let mut db = PhysicalDB::create(Some(origin())).expect("could not create db.");
    for (i, off) in offsets.iter().enumerate() {
        db.append_record(RecordInfo { time_offset: *off, value: i as u8 })
            .expect("could not append record.");
    }
    db
}

fn offsets_of(db: &mut PhysicalDB, n: u64) -> Vec<u32> {
    (0..n).map(|i| db.read_record(i).expect("could not get record.").time_offset).collect()
}

#[test]
fn create_db_origin_now() {
    let r = PhysicalDB::create(None);
    assert!(r.is_ok());
}

#[test]
fn create_db_origin_specific() {
    let origin_date = Timestamp { year: 1994, month: 7, day: 8, hour: 6, minute: 55, second: 34 };
    let wr = PhysicalDB::create(Some(origin_date));
    assert!(wr.is_ok());

    let buf = wr.unwrap().image;
    assert!(buf.len() == (7 + 8));

    let db_header = DbHeader::from_bytes(buf.as_slice()).unwrap();
    assert_eq!(db_header.records_number, 0);
    assert_eq!(db_header.origin_date.year, 1994);
    assert_eq!(db_header.origin_date.month, 07);
    assert_eq!(db_header.origin_date.day, 08);
    assert_eq!(db_header.origin_date.hour, 6);
    assert_eq!(db_header.origin_date.minute, 55);
    assert_eq!(db_header.origin_date.second, 34);
}

#[test]
fn append_record() {
    let mut db = PhysicalDB::create(None).expect("could not create db.");
    let header = db.read_header().expect("could not read header.");
    assert_eq!(header.records_number, 0);

    let origin_record = RecordInfo { time_offset: 5, value: 10 };

    db.append_record(origin_record).expect("could not append record.");

    let fs_record = db.read_record(0).expect("could not get record.");
    assert_eq!(origin_record, fs_record);

    let header = db.read_header().expect("could not read header.");
    assert_eq!(header.records_number, 1);
}

#[test]
fn check_healthy_db() {
    let mut db = PhysicalDB::create(None).expect("could not create db.");
    let _header = db.read_header().expect("could not read header.");

    for i in 0..10 {
        let origin_record = RecordInfo { time_offset: 5 + i, value: i as u8 };
        db.append_record(origin_record).expect("could not append record.");
    }

    let err = db.check_db_file();
    assert_eq!(err, DbIssue::NoIssue);
}

#[test]
fn check_unordered_db() {
    let mut db = PhysicalDB::create(None).expect("could not create db.");
    let _header = db.read_header().expect("could not read header.");

    for i in 0..10 {
        let origin_record = RecordInfo { time_offset: 9 - i, value: i as u8 };
        db.append_record(origin_record).expect("could not append record.");
    }

    let err = db.check_db_file();
    assert_eq!(err, DbIssue::UnorderedRecord);
}

#[test]
fn reorder_db() {
    let mut db = PhysicalDB::create(None).expect("could not create db.");
    let _header = db.read_header().expect("could not read header.");

    for i in 0..10 {
        let origin_record = RecordInfo { time_offset: 9 - i, value: i as u8 };
        db.append_record(origin_record).expect("could not append record.");
    }

    let err = db.check_db_file();
    assert_eq!(err, DbIssue::UnorderedRecord);

    let res = db.reorder_record();
    assert_eq!(res.is_ok(), true);

    let err = db.check_db_file();
    assert_eq!(err, DbIssue::NoIssue);
}

#[test]
fn update_record() {
    let mut db = PhysicalDB::create(None).expect("could not create db.");
    let header = db.read_header().expect("could not read header.");
    assert_eq!(header.records_number, 0);
    let origin_record = RecordInfo { time_offset: 5, value: 10 };

    db.append_record(origin_record).expect("could not append record.");
    let mut fs_record = db.read_record(0).expect("could not get record.");
    assert_eq!(origin_record, fs_record);

    let updated_value = 8;
    db.update_record(0, updated_value).expect("Could not update record.");
    fs_record = db.read_record(0).expect("could not get record.");
    assert_eq!(updated_value, fs_record.value);
}

#[test]
fn fresh_store_is_a_header_without_records() {
    let mut db = PhysicalDB::create(Some(origin())).unwrap();
    assert!(!db.is_open);
    assert_eq!(db.header, DbHeader { origin_date: origin(), records_number: 0 });
    assert_eq!(db.image, vec![0xCA, 0x07, 7, 8, 6, 55, 34, 0, 0, 0, 0, 0, 0, 0, 0]);
    assert_eq!(db.read_header(), Ok(DbHeader { origin_date: origin(), records_number: 0 }));
    assert!(db.is_open);
    assert_eq!(db.check_db_file(), DbIssue::NoIssue);
}

#[test]
fn with_origin_is_create_with_a_date() {
    let a = PhysicalDB::with_origin(origin());
    let b = PhysicalDB::create(Some(origin())).unwrap();
    assert_eq!(a.image, b.image);
    assert_eq!(a.header, b.header);
    assert_eq!(a.is_open, b.is_open);
}

#[test]
fn create_without_a_date_takes_the_clock() {
    let before = Timestamp::now().unwrap();
    let db = PhysicalDB::create(None).unwrap();
    let after = Timestamp::now().unwrap();
    assert!(before <= db.header.origin_date && db.header.origin_date <= after);
    assert!(db.header.origin_date.is_valid());
    assert_eq!(db.header.records_number, 0);
    assert_eq!(db.image, db.header.as_bytes());
}

#[test]
fn new_without_an_image_creates() {
    let db = PhysicalDB::new(None, Some(origin())).unwrap();
    assert_eq!(db.image, DbHeader { origin_date: origin(), records_number: 0 }.as_bytes());
    assert!(!db.is_open);
}

#[test]
fn new_with_an_image_takes_its_header() {
    let made = store_with_offsets(&[1, 2, 3]);
    let other = Timestamp { year: 2020, month: 1, day: 1, hour: 0, minute: 0, second: 0 };
    let db = PhysicalDB::new(Some(made.image.clone()), Some(other)).unwrap();
    assert_eq!(db.header, DbHeader { origin_date: origin(), records_number: 3 });
    assert_eq!(db.image, made.image);
    assert!(db.is_open);
}

#[test]
fn new_with_a_short_image_fails() {
    let r = PhysicalDB::new(Some(vec![0u8; 14]), None);
    assert_eq!(r.err(), Some(TSLiteError::IOError("DB File header is corrupted.".to_string())));
}

#[test]
fn new_does_not_check_the_header() {
    let db = PhysicalDB::new(Some(vec![0xffu8; 15]), None).unwrap();
    assert_eq!(db.header.records_number, u64::MAX);
    assert!(!db.header.origin_date.is_valid());
}

#[test]
fn open_and_close_are_idempotent() {
    let mut db = PhysicalDB::create(Some(origin())).unwrap();
    let image = db.image.clone();
    db.close();
    assert!(!db.is_open);
    db.open();
    db.open();
    assert!(db.is_open);
    db.close();
    db.close();
    assert!(!db.is_open);
    assert_eq!(db.image, image);
}

#[test]
fn append_writes_the_record_and_the_count() {
    let mut db = PhysicalDB::create(Some(origin())).unwrap();
    db.append_record(RecordInfo { time_offset: 0x01020304, value: 9 }).unwrap();
    assert_eq!(
        db.image,
        vec![0xCA, 0x07, 7, 8, 6, 55, 34, 1, 0, 0, 0, 0, 0, 0, 0, 4, 3, 2, 1, 9]
    );
    assert_eq!(db.header.records_number, 1);
    assert!(db.is_open);
    db.append_record(RecordInfo { time_offset: 1, value: 2 }).unwrap();
    assert_eq!(db.image.len(), 25);
    assert_eq!(db.read_header().unwrap().records_number, 2);
    assert_eq!(db.read_record(0), Ok(RecordInfo { time_offset: 0x01020304, value: 9 }));
    assert_eq!(db.read_record(1), Ok(RecordInfo { time_offset: 1, value: 2 }));
}

#[test]
fn append_does_not_check_the_order() {
    let mut db = store_with_offsets(&[10]);
    assert!(db.append_record(RecordInfo { time_offset: 3, value: 0 }).is_ok());
    assert_eq!(db.read_record(1), Ok(RecordInfo { time_offset: 3, value: 0 }));
}

#[test]
fn append_counts_from_the_header_in_memory() {
    let mut db = store_with_offsets(&[1, 2]);
    db.header.records_number = 7;
    db.append_record(RecordInfo { time_offset: 3, value: 0 }).unwrap();
    assert_eq!(db.header.records_number, 8);
    assert_eq!(db.read_header().unwrap().records_number, 8);
}

#[test]
fn append_fails_at_the_limit_of_the_count() {
    let mut db = store_with_offsets(&[1]);
    db.header.records_number = u64::MAX;
    let image = db.image.clone();
    let r = db.append_record(RecordInfo { time_offset: 3, value: 0 });
    assert!(matches!(r, Err(TSLiteError::IOError(_))));
    assert_eq!(db.image, image);
    assert_eq!(db.header.records_number, u64::MAX);
}

#[test]
fn update_record_number_adds() {
    let mut db = PhysicalDB::create(Some(origin())).unwrap();
    db.update_record_number(0x0102).unwrap();
    assert_eq!(db.header.records_number, 0x0102);
    assert_eq!(db.image, vec![0xCA, 0x07, 7, 8, 6, 55, 34, 2, 1, 0, 0, 0, 0, 0, 0]);
    db.update_record_number(3).unwrap();
    assert_eq!(db.read_header().unwrap().records_number, 0x0105);
    assert!(matches!(db.update_record_number(u64::MAX), Err(TSLiteError::IOError(_))));
    assert_eq!(db.header.records_number, 0x0105);
}

#[test]
fn update_record_number_on_a_short_image_grows_it() {
    let mut db = PhysicalDB { image: vec![1, 2, 3], is_open: false, header: DbHeader { origin_date: origin(), records_number: 4 } };
    db.update_record_number(1).unwrap();
    assert_eq!(db.image, vec![1, 2, 3, 0, 0, 0, 0, 5, 0, 0, 0, 0, 0, 0, 0]);
}

#[test]
fn append_at_a_time_takes_the_offset_from_the_origin() {
    let mut db = PhysicalDB::create(Some(origin())).unwrap();
    let now = Timestamp { year: 2024, month: 1, day: 1, hour: 0, minute: 0, second: 0 };
    db.append_record_at(&now, 42).unwrap();
    assert_eq!(db.read_record(0), Ok(RecordInfo { time_offset: 930416666, value: 42 }));
}

#[test]
fn append_at_a_time_needs_dates() {
    let mut db = PhysicalDB::create(Some(origin())).unwrap();
    let bad = Timestamp { year: 2023, month: 2, day: 30, hour: 0, minute: 0, second: 0 };
    assert!(matches!(db.append_record_at(&bad, 1), Err(TSLiteError::IOError(_))));
    assert_eq!(db.image.len(), 15);
    let mut odd = PhysicalDB::create(Some(bad)).unwrap();
    assert!(matches!(odd.append_record_at(&origin(), 1), Err(TSLiteError::IOError(_))));
    assert!(matches!(odd.append_record_now(1), Err(TSLiteError::IOError(_))));
    assert_eq!(odd.image.len(), 15);
}

#[test]
fn append_now_takes_the_clock() {
    let mut db = PhysicalDB::create(Some(origin())).unwrap();
    let before = origin().offset(&Timestamp::now().unwrap());
    db.append_record_now(77).unwrap();
    let after = origin().offset(&Timestamp::now().unwrap());
    let rec = db.read_record(0).unwrap();
    assert_eq!(rec.value, 77);
    assert!(before <= rec.time_offset && rec.time_offset <= after);
    assert_eq!(db.read_header().unwrap().records_number, 1);
}

#[test]
fn update_changes_the_value_byte_alone() {
    let mut db = store_with_offsets(&[5, 6, 7]);
    let before = db.image.clone();
    db.update_record(1, 200).unwrap();
    assert_eq!(db.read_record(1), Ok(RecordInfo { time_offset: 6, value: 200 }));
    assert_eq!(db.read_record(0), Ok(RecordInfo { time_offset: 5, value: 0 }));
    assert_eq!(db.read_record(2), Ok(RecordInfo { time_offset: 7, value: 2 }));
    for k in 0..before.len() {
        if k == 15 + 5 + 4 {
            assert_eq!(db.image[k], 200);
        } else {
            assert_eq!(db.image[k], before[k]);
        }
    }
}

#[test]
fn update_out_of_bound() {
    let mut db = store_with_offsets(&[5, 6, 7]);
    let before = db.image.clone();
    assert_eq!(db.update_record(3, 1), Err(TSLiteError::IndexOutOfBound));
    assert_eq!(db.update_record(u64::MAX, 1), Err(TSLiteError::IndexOutOfBound));
    assert_eq!(db.image, before);
}

#[test]
fn read_past_the_count_is_out_of_bound() {
    let mut db = store_with_offsets(&[5, 6, 7]);
    assert!(db.read_record(2).is_ok());
    assert_eq!(db.read_record(3), Err(TSLiteError::IndexOutOfBound));
    assert_eq!(db.read_record(4), Err(TSLiteError::IndexOutOfBound));
    assert_eq!(db.read_record(u64::MAX), Err(TSLiteError::IndexOutOfBound));
    let mut empty = PhysicalDB::create(Some(origin())).unwrap();
    assert_eq!(empty.read_record(0), Err(TSLiteError::IndexOutOfBound));
}

#[test]
fn read_of_a_cut_slot_is_out_of_bound() {
    let mut db = store_with_offsets(&[5, 6]);
    db.image.truncate(24);
    assert!(db.read_record(0).is_ok());
    assert_eq!(db.read_record(1), Err(TSLiteError::IndexOutOfBound));
}

#[test]
fn short_image_has_a_corrupted_header() {
    for len in [0usize, 1, 14] {
        let mut db = store_with_offsets(&[5, 6]);
        db.image.truncate(len);
        assert_eq!(
            db.read_header(),
            Err(TSLiteError::IOError("Could not read header: not enough octets.".to_string()))
        );
        assert_eq!(db.check_db_file(), DbIssue::HeaderCorrupted);
    }
}

#[test]
fn read_header_reads_the_image_not_the_memory() {
    let mut db = store_with_offsets(&[5, 6]);
    db.header.records_number = 40;
    assert_eq!(db.read_header(), Ok(DbHeader { origin_date: origin(), records_number: 2 }));
    assert_eq!(db.header.records_number, 40);
}

#[test]
fn invalid_origin_date_is_found() {
    let bad = Timestamp { year: 1900, month: 2, day: 29, hour: 0, minute: 0, second: 0 };
    let mut db = PhysicalDB::create(Some(bad)).unwrap();
    assert_eq!(db.check_db_file(), DbIssue::OriginDateInvalid);
    db.append_record(RecordInfo { time_offset: 9, value: 0 }).unwrap();
    db.append_record(RecordInfo { time_offset: 1, value: 0 }).unwrap();
    assert_eq!(db.check_db_file(), DbIssue::OriginDateInvalid);
}

#[test]
fn header_that_counts_too_many_records() {
    let mut db = store_with_offsets(&[1, 2, 3]);
    db.update_record_number(2).unwrap();
    assert_eq!(db.read_header().unwrap().records_number, 5);
    assert_eq!(db.check_db_file(), DbIssue::RecordCorrupted(3));
    db.image.truncate(15 + 5 * 2 + 3);
    assert_eq!(db.check_db_file(), DbIssue::RecordCorrupted(2));
}

#[test]
fn disorder_is_found_before_a_missing_record() {
    let mut db = store_with_offsets(&[1, 3, 2]);
    db.update_record_number(2).unwrap();
    assert_eq!(db.check_db_file(), DbIssue::UnorderedRecord);
}

#[test]
fn header_that_counts_too_few_records() {
    let mut db = store_with_offsets(&[1, 2, 3]);
    db.image.extend_from_slice(&RecordInfo { time_offset: 4, value: 0 }.as_bytes());
    assert_eq!(db.check_db_file(), DbIssue::MismatchRecordAmount);
}

#[test]
fn records_beyond_the_count_are_not_scanned() {
    let mut db = store_with_offsets(&[1, 2, 3]);
    db.image.extend_from_slice(&RecordInfo { time_offset: 0, value: 0 }.as_bytes());
    assert_eq!(db.check_db_file(), DbIssue::MismatchRecordAmount);
}

#[test]
fn trailing_bytes_short_of_a_record_are_no_issue() {
    let mut db = store_with_offsets(&[1, 2, 3]);
    db.image.extend_from_slice(&[1, 2, 3, 4]);
    assert_eq!(db.check_db_file(), DbIssue::NoIssue);
}

#[test]
fn equal_offsets_are_in_order() {
    let mut db = store_with_offsets(&[0, 0, 4, 4, 4]);
    assert_eq!(db.check_db_file(), DbIssue::NoIssue);
}

#[test]
fn scan_leaves_the_store_as_it_was() {
    let mut db = store_with_offsets(&[3, 1]);
    let image = db.image.clone();
    let header = db.header;
    assert_eq!(db.check_db_file(), DbIssue::UnorderedRecord);
    assert_eq!(db.image, image);
    assert_eq!(db.header, header);
}

#[test]
fn reorder_sorts_the_records() {
    let mut db = store_with_offsets(&[9, 8, 7, 6, 5, 4, 3, 2, 1, 0]);
    assert_eq!(db.check_db_file(), DbIssue::UnorderedRecord);
    assert_eq!(db.reorder_record(), Ok(()));
    assert_eq!(db.check_db_file(), DbIssue::NoIssue);
    assert_eq!(offsets_of(&mut db, 10), vec![0, 1, 2, 3, 4, 5, 6, 7, 8, 9]);
    for i in 0..10u64 {
        assert_eq!(
            db.read_record(i),
            Ok(RecordInfo { time_offset: i as u32, value: (9 - i) as u8 })
        );
    }
    assert_eq!(db.read_header(), Ok(DbHeader { origin_date: origin(), records_number: 10 }));
    assert_eq!(db.image.len(), 15 + 50);
}

#[test]
fn reorder_keeps_every_record() {
    let mut db = store_with_offsets(&[5, 1, 5, 3, 1]);
    db.reorder_record().unwrap();
    assert_eq!(offsets_of(&mut db, 5), vec![1, 1, 3, 5, 5]);
    let mut values: Vec<(u32, u8)> =
        (0..5).map(|i| db.read_record(i).unwrap()).map(|r| (r.time_offset, r.value)).collect();
    values.sort();
    assert_eq!(values, vec![(1, 1), (1, 4), (3, 3), (5, 0), (5, 2)]);
}

#[test]
fn reorder_touches_only_the_counted_records() {
    let mut db = store_with_offsets(&[3, 2, 1]);
    db.image.extend_from_slice(&[0, 0, 0, 0, 9, 7, 7]);
    db.reorder_record().unwrap();
    assert_eq!(offsets_of(&mut db, 4), vec![1, 2, 3, 0]);
    assert_eq!(&db.image[35..], &[7, 7]);
    assert_eq!(&db.image[..15], DbHeader { origin_date: origin(), records_number: 3 }.as_bytes().as_slice());
}

#[test]
fn reorder_of_missing_records_fails() {
    let mut db = store_with_offsets(&[3, 2, 1]);
    db.header.records_number = 4;
    let image = db.image.clone();
    assert_eq!(db.reorder_record(), Err(TSLiteError::IndexOutOfBound));
    assert_eq!(db.image, image);
}

#[test]
fn reorder_of_an_empty_store() {
    let mut db = PhysicalDB::create(Some(origin())).unwrap();
    assert_eq!(db.reorder_record(), Ok(()));
    assert_eq!(db.image.len(), 15);
}

#[test]
fn operations_keep_header_and_image_together() {
    let mut db = PhysicalDB::create(Some(origin())).unwrap();
    let agree = |db: &PhysicalDB| {
        assert_eq!(DbHeader::from_bytes(&db.image), Ok(db.header));
        assert_eq!((db.image.len() - 15) % 5, 0);
        assert_eq!(tslite::layout::slot_total(db.image.len() as u64), db.header.records_number);
    };
    agree(&db);
    for off in [4u32, 2, 9, 2] {
        db.append_record(RecordInfo { time_offset: off, value: 1 }).unwrap();
        agree(&db);
    }
    db.update_record(2, 77).unwrap();
    agree(&db);
    db.reorder_record().unwrap();
    agree(&db);
    assert_eq!(db.header.origin_date, origin());
    assert_eq!(db.check_db_file(), DbIssue::NoIssue);
}
