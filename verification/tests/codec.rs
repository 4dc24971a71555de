use tslite::layout::{slot_position, slot_total, write_bytes_at};
use tslite::{DbHeader, DecodeError, RecordInfo, Timestamp};

fn origin() -> Timestamp {
    Timestamp { year: 1994, month: 7, day: 8, hour: 6, minute: 55, second: 34 }
}

#[test]
fn record_bytes_are_little_endian() {
    let r = RecordInfo { time_offset: 0x01020304, value: 9 };
    assert_eq!(r.as_bytes(), vec![4, 3, 2, 1, 9]);
    assert_eq!(RecordInfo { time_offset: 5, value: 10 }.as_bytes(), vec![5, 0, 0, 0, 10]);
}

#[test]
fn record_round_trip() {
    for r in [
        RecordInfo { time_offset: 0, value: 0 },
        RecordInfo { time_offset: 5, value: 10 },
        RecordInfo { time_offset: u32::MAX, value: 255 },
        RecordInfo { time_offset: 0x80000000, value: 1 },
    ] {
        assert_eq!(RecordInfo::from_bytes(&r.as_bytes()), Ok(r));
    }
}

#[test]
fn record_decode_needs_five_bytes() {
    assert_eq!(RecordInfo::from_bytes(&[1, 2, 3, 4]), Err(DecodeError { needed: 5, found: 4 }));
    assert_eq!(
        RecordInfo::from_bytes(&[1, 2, 3, 4, 5, 6]),
        Ok(RecordInfo { time_offset: 0x04030201, value: 5 })
    );
}

#[test]
fn records_are_ordered_by_time_offset_alone() {
    let a = RecordInfo { time_offset: 1, value: 200 };
    let b = RecordInfo { time_offset: 2, value: 100 };
    let c = RecordInfo { time_offset: 2, value: 7 };
    assert!(a < b);
    assert!(b > a);
    assert_eq!(b.partial_cmp(&c), Some(std::cmp::Ordering::Equal));
    assert!(b != c);
}

#[test]
fn header_bytes_are_little_endian() {
    let h = DbHeader { origin_date: origin(), records_number: 0x0102030405060708 };
    assert_eq!(
        h.as_bytes(),
        vec![0xCA, 0x07, 7, 8, 6, 55, 34, 8, 7, 6, 5, 4, 3, 2, 1]
    );
}

#[test]
fn header_round_trip() {
    for n in [0u64, 1, 255, 256, 1 << 32, u64::MAX] {
        let h = DbHeader { origin_date: origin(), records_number: n };
        assert_eq!(DbHeader::from_bytes(&h.as_bytes()), Ok(h));
    }
}

#[test]
fn header_decode_needs_fifteen_bytes() {
    let h = DbHeader { origin_date: origin(), records_number: 3 };
    let bytes = h.as_bytes();
    assert_eq!(DbHeader::from_bytes(&bytes[..14]), Err(DecodeError { needed: 15, found: 14 }));
    assert_eq!(DbHeader::from_bytes(&bytes[..6]), Err(DecodeError { needed: 15, found: 6 }));
}

#[test]
fn slot_positions() {
    assert_eq!(slot_position(20, 0), Some(15));
    assert_eq!(slot_position(19, 0), None);
    assert_eq!(slot_position(15, 0), None);
    assert_eq!(slot_position(0, 0), None);
    assert_eq!(slot_position(65, 9), Some(60));
    assert_eq!(slot_position(65, 10), None);
    assert_eq!(slot_position(64, 9), None);
    assert_eq!(slot_position(u64::MAX, u64::MAX), None);
    assert_eq!(slot_position(u64::MAX, (u64::MAX - 20) / 5), Some(15 + 5 * ((u64::MAX - 20) / 5)));
}

#[test]
fn slot_totals() {
    assert_eq!(slot_total(0), 0);
    assert_eq!(slot_total(14), 0);
    assert_eq!(slot_total(15), 0);
    assert_eq!(slot_total(19), 0);
    assert_eq!(slot_total(20), 1);
    assert_eq!(slot_total(65), 10);
    assert_eq!(slot_total(69), 10);
}

#[test]
fn write_inside_replaces() {
    let mut image = vec![1u8, 2, 3, 4, 5];
    write_bytes_at(&mut image, 1, &[9, 8]);
    assert_eq!(image, vec![1, 9, 8, 4, 5]);
}

#[test]
fn write_across_the_end_grows() {
    let mut image = vec![1u8, 2, 3];
    write_bytes_at(&mut image, 2, &[9, 8]);
    assert_eq!(image, vec![1, 2, 9, 8]);
    write_bytes_at(&mut image, 4, &[7]);
    assert_eq!(image, vec![1, 2, 9, 8, 7]);
}

#[test]
fn write_past_the_end_fills_with_zeros() {
    let mut image = vec![1u8];
    write_bytes_at(&mut image, 3, &[9]);
    assert_eq!(image, vec![1, 0, 0, 9]);
}

#[test]
fn write_of_nothing_changes_nothing() {
    let mut image = vec![1u8];
    write_bytes_at(&mut image, 3, &[]);
    assert_eq!(image, vec![1]);
}
