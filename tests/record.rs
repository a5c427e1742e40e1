use kvsep::record::{decode_meta_log, MetaRecord, META_RECORD_SIZE};
use kvsep::store::Location;

#[test]
fn encode_layout_is_big_endian() {
    let r = MetaRecord {
        file_index: 7,
        value_log_offset: 0x0102030405060708,
        value_log_length: 0x10,
        split_point: 0xA0B0C0D0E0F00011,
    };
    let b = r.encode();
    assert_eq!(
        b,
        vec![
            7, 1, 2, 3, 4, 5, 6, 7, 8, 0, 0, 0, 0, 0, 0, 0, 0x10, 0xA0, 0xB0, 0xC0, 0xD0, 0xE0, 0xF0,
            0x00, 0x11
        ]
    );
    assert_eq!(b.len(), META_RECORD_SIZE);
    assert_eq!(MetaRecord::decode(&b), Some(r));
}

#[test]
fn encode_extremes_round_trip() {
    let r = MetaRecord { file_index: 255, value_log_offset: u64::MAX, value_log_length: 0, split_point: 1 };
    let b = r.encode();
    assert_eq!(&b[0..9], &[255, 255, 255, 255, 255, 255, 255, 255, 255]);
    assert_eq!(MetaRecord::decode(&b), Some(r));
}

#[test]
fn decode_needs_exactly_one_record() {
    assert_eq!(MetaRecord::decode(&[0u8; 24]), None);
    assert_eq!(MetaRecord::decode(&[0u8; 26]), None);
    assert_eq!(
        MetaRecord::decode(&[0u8; 25]),
        Some(MetaRecord { file_index: 0, value_log_offset: 0, value_log_length: 0, split_point: 0 })
    );
}

#[test]
fn decode_meta_log_splits_records() {
    let a = MetaRecord { file_index: 0, value_log_offset: 0, value_log_length: 11, split_point: 6 };
    let b = MetaRecord { file_index: 1, value_log_offset: 0, value_log_length: 1, split_point: 0 };
    let mut log = a.encode();
    log.extend(b.encode());
    assert_eq!(decode_meta_log(&log), Some(vec![a, b]));
    assert_eq!(decode_meta_log(&[]), Some(vec![]));
    log.push(0);
    assert_eq!(decode_meta_log(&log), None);
}

#[test]
fn record_key_and_value_locations() {
    let r = MetaRecord { file_index: 2, value_log_offset: 100, value_log_length: 11, split_point: 106 };
    assert_eq!(r.key_location(), Some(Location { file_index: 2, offset: 100, length: 6 }));
    assert_eq!(r.value_location(), Some(Location { file_index: 2, offset: 106, length: 5 }));
    let before = MetaRecord { split_point: 99, ..r };
    assert_eq!(before.key_location(), None);
    assert_eq!(before.value_location(), None);
    let after = MetaRecord { split_point: 112, ..r };
    assert_eq!(after.key_location(), None);
    let edge = MetaRecord { split_point: 111, ..r };
    assert_eq!(edge.value_location(), Some(Location { file_index: 2, offset: 111, length: 0 }));
}
