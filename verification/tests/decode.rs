use shpinfo::dbf::{Error, FieldType, Header, RecordFieldInfo, read_dbf_fields};
use shpinfo::shx::feature_count_from_words;

/// A 32-byte attribute-file header with the three interpreted fields set
/// and every reserved byte zero.
fn header_bytes(record_count: u32, offset: u16, record_size: u16) -> Vec<u8> {
    let mut v = vec![0u8; 32];
    v[4..8].copy_from_slice(&record_count.to_le_bytes());
    v[8..10].copy_from_slice(&offset.to_le_bytes());
    v[10..12].copy_from_slice(&record_size.to_le_bytes());
    v
}

/// A 32-byte field-descriptor slot: NUL-padded name, type character,
/// value width and decimal count, reserved bytes zero.
fn descriptor_slot(name: &[u8], type_byte: u8, length: u8, decimals: u8) -> Vec<u8> {
    assert!(name.len() <= 11);
    let mut v = vec![0u8; 32];
    v[..name.len()].copy_from_slice(name);
    v[11] = type_byte;
    v[16] = length;
    v[17] = decimals;
    v
}

#[test]
fn header_decodes_declared_fields() {
    let bytes = header_bytes(3, 97, 50);
    let h = Header::read_from(&bytes).unwrap();
    assert_eq!(h.num_records, 3);
    assert_eq!(h.offset_to_first_record, 97);
    assert_eq!(h.size_of_record, 50);
}

#[test]
fn header_short_read_is_io_error() {
    let bytes = vec![0u8; 10];
    assert!(matches!(Header::read_from(&bytes), Err(Error::IoError)));
}

#[test]
fn field_count_absorbs_terminator_byte() {
    let bytes = header_bytes(3, 97, 50);
    let h = Header::read_from(&bytes).unwrap();
    assert_eq!(h.field_count().unwrap(), 2);
}

#[test]
fn malformed_header_offset_rejected() {
    let h = Header {
        num_records: 1,
        offset_to_first_record: 0,
        size_of_record: 10,
    };
    assert!(matches!(
        h.field_count(),
        Err(Error::ArithmeticInconsistency(0))
    ));
    let bytes = header_bytes(1, 0, 10);
    assert!(matches!(
        read_dbf_fields(&bytes),
        Err(Error::ArithmeticInconsistency(0))
    ));
}

#[test]
fn name_trailing_nuls_stripped() {
    let slot = descriptor_slot(b"FIELD1", b'C', 25, 0);
    let (info, end) = RecordFieldInfo::read_from(&slot, 0).unwrap();
    assert_eq!(info.name, "FIELD1");
    assert_eq!(info.field_type, FieldType::Character);
    assert_eq!(info.record_length, 25);
    assert_eq!(info.num_decimal_places, 0);
    assert_eq!(end, 32);
}

#[test]
fn name_pad_strip_idempotent() {
    let slot = descriptor_slot(b"FIELD1", b'C', 25, 0);
    let (first, _) = RecordFieldInfo::read_from(&slot, 0).unwrap();
    let repadded = descriptor_slot(first.name.as_bytes(), b'C', 25, 0);
    let (second, _) = RecordFieldInfo::read_from(&repadded, 0).unwrap();
    assert_eq!(second.name, first.name);
}

#[test]
fn reserved_slot_bytes_are_ignored() {
    let mut slot = descriptor_slot(b"AREA", b'N', 18, 5);
    for i in 12..16 {
        slot[i] = 0xAB;
    }
    for i in 18..32 {
        slot[i] = 0xCD;
    }
    let (info, _) = RecordFieldInfo::read_from(&slot, 0).unwrap();
    assert_eq!(info.name, "AREA");
    assert_eq!(info.field_type, FieldType::Numeric);
    assert_eq!(info.record_length, 18);
    assert_eq!(info.num_decimal_places, 5);
}

#[test]
fn lossy_name_decoding_replaces_invalid_bytes() {
    let slot = descriptor_slot(&[0xFF, b'A'], b'C', 10, 0);
    let (info, _) = RecordFieldInfo::read_from(&slot, 0).unwrap();
    assert_eq!(info.name, "\u{FFFD}A");
}

#[test]
fn interior_nul_is_kept() {
    let slot = descriptor_slot(&[b'A', 0, b'B'], b'C', 10, 0);
    let (info, _) = RecordFieldInfo::read_from(&slot, 0).unwrap();
    assert_eq!(info.name, "A\0B");
}

#[test]
fn unknown_type_code_rejected() {
    let slot = descriptor_slot(b"BAD", b'Z', 4, 0);
    assert!(matches!(
        RecordFieldInfo::read_from(&slot, 0),
        Err(Error::InvalidFieldType('Z'))
    ));
    assert!(matches!(
        FieldType::try_from('Z'),
        Err(Error::InvalidFieldType('Z'))
    ));
}

#[test]
fn every_recognized_type_code_maps() {
    let cases = [
        ('C', FieldType::Character),
        ('Y', FieldType::Currency),
        ('N', FieldType::Numeric),
        ('F', FieldType::Float),
        ('D', FieldType::Date),
        ('T', FieldType::DateTime),
        ('B', FieldType::Double),
        ('I', FieldType::Integer),
        ('L', FieldType::Logical),
        ('M', FieldType::Memo),
        ('G', FieldType::General),
    ];
    for (c, t) in cases {
        assert_eq!(FieldType::from(c), Some(t));
        assert_eq!(FieldType::try_from(c).unwrap(), t);
    }
    assert_eq!(FieldType::from('z'), None);
}

#[test]
fn descriptor_short_read_is_io_error() {
    let slot = descriptor_slot(b"FIELD1", b'C', 25, 0);
    assert!(matches!(
        RecordFieldInfo::read_from(&slot[..31], 0),
        Err(Error::IoError)
    ));
    assert!(matches!(
        RecordFieldInfo::read_from(&slot, 1),
        Err(Error::IoError)
    ));
}

#[test]
fn feature_count_exact() {
    // 450 words on disk: 450 * 2 - 100 == 800 bytes of records, 100 features.
    assert_eq!(feature_count_from_words(450).unwrap(), 100);
    // The smallest index: header only, no features.
    assert_eq!(feature_count_from_words(50).unwrap(), 0);
}

#[test]
fn feature_count_remainder_rejected() {
    // 451 words leave a remainder: truncating division would report 100.
    assert!(matches!(
        feature_count_from_words(451),
        Err(Error::ArithmeticInconsistency(802))
    ));
}

#[test]
fn feature_count_negative_rejected() {
    assert!(matches!(
        feature_count_from_words(10),
        Err(Error::ArithmeticInconsistency(-80))
    ));
}

#[test]
fn reads_exactly_the_declared_descriptors() {
    // Header declares offset 97 == 32 + 2 * 32 + 1 terminator byte: the
    // decoder must read exactly 2 slots and stop.
    let mut bytes = header_bytes(3, 97, 50);
    bytes.extend_from_slice(&descriptor_slot(b"ID", b'N', 10, 0));
    bytes.extend_from_slice(&descriptor_slot(b"NAME", b'C', 20, 0));
    bytes.push(0x0D);
    // Data records would follow; their bytes must never be interpreted.
    bytes.extend_from_slice(&[b'Z'; 50]);
    let fields = read_dbf_fields(&bytes).unwrap();
    assert_eq!(fields.len(), 2);
    assert_eq!(fields[0].name, "ID");
    assert_eq!(fields[0].field_type, FieldType::Numeric);
    assert_eq!(fields[0].record_length, 10);
    assert_eq!(fields[1].name, "NAME");
    assert_eq!(fields[1].field_type, FieldType::Character);
    assert_eq!(fields[1].record_length, 20);
}

#[test]
fn round_trip_offset_consumes_exactly_the_slots() {
    // offset == 32 + 2 * 32 exactly: the two slots fill the gap between
    // the header and the first record with nothing left over.
    let mut bytes = header_bytes(7, 96, 31);
    bytes.extend_from_slice(&descriptor_slot(b"A", b'L', 1, 0));
    bytes.extend_from_slice(&descriptor_slot(b"B", b'D', 8, 0));
    let fields = read_dbf_fields(&bytes).unwrap();
    assert_eq!(fields.len(), 2);
    // Each decode consumes exactly one 32-byte slot.
    let (_, end) = RecordFieldInfo::read_from(&bytes, 32).unwrap();
    assert_eq!(end, 64);
    let (_, end) = RecordFieldInfo::read_from(&bytes, end).unwrap();
    assert_eq!(end, 96);
}

#[test]
fn truncated_descriptor_block_is_io_error() {
    // The header promises 2 slots but only one fits in the input.
    let mut bytes = header_bytes(1, 97, 10);
    bytes.extend_from_slice(&descriptor_slot(b"ID", b'N', 10, 0));
    assert!(matches!(read_dbf_fields(&bytes), Err(Error::IoError)));
}

#[test]
fn bad_type_in_second_descriptor_rejected() {
    let mut bytes = header_bytes(1, 97, 10);
    bytes.extend_from_slice(&descriptor_slot(b"ID", b'N', 10, 0));
    bytes.extend_from_slice(&descriptor_slot(b"BAD", b'Q', 4, 0));
    assert!(matches!(
        read_dbf_fields(&bytes),
        Err(Error::InvalidFieldType('Q'))
    ));
}
