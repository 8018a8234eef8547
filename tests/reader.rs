use tlv_codec::errors::TLVError;
use tlv_codec::reader::TLVReader;
use tlv_codec::tags::{
    CommonProfileLength, FullyQualifiedProfileLength, TLVTag, TagControl, CONTROL_BYTE_SHIFT,
};
use tlv_codec::types::ElementType;

#[test]
fn reader_test_parse_control_byte() {
    // Unsigned Integer, 8-octet, value 40000000000
    let test_bytes = &[0x07, 0x00, 0x90, 0x2f, 0x50, 0x09, 0x00, 0x00, 0x00];
    let tlv_reader = TLVReader::new(test_bytes);
    let (remaining_bytes, (tag_control, element_type)) = tlv_reader
        .parse_control_byte()
        .expect("Cannot parse control byte");
    assert_eq!(
        tag_control << CONTROL_BYTE_SHIFT,
        TagControl::Anonymous.value()
    );
    assert_eq!(element_type, ElementType::UInt64.code());
    assert_eq!(
        remaining_bytes,
        [0x00, 0x90, 0x2f, 0x50, 0x09, 0x00, 0x00, 0x00]
    );
}

#[test]
fn reader_test_read_u8() {
    let test_bytes = &[0x04, 0xFF]; // Unsigned Integer, 1-octet, value 255
    let tlv_reader = TLVReader::new(test_bytes);
    assert_eq!(tlv_reader.read_u8().expect("Failed to read u8"), 255);
}

#[test]
fn test_read_u8_tagged() {
    // Anonymous tag, Unsigned Integer, 1-octet value, 42U
    let test_bytes = &[0x04, 0x2a];
    let tlv_reader = TLVReader::new(test_bytes);
    assert_eq!(
        tlv_reader.read_tag().expect("Failed to read tag"),
        TLVTag::Anonymous
    );
    assert_eq!(tlv_reader.read_u8().expect("Failed to read u8"), 42);

    // Context tag 1, Unsigned Integer, 1-octet value, 1 = 42U
    let test_bytes = &[0x24, 0x01, 0x2a];
    let tlv_reader = TLVReader::new(test_bytes);
    assert_eq!(
        tlv_reader.read_tag().expect("Failed to read tag"),
        TLVTag::ContextSpecific(1)
    );
    assert_eq!(tlv_reader.read_u8().expect("Failed to read u8"), 42);

    // Common profile tag 1, Unsigned Integer, 1-octet value, CHIP::1 = 42U
    let test_bytes = &[0x44, 0x01, 0x00, 0x2a];
    let tlv_reader = TLVReader::new(test_bytes);
    assert_eq!(
        tlv_reader.read_tag().expect("Failed to read tag"),
        TLVTag::CommonProfile(CommonProfileLength::TwoOctets { tag_number: 1 })
    );
    assert_eq!(tlv_reader.read_u8().expect("Failed to read u8"), 42);

    // Common profile tag 100000, Unsigned Integer, 1-octet value, CHIP::100000 = 42U
    let test_bytes = &[0x64, 0xa0, 0x86, 0x01, 0x00, 0x2a];
    let tlv_reader = TLVReader::new(test_bytes);
    assert_eq!(
        tlv_reader.read_tag().expect("Failed to read tag"),
        TLVTag::CommonProfile(CommonProfileLength::FourOctets { tag_number: 100000 })
    );
    assert_eq!(tlv_reader.read_u8().expect("Failed to read u8"), 42);

    // Fully qualified tag, Vendor ID 0xFFF1/65521, profile number 0xDEED/57069,
    // 2-octet tag 1, Unsigned Integer, 1-octet value 42, 65521::57069:1 = 42U
    let test_bytes = &[0xc4, 0xf1, 0xff, 0xed, 0xde, 0x01, 0x00, 0x2a];
    let tlv_reader = TLVReader::new(test_bytes);
    assert_eq!(
        tlv_reader.read_tag().expect("Failed to read tag"),
        TLVTag::FullyQualifiedProfile(FullyQualifiedProfileLength::SixOctets {
            vendor_id: 65521,
            profile_number: 57069,
            tag_number: 1
        })
    );
    assert_eq!(tlv_reader.read_u8().expect("Failed to read u8"), 42);

    // Fully qualified tag, Vendor ID 0xFFF1/65521, profile number 0xDEED/57069,
    // 4-octet tag 0xAA55FEED/2857762541,
    // Unsigned Integer, 1-octet value 42, 65521::57069:2857762541 = 42U
    let test_bytes = &[0xe4, 0xf1, 0xff, 0xed, 0xde, 0xed, 0xfe, 0x55, 0xaa, 0x2a];
    let tlv_reader = TLVReader::new(test_bytes);
    assert_eq!(
        tlv_reader.read_tag().expect("Failed to read tag"),
        TLVTag::FullyQualifiedProfile(FullyQualifiedProfileLength::EightOctets {
            vendor_id: 65521,
            profile_number: 57069,
            tag_number: 2857762541
        })
    );
    assert_eq!(tlv_reader.read_u8().expect("Failed to read u8"), 42);
}

#[test]
fn reader_test_read_u16() {
    let test_bytes = &[0x05, 0xFF, 0xFF]; // Unsigned Integer, 2-octet, value 65535
    let tlv_reader = TLVReader::new(test_bytes);
    assert_eq!(tlv_reader.read_u16().expect("Failed to read u16"), 65535);
}

#[test]
fn reader_test_read_u32() {
    // Unsigned Integer, 4-octet, value 237998115
    let test_bytes = &[0x06, 0x23, 0x90, 0x2f, 0x0E];
    let tlv_reader = TLVReader::new(test_bytes);
    assert_eq!(
        tlv_reader.read_u32().expect("Failed to read u32"),
        237998115
    );
}

#[test]
fn reader_test_read_u64() {
    // Unsigned Integer, 8-octet, value 40000000000
    let test_bytes = &[0x07, 0x00, 0x90, 0x2f, 0x50, 0x09, 0x00, 0x00, 0x00];
    let tlv_reader = TLVReader::new(test_bytes);
    assert_eq!(
        tlv_reader.read_u64().expect("Failed to read u64"),
        40000000000
    );
}

#[test]
fn reader_test_read_i8() {
    let test_bytes = &[0x00, 0xFF]; // Signed Integer, 1-octet, value -1
    let tlv_reader = TLVReader::new(test_bytes);
    assert_eq!(tlv_reader.read_i8().expect("Failed to read i8"), -1);
}

#[test]
fn reader_test_read_i16() {
    let test_bytes = &[0x01, 0x0F, 0xFF]; // Signed Integer, 2-octet, value -241
    let tlv_reader = TLVReader::new(test_bytes);
    assert_eq!(tlv_reader.read_i16().expect("Failed to read i16"), -241);
}

#[test]
fn reader_test_read_i32() {
    // Signed Integer, 4-octet, value 237998115
    let test_bytes = &[0x02, 0x23, 0x90, 0x2f, 0x0E];
    let tlv_reader = TLVReader::new(test_bytes);
    assert_eq!(
        tlv_reader.read_i32().expect("Failed to read i32"),
        237998115
    );
}

#[test]
fn reader_test_read_i64() {
    // Signed Integer, 8-octet, value 40000000000
    let test_bytes = &[0x03, 0x00, 0x90, 0x2f, 0x50, 0x09, 0x00, 0x00, 0x00];
    let tlv_reader = TLVReader::new(test_bytes);
    assert_eq!(
        tlv_reader.read_i64().expect("Failed to read i64"),
        40000000000
    );
}

#[test]
fn reader_test_read_f32() {
    // Single precision floating point 17.9
    let test_bytes = &[0x0a, 0x33, 0x33, 0x8f, 0x41];
    let tlv_reader = TLVReader::new(test_bytes);
    let expected: f32 = 17.9;
    let actual = f32::from_bits(tlv_reader.read_f32_bits().expect("Failed to read f32"));
    assert!((expected - actual).abs() < f32::EPSILON);

    // Single precision floating point infinity
    let test_bytes = &[0x0a, 0x00, 0x00, 0x80, 0x7f];
    let tlv_reader = TLVReader::new(test_bytes);
    let infinity = f32::from_bits(tlv_reader.read_f32_bits().expect("Failed to read f32"));
    assert!(infinity.is_sign_positive());
    assert!(infinity.is_infinite());

    // Single precision floating point negative infinity
    let test_bytes = &[0x0a, 0x00, 0x00, 0x80, 0xff];
    let tlv_reader = TLVReader::new(test_bytes);
    let infinity = f32::from_bits(tlv_reader.read_f32_bits().expect("Failed to read f32"));
    assert!(infinity.is_sign_negative());
    assert!(infinity.is_infinite());
}

#[test]
fn reader_test_read_f64() {
    // Double precision floating point 17.9
    let test_bytes = &[0x0b, 0x66, 0x66, 0x66, 0x66, 0x66, 0xe6, 0x31, 0x40];
    let tlv_reader = TLVReader::new(test_bytes);
    let expected: f64 = 17.9;
    let actual = f64::from_bits(tlv_reader.read_f64_bits().expect("Failed to read f64"));
    assert!((expected - actual).abs() < f64::EPSILON);

    // Double precision floating point infinity
    let test_bytes = &[0x0b, 0x00, 0x00, 0x00, 0x00, 0x00, 0x00, 0xf0, 0x7f];
    let tlv_reader = TLVReader::new(test_bytes);
    let infinity = f64::from_bits(tlv_reader.read_f64_bits().expect("Failed to read f64"));
    assert!(infinity.is_sign_positive());
    assert!(infinity.is_infinite());

    // Double precision floating point negative infinity
    let test_bytes = &[0x0b, 0x00, 0x00, 0x00, 0x00, 0x00, 0x00, 0xf0, 0xff];
    let tlv_reader = TLVReader::new(test_bytes);
    let infinity = f64::from_bits(tlv_reader.read_f64_bits().expect("Failed to read f64"));
    assert!(infinity.is_sign_negative());
    assert!(infinity.is_infinite());
}

#[test]
fn reader_test_read_bool() {
    let test_bytes = &[0x08]; // Boolean false
    let tlv_reader = TLVReader::new(test_bytes);
    assert!(!tlv_reader.read_bool().expect("Failed to read bool"));

    let test_bytes = &[0x09]; // Boolean true
    let tlv_reader = TLVReader::new(test_bytes);
    assert!(tlv_reader.read_bool().expect("Failed to read bool"));
}

#[test]
fn reader_test_read_null() {
    let test_bytes = &[0x14]; // Null
    let tlv_reader = TLVReader::new(test_bytes);
    tlv_reader.read_null().expect("Failed to read null");
}

#[test]
fn test_read_byte_str() {
    // Octet String, 1-octet length specifying 5 octets 00 01 02 03 04
    let test_bytes = &[0x10, 0x05, 0x00, 0x01, 0x02, 0x03, 0x04];
    let tlv_reader = TLVReader::new(test_bytes);
    assert_eq!(
        tlv_reader
            .read_byte_str()
            .expect("Failed to read byte string"),
        [0x00, 0x01, 0x02, 0x03, 0x04]
    );
}

#[test]
fn test_read_char_str() {
    // UTF-8 String, 1-octet length, "Hello!"
    let test_bytes = &[0x0c, 0x06, 0x48, 0x65, 0x6c, 0x6c, 0x6f, 0x21];
    let tlv_reader = TLVReader::new(test_bytes);
    assert_eq!(
        tlv_reader
            .read_char_str()
            .expect("Failed to read character string"),
        "Hello!"
    );

    // UTF-8 String, 1-octet length, "Tschüs"
    let test_bytes = &[0x0c, 0x07, 0x54, 0x73, 0x63, 0x68, 0xc3, 0xbc, 0x73];
    let mut tlv_reader = TLVReader::new(test_bytes);
    assert_eq!(
        tlv_reader
            .read_char_str()
            .expect("Failed to read character string"),
        "Tschüs"
    );
    assert_eq!(
        tlv_reader.next().expect_err("Sequence End is expected"),
        TLVError::EndOfTLV
    );
}

#[test]
fn reader_test_read_sequence() {
    // Unsigned Integer, 8-octet, value 40000000000
    // + Unsigned Integer, 1-octet, value 255
    // + Signed Integer, 4-octet, value -904534
    // + Boolean true
    // + Null
    // + Double precision floating point negative infinity
    // + UTF-8 String, 1-octet length, "The End."
    let test_bytes = &[
        0x07, 0x00, 0x90, 0x2f, 0x50, 0x09, 0x00, 0x00, 0x00, 0x04, 0xFF, 0x02, 0xAA, 0x32,
        0xF2, 0xFF, 0x09, 0x14, 0x0b, 0x00, 0x00, 0x00, 0x00, 0x00, 0x00, 0xf0, 0xff, 0x0c,
        0x08, 0x54, 0x68, 0x65, 0x20, 0x45, 0x6e, 0x64, 0x2e,
    ];
    let mut tlv_reader = TLVReader::new(test_bytes);

    assert_eq!(
        tlv_reader.read_u64().expect("Failed to read u64"),
        40000000000
    );

    tlv_reader
        .next()
        .expect("Failed to move pointer to next element");
    assert_eq!(tlv_reader.read_u8().expect("Failed to read u8"), 255);

    tlv_reader
        .next()
        .expect("Failed to move pointer to next element");
    assert_eq!(tlv_reader.read_i32().expect("Failed to read i32"), -904534);

    tlv_reader
        .next()
        .expect("Failed to move pointer to next element");
    assert!(tlv_reader.read_bool().expect("Failed to read bool"));

    tlv_reader
        .next()
        .expect("Failed to move pointer to next element");
    tlv_reader.read_null().expect("Failed to read null byte");

    tlv_reader
        .next()
        .expect("Failed to move pointer to next element");
    let infinity = f64::from_bits(tlv_reader.read_f64_bits().expect("Failed to read f64"));
    assert!(infinity.is_sign_negative());
    assert!(infinity.is_infinite());

    tlv_reader
        .next()
        .expect("Failed to move pointer to next element");
    assert_eq!(
        tlv_reader
            .read_char_str()
            .expect("Failed to read character string"),
        "The End."
    );

    assert_eq!(
        tlv_reader.next().expect_err("Sequence End is expected"),
        TLVError::EndOfTLV
    );
}
