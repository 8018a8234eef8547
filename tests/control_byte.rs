use tlv_codec::reader::TLVReader;
use tlv_codec::tags::TagControl;
use tlv_codec::types::ElementType;

#[test]
fn main_test_parse_control_byte() {
    // Unsigned Integer, 8-octet, value 40000000000
    let test_bytes = &[0x07, 0x00, 0x90, 0x2f, 0x50, 0x09, 0x00, 0x00, 0x00];
    let tlv_reader = TLVReader::new(test_bytes);
    let (remaining_bytes, (tag_control, element_type)) = tlv_reader
        .parse_control_byte()
        .expect("Cannot parse control byte");
    assert_eq!(tag_control << 5, TagControl::Anonymous.value());
    assert_eq!(element_type, ElementType::UInt64.code());
    assert_eq!(
        remaining_bytes,
        [0x00, 0x90, 0x2f, 0x50, 0x09, 0x00, 0x00, 0x00]
    );
}

#[test]
fn test_parse_control_byte_with_field_size() {
    // Unsigned Integer, 8-octet, value 40000000000
    let test_bytes = &[0x07, 0x00, 0x90, 0x2f, 0x50, 0x09, 0x00, 0x00, 0x00];
    let tlv_reader = TLVReader::new(test_bytes);
    let (remaining_bytes, (tag_control, tlv_type, field_size)) = tlv_reader
        .parse_control_byte_with_field_size()
        .expect("Cannot parse control byte");
    assert_eq!(tag_control, TagControl::Anonymous.value());
    assert_eq!(((tlv_type << 2) | field_size), ElementType::UInt64.code());
    // The low two bits select the width: 1 << 3 is eight octets.
    assert_eq!(field_size, 3);
    assert_eq!((1 << field_size) as usize, remaining_bytes.len());
    assert_eq!(
        remaining_bytes,
        [0x00, 0x90, 0x2f, 0x50, 0x09, 0x00, 0x00, 0x00]
    );
}

#[test]
fn main_test_read_u8() {
    let test_bytes = &[0x04, 0xFF]; // Unsigned Integer, 1-octet, value 255
    let tlv_reader = TLVReader::new(test_bytes);
    assert_eq!(tlv_reader.read_u8().expect("Failed to read u8"), 255);
}

#[test]
fn main_test_read_u16() {
    let test_bytes = &[0x05, 0xFF, 0xFF]; // Unsigned Integer, 2-octet, value 65535
    let tlv_reader = TLVReader::new(test_bytes);
    assert_eq!(tlv_reader.read_u16().expect("Failed to read u16"), 65535);
}

#[test]
fn main_test_read_u32() {
    // Unsigned Integer, 4-octet, value 237998115
    let test_bytes = &[0x06, 0x23, 0x90, 0x2f, 0x0E];
    let tlv_reader = TLVReader::new(test_bytes);
    assert_eq!(
        tlv_reader.read_u32().expect("Failed to read u32"),
        237998115
    );
}

#[test]
fn main_test_read_u64() {
    // Unsigned Integer, 8-octet, value 40000000000
    let test_bytes = &[0x07, 0x00, 0x90, 0x2f, 0x50, 0x09, 0x00, 0x00, 0x00];
    let tlv_reader = TLVReader::new(test_bytes);
    assert_eq!(
        tlv_reader.read_u64().expect("Failed to read u64"),
        40000000000
    );
}

#[test]
fn main_test_read_i8() {
    let test_bytes = &[0x00, 0xFF]; // Signed Integer, 1-octet, value -1
    let tlv_reader = TLVReader::new(test_bytes);
    assert_eq!(tlv_reader.read_i8().expect("Failed to read i8"), -1);
}

#[test]
fn main_test_read_i16() {
    let test_bytes = &[0x01, 0x0F, 0xFF]; // Signed Integer, 2-octet, value -241
    let tlv_reader = TLVReader::new(test_bytes);
    assert_eq!(tlv_reader.read_i16().expect("Failed to read i16"), -241);
}

#[test]
fn main_test_read_i32() {
    // Signed Integer, 4-octet, value 237998115
    let test_bytes = &[0x02, 0x23, 0x90, 0x2f, 0x0E];
    let tlv_reader = TLVReader::new(test_bytes);
    assert_eq!(
        tlv_reader.read_i32().expect("Failed to read i32"),
        237998115
    );
}

#[test]
fn main_test_read_i64() {
    // Signed Integer, 8-octet, value 40000000000
    let test_bytes = &[0x03, 0x00, 0x90, 0x2f, 0x50, 0x09, 0x00, 0x00, 0x00];
    let tlv_reader = TLVReader::new(test_bytes);
    assert_eq!(
        tlv_reader.read_i64().expect("Failed to read i64"),
        40000000000
    );
}

#[test]
fn main_test_read_f32() {
    // Single precision floating point 17.9
    let test_bytes = &[0x0a, 0x33, 0x33, 0x8f, 0x41];
    let tlv_reader = TLVReader::new(test_bytes);
    assert_eq!(
        f32::from_bits(tlv_reader.read_f32_bits().expect("Failed to read f32")),
        17.9
    );

    // Single precision floating point infinity
    let test_bytes = &[0x0a, 0x00, 0x00, 0x80, 0x7f];
    let tlv_reader = TLVReader::new(test_bytes);
    assert_eq!(
        f32::from_bits(tlv_reader.read_f32_bits().expect("Failed to read f32")),
        f32::INFINITY
    );

    // Single precision floating point negative infinity
    let test_bytes = &[0x0a, 0x00, 0x00, 0x80, 0xff];
    let tlv_reader = TLVReader::new(test_bytes);
    assert_eq!(
        f32::from_bits(tlv_reader.read_f32_bits().expect("Failed to read f32")),
        f32::NEG_INFINITY
    );
}

#[test]
fn main_test_read_f64() {
    // Double precision floating point 17.9
    let test_bytes = &[0x0b, 0x66, 0x66, 0x66, 0x66, 0x66, 0xe6, 0x31, 0x40];
    let tlv_reader = TLVReader::new(test_bytes);
    assert_eq!(
        f64::from_bits(tlv_reader.read_f64_bits().expect("Failed to read f64")),
        17.9
    );

    // Double precision floating point infinity
    let test_bytes = &[0x0b, 0x00, 0x00, 0x00, 0x00, 0x00, 0x00, 0xf0, 0x7f];
    let tlv_reader = TLVReader::new(test_bytes);
    assert_eq!(
        f64::from_bits(tlv_reader.read_f64_bits().expect("Failed to read f64")),
        f64::INFINITY
    );

    // Double precision floating point negative infinity
    let test_bytes = &[0x0b, 0x00, 0x00, 0x00, 0x00, 0x00, 0x00, 0xf0, 0xff];
    let tlv_reader = TLVReader::new(test_bytes);
    assert_eq!(
        f64::from_bits(tlv_reader.read_f64_bits().expect("Failed to read f64")),
        f64::NEG_INFINITY
    );
}

#[test]
fn main_test_read_bool() {
    let test_bytes = &[0x08]; // Boolean false
    let tlv_reader = TLVReader::new(test_bytes);
    assert!(!tlv_reader.read_bool().expect("Failed to read bool"));

    let test_bytes = &[0x09]; // Boolean true
    let tlv_reader = TLVReader::new(test_bytes);
    assert!(tlv_reader.read_bool().expect("Failed to read bool"));
}

#[test]
fn main_test_read_null() {
    let test_bytes = &[0x14]; // Null
    let tlv_reader = TLVReader::new(test_bytes);
    tlv_reader.read_null().expect("Failed to read null");
}

#[test]
fn main_test_read_sequence() {
    // Unsigned Integer, 8-octet, value 40000000000
    // + Unsigned Integer, 1-octet, value 255
    // + Signed Integer, 4-octet, value -904534
    let test_bytes = &[
        0x07, 0x00, 0x90, 0x2f, 0x50, 0x09, 0x00, 0x00, 0x00, 0x04, 0xFF, 0x02, 0xAA, 0x32,
        0xF2, 0xFF,
    ];
    let mut tlv_reader = TLVReader::new(test_bytes);
    assert_eq!(
        tlv_reader.read_u64().expect("Failed to read u64"),
        40000000000
    );
    tlv_reader
        .next()
        .expect("Failed to move pointer to next element");
    assert_eq!(tlv_reader.read_u8().expect("Failed to read u8"), 255);
    tlv_reader
        .next()
        .expect("Failed to move pointer to next element");
    assert_eq!(tlv_reader.read_i32().expect("Failed to read i32"), -904534);
}
