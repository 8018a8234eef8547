use bytes::Bytes;
use tlv_codec::errors::TLVError;
use tlv_codec::reader::TLVReader;
use tlv_codec::tags::{
    parse_tag, tag_bytes, CommonProfileLength, FullyQualifiedProfileLength,
    ImplicitProfileLength, TLVTag, TagControl,
};
use tlv_codec::types::{
    ContainerType, ElementType, Float32Bits, Float64Bits, PredeterminedLenPrimitive,
    PrimitiveLengthType, TLVFieldSize, TLVPrimitive, TLVType, UnsignedInteger,
};
use tlv_codec::util::{parse_i16, parse_str, parse_u16, parse_u32};
use tlv_codec::writer::{TLVEncode, TLVWriter};

fn all_tags() -> Vec<TLVTag> {
    vec![
        TLVTag::Anonymous,
        TLVTag::ContextSpecific(7),
        TLVTag::CommonProfile(CommonProfileLength::TwoOctets { tag_number: 0x1234 }),
        TLVTag::CommonProfile(CommonProfileLength::FourOctets { tag_number: 0x89AB_CDEF }),
        TLVTag::ImplicitProfile(ImplicitProfileLength::TwoOctets { tag_number: 0xBEEF }),
        TLVTag::ImplicitProfile(ImplicitProfileLength::FourOctets { tag_number: 100000 }),
        TLVTag::FullyQualifiedProfile(FullyQualifiedProfileLength::SixOctets {
            vendor_id: 65521,
            profile_number: 57069,
            tag_number: 1,
        }),
        TLVTag::FullyQualifiedProfile(FullyQualifiedProfileLength::EightOctets {
            vendor_id: 65521,
            profile_number: 57069,
            tag_number: 2857762541,
        }),
    ]
}

#[test]
fn round_trip_every_kind_and_tag() {
    for tag in all_tags() {
        let reader = TLVReader::new(&255u8.encode_tlv_with_tag(tag));
        assert_eq!(reader.read_tag(), Ok(tag));
        assert_eq!(reader.read_u8(), Ok(255));
        assert_eq!(TLVReader::new(&65534u16.encode_tlv_with_tag(tag)).read_u16(), Ok(65534));
        assert_eq!(TLVReader::new(&4000000000u32.encode_tlv_with_tag(tag)).read_u32(), Ok(4000000000));
        assert_eq!(TLVReader::new(&u64::MAX.encode_tlv_with_tag(tag)).read_u64(), Ok(u64::MAX));
        assert_eq!(TLVReader::new(&(-128i8).encode_tlv_with_tag(tag)).read_i8(), Ok(-128));
        assert_eq!(TLVReader::new(&(-241i16).encode_tlv_with_tag(tag)).read_i16(), Ok(-241));
        assert_eq!(TLVReader::new(&i32::MIN.encode_tlv_with_tag(tag)).read_i32(), Ok(i32::MIN));
        assert_eq!(TLVReader::new(&(-40000000000i64).encode_tlv_with_tag(tag)).read_i64(), Ok(-40000000000));
        assert_eq!(TLVReader::new(&i64::MAX.encode_tlv_with_tag(tag)).read_i64(), Ok(i64::MAX));
        let f = Float32Bits(17.9f32.to_bits());
        let r = TLVReader::new(&f.encode_tlv_with_tag(tag));
        assert_eq!(f32::from_bits(r.read_f32_bits().unwrap()), 17.9f32);
        let d = Float64Bits((-0.5f64).to_bits());
        let r = TLVReader::new(&d.encode_tlv_with_tag(tag));
        assert_eq!(f64::from_bits(r.read_f64_bits().unwrap()), -0.5f64);
        assert_eq!(TLVReader::new(&true.encode_tlv_with_tag(tag)).read_bool(), Ok(true));
        assert_eq!(TLVReader::new(&false.encode_tlv_with_tag(tag)).read_bool(), Ok(false));
        let null = tlv_codec::writer::encode_null_with_tag(tag);
        let r = TLVReader::new(&null);
        assert_eq!(r.read_null(), Ok(()));
        assert_eq!(r.read_tag(), Ok(tag));
        let text = String::from("Grüße, TLV");
        let r = TLVReader::new(&text.encode_tlv_with_tag(tag));
        assert_eq!(r.read_char_str(), Ok(text.clone()));
        assert_eq!(r.read_tag(), Ok(tag));
        let blob: Vec<u8> = vec![0, 1, 2, 0xFF];
        let r = TLVReader::new(&blob.encode_tlv_with_tag(tag));
        assert_eq!(r.read_byte_str(), Ok(blob.clone()));
        let shared = Bytes::from(vec![9u8, 8, 7]);
        let r = TLVReader::new(&shared.encode_tlv_with_tag(tag));
        assert_eq!(r.read_byte_str(), Ok(vec![9u8, 8, 7]));
    }
}

#[test]
fn tag_bytes_are_little_endian() {
    assert_eq!(tag_bytes(TLVTag::Anonymous), Vec::<u8>::new());
    assert_eq!(
        tag_bytes(TLVTag::ImplicitProfile(ImplicitProfileLength::FourOctets { tag_number: 100000 })),
        vec![0xa0, 0x86, 0x01, 0x00]
    );
    for tag in all_tags() {
        assert_eq!(tag_bytes(tag).len(), tag.octets_count() as usize);
        assert_eq!(TagControl::try_from(tag.tag_control().value()), Ok(tag.tag_control()));
    }
}

#[test]
fn minimal_length_field_width() {
    assert_eq!(TLVFieldSize::pick_width(255), TLVFieldSize::OneOctet);
    assert_eq!(TLVFieldSize::pick_width(256), TLVFieldSize::TwoOctets);
    assert_eq!(TLVFieldSize::pick_width(65535), TLVFieldSize::TwoOctets);
    assert_eq!(TLVFieldSize::pick_width(65536), TLVFieldSize::FourOctets);
    assert_eq!(TLVFieldSize::pick_width(4294967295), TLVFieldSize::FourOctets);
    assert_eq!(TLVFieldSize::pick_width(4294967296), TLVFieldSize::EightOctets);
    assert_eq!(TLVFieldSize::TwoOctets.write_length(256), vec![0x00, 0x01]);

    let text: String = "a".repeat(255);
    let bytes = text.encode_tlv();
    assert_eq!(&bytes[..2], &[0x0C, 0xFF]);
    assert_eq!(bytes.len(), 257);
    let text: String = "a".repeat(256);
    let bytes = text.encode_tlv();
    assert_eq!(&bytes[..3], &[0x0D, 0x00, 0x01]);
    assert_eq!(TLVReader::new(&bytes).read_char_str(), Ok(text));

    let (element_type, len_bytes, val_bytes) = Vec::<u8>::parse_value(vec![7u8; 256]);
    assert_eq!(element_type, ElementType::ByteString2ByteLength);
    assert_eq!(len_bytes, vec![0x00, 0x01]);
    assert_eq!(val_bytes.len(), 256);
}

#[test]
fn control_byte_decomposition_u64() {
    let bytes = 40000000000u64.encode_tlv_with_tag(TLVTag::Anonymous);
    assert_eq!(bytes, vec![0x07, 0x00, 0x90, 0x2F, 0x50, 0x09, 0x00, 0x00, 0x00]);
    let reader = TLVReader::new(&bytes);
    let (rest, tag, tlv_type) = reader.parse_control().unwrap();
    assert_eq!(tag, TLVTag::Anonymous);
    assert_eq!(tlv_type, TLVType::from_element_type(ElementType::UInt64));
    assert_eq!(
        tlv_type,
        TLVType::Primitive(PrimitiveLengthType::Predetermined(
            PredeterminedLenPrimitive::UnsignedInteger(UnsignedInteger::UInt64)
        ))
    );
    assert_eq!(rest.len(), 8);
    assert_eq!(reader.read_u64(), Ok(40000000000));
}

#[test]
fn sequence_of_written_elements() {
    let mut writer = TLVWriter::new();
    writer.write(&40000000000u64);
    writer.write(&255u8);
    writer.write(&(-904534i32));
    let bytes = writer.into_bytes();
    let mut reader = TLVReader::new(&bytes);
    assert_eq!(reader.read_u64(), Ok(40000000000));
    assert_eq!(reader.next(), Ok(()));
    assert_eq!(reader.read_u8(), Ok(255));
    assert_eq!(reader.next(), Ok(()));
    assert_eq!(reader.read_i32(), Ok(-904534));
    assert_eq!(reader.next(), Err(TLVError::EndOfTLV));
    assert_eq!(reader.read_i32(), Ok(-904534));
}

#[test]
fn context_tag_at_top_level_and_in_container() {
    let top = 42u8.encode_tlv_with_tag(TLVTag::ContextSpecific(1));
    assert_eq!(top, vec![0x24, 0x01, 0x2A]);
    let reader = TLVReader::new(&top);
    assert_eq!(reader.read_tag(), Ok(TLVTag::ContextSpecific(1)));
    assert_eq!(reader.read_u8(), Ok(42));

    let mut writer = TLVWriter::new();
    writer.open_container(ContainerType::List);
    writer.write_with_tag(TLVTag::ContextSpecific(1), &42u8);
    writer.close_container();
    assert_eq!(writer.as_bytes(), &[0x17, 0x24, 0x01, 0x2A, 0x18]);
}

#[test]
fn truncated_encodings_underrun() {
    let tag = TLVTag::ContextSpecific(3);
    let encodings: Vec<Vec<u8>> = vec![
        7u8.encode_tlv_with_tag(tag),
        7u16.encode_tlv(),
        7u32.encode_tlv(),
        7u64.encode_tlv(),
        (-7i8).encode_tlv(),
        (-7i16).encode_tlv_with_tag(tag),
        (-7i32).encode_tlv(),
        (-7i64).encode_tlv(),
        Float32Bits(1.5f32.to_bits()).encode_tlv(),
        Float64Bits(1.5f64.to_bits()).encode_tlv(),
        true.encode_tlv_with_tag(tag),
        tlv_codec::writer::encode_null_with_tag(tag),
        String::from("abc").encode_tlv(),
        String::new().encode_tlv(),
        vec![1u8, 2, 3].encode_tlv_with_tag(tag),
    ];
    for full in encodings {
        let cut = &full[..full.len() - 1];
        let mut reader = TLVReader::new(cut);
        assert_eq!(reader.next(), Err(TLVError::UnderRun));
    }
    let full = 7u16.encode_tlv();
    assert_eq!(TLVReader::new(&full[..2]).read_u16(), Err(TLVError::UnderRun));
    let full = (-7i64).encode_tlv_with_tag(tag);
    assert_eq!(TLVReader::new(&full[..full.len() - 1]).read_i64(), Err(TLVError::UnderRun));
    let full = String::from("abc").encode_tlv();
    assert_eq!(TLVReader::new(&full[..full.len() - 1]).read_char_str(), Err(TLVError::UnderRun));
    let full = vec![1u8, 2, 3].encode_tlv();
    assert_eq!(TLVReader::new(&full[..full.len() - 1]).read_byte_str(), Err(TLVError::UnderRun));
    let full = true.encode_tlv_with_tag(tag);
    assert_eq!(TLVReader::new(&full[..1]).read_bool(), Err(TLVError::UnderRun));

    let mut writer = TLVWriter::new();
    writer.open_container(ContainerType::Structure);
    writer.write_with_tag(TLVTag::ContextSpecific(1), &42u8);
    writer.close_container();
    let full = writer.into_bytes();
    let mut reader = TLVReader::new(&full[..full.len() - 1]);
    assert_eq!(reader.next(), Err(TLVError::UnderRun));
    assert_eq!(reader.enter_container().err(), Some(TLVError::UnderRun));
}

#[test]
fn structure_skip_and_enter() {
    let mut writer = TLVWriter::new();
    writer.open_container_with_tag(TLVTag::Anonymous, ContainerType::Structure);
    writer.write_with_tag(TLVTag::ContextSpecific(1), &42u8);
    writer.write_with_tag(TLVTag::ContextSpecific(2), &true);
    writer.close_container();
    writer.write(&7u8);
    let bytes = writer.into_bytes();
    assert_eq!(bytes, vec![0x15, 0x24, 0x01, 0x2A, 0x29, 0x02, 0x18, 0x04, 0x07]);

    let mut reader = TLVReader::new(&bytes);
    let mut inner = reader.enter_container().unwrap();
    assert_eq!(inner.read_tag(), Ok(TLVTag::ContextSpecific(1)));
    assert_eq!(inner.read_u8(), Ok(42));
    assert!(!inner.is_end_of_container());
    assert_eq!(inner.next(), Ok(()));
    assert_eq!(inner.read_tag(), Ok(TLVTag::ContextSpecific(2)));
    assert_eq!(inner.read_bool(), Ok(true));
    assert_eq!(inner.next(), Ok(()));
    assert!(inner.is_end_of_container());
    assert_eq!(inner.next(), Err(TLVError::EndOfTLV));

    assert_eq!(reader.next(), Ok(()));
    assert_eq!(reader.current_element(), &[0x04, 0x07]);
    assert_eq!(reader.read_u8(), Ok(7));
    assert_eq!(reader.next(), Err(TLVError::EndOfTLV));
}

#[test]
fn nested_containers_are_skipped_whole() {
    let mut writer = TLVWriter::new();
    writer.open_container(ContainerType::Array);
    writer.open_container(ContainerType::List);
    writer.write(&String::from("in"));
    writer.close_container();
    writer.open_container(ContainerType::Structure);
    writer.close_container();
    writer.close_container();
    writer.write_null();
    let bytes = writer.into_bytes();
    let mut reader = TLVReader::new(&bytes);
    assert_eq!(reader.next(), Ok(()));
    assert_eq!(reader.read_null(), Ok(()));

    let reader = TLVReader::new(&bytes);
    let mut outer = reader.enter_container().unwrap();
    let list = outer.enter_container().unwrap();
    assert_eq!(list.read_char_str(), Ok(String::from("in")));
    assert_eq!(outer.next(), Ok(()));
    let empty = outer.enter_container().unwrap();
    assert!(empty.is_end_of_container());
    assert_eq!(outer.next(), Ok(()));
    assert!(outer.is_end_of_container());
}

#[test]
fn error_variants() {
    // A type that is not the one asked for.
    assert_eq!(TLVReader::new(&[0x04, 0x01]).read_u16(), Err(TLVError::InvalidType));
    assert_eq!(TLVReader::new(&[0x04, 0x01]).read_bool(), Err(TLVError::InvalidType));
    assert_eq!(TLVReader::new(&[0x04, 0x01]).read_null(), Err(TLVError::InvalidType));
    assert_eq!(TLVReader::new(&[0x10, 0x00]).read_char_str(), Err(TLVError::InvalidType));
    assert_eq!(TLVReader::new(&[0x0C, 0x00]).read_byte_str(), Err(TLVError::InvalidType));
    assert_eq!(TLVReader::new(&[0x04, 0x01]).enter_container().err(), Some(TLVError::InvalidType));
    // An unassigned type code.
    assert_eq!(TLVReader::new(&[0x19]).read_tag(), Err(TLVError::InvalidType));
    assert_eq!(TLVReader::tlv_type(0x1F), Err(TLVError::InvalidType));
    assert_eq!(TLVReader::tlv_type(0x18), Ok(TLVType::EndOfContainer));
    // No control byte.
    assert_eq!(TLVReader::new(&[]).read_u8(), Err(TLVError::ParseError));
    assert_eq!(TLVReader::new(&[]).next(), Err(TLVError::ParseError));
    // Invalid UTF-8.
    assert_eq!(TLVReader::new(&[0x0C, 0x02, 0xC3, 0x28]).read_char_str(), Err(TLVError::ParseError));
    assert_eq!(parse_str(&[0xFF]), Err(TLVError::ParseError));
    assert_eq!(parse_str("ü".as_bytes()), Ok("ü"));
    // Tag-control bits that are not a family.
    assert_eq!(parse_tag(0x21, &[0x01]).err(), Some(TLVError::InvalidTag));
    assert_eq!(TagControl::try_from(0x41), Err(TLVError::InvalidTag));
    // A length that runs past the buffer.
    assert_eq!(TLVReader::new(&[0x10, 0x05, 0x00]).read_byte_str(), Err(TLVError::UnderRun));
    assert_eq!(
        TLVReader::new(&[0x13, 0xFF, 0xFF, 0xFF, 0xFF, 0xFF, 0xFF, 0xFF, 0xFF]).next(),
        Err(TLVError::UnderRun)
    );
    assert_eq!(TLVError::Internal(String::from("sink")), TLVError::Internal(String::from("sink")));
    assert_ne!(TLVError::Internal(String::from("a")), TLVError::UnderRun);
}

#[test]
fn little_endian_helpers() {
    assert_eq!(parse_u16(&[0x34, 0x12, 0x99]).unwrap(), (&[0x99u8][..], 0x1234));
    assert_eq!(parse_u32(&[0x01, 0x02, 0x03, 0x04]).unwrap().1, 0x0403_0201);
    assert_eq!(parse_i16(&[0x0F, 0xFF]).unwrap().1, -241);
    assert_eq!(parse_u16(&[0x01]).err(), Some(TLVError::UnderRun));
    let (rest, tag) = parse_tag(0xC0, &[0xf1, 0xff, 0xed, 0xde, 0x01, 0x00, 0x2a]).unwrap();
    assert_eq!(rest, &[0x2a]);
    assert_eq!(
        tag,
        TLVTag::FullyQualifiedProfile(FullyQualifiedProfileLength::SixOctets {
            vendor_id: 65521,
            profile_number: 57069,
            tag_number: 1
        })
    );
    assert_eq!(parse_tag(0xE0, &[0xf1, 0xff, 0xed]).err(), Some(TLVError::UnderRun));
    let primitive = match TLVType::from_element_type(ElementType::UTF8String2ByteLength) {
        TLVType::Primitive(p) => p,
        _ => unreachable!(),
    };
    let (rest, n, len) = TLVReader::parse_primitive_len(primitive, &[0x03, 0x00, 0x61]).unwrap();
    assert_eq!((rest, n, len), (&[0x61u8][..], 2, 3));
}
