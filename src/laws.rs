//! Laws that relate the writer's encodings to what the reader decodes.
use crate::errors::TLVError;
use crate::reader::{
    container_end, element_end, element_type_of_code, fixed_value_at, fixed_width, header_at, next_position, string_field_size,
    string_payload_at, text_at, value_end,
};
use crate::tags::{lemma_tag_round_trip, tag_bytes_spec, TLVTag, TagControl};
use crate::types::{
    length_field_spec, lemma_code_injective, pick_width_spec, ContainerType, ElementType, Float32Bits,
    Float64Bits,
    PrimitiveLengthType, TLVPrimitive, TLVType,
};
use crate::util::{
    le_bytes, le_value, lemma_le_bytes_len, lemma_le_value_of_bytes, lemma_pow256_values,
    lemma_signed_round_trip, pow256, signed_value, twos_complement,
};
use crate::writer::{container_element_type, control_byte_spec, element_spec, TLVEncode};
use vstd::prelude::*;
use vstd::utf8::{encode_utf8, encode_utf8_decode_utf8, encode_utf8_valid_utf8};

verus! {

/// The length of an element's control byte and tag.
pub open spec fn header_len(tag: TLVTag) -> int {
    1 + tag.control().spec_octets() as int
}

/// The control byte of an element decodes to the element's tag family and
/// type code.
proof fn lemma_control_byte(tag: TLVTag, et: ElementType)
    ensures
        TagControl::of_byte(control_byte_spec(tag, et)) == tag.control(),
        control_byte_spec(tag, et) % 32 == et.spec_code(),
        element_type_of_code(et.spec_code()) == et,
{
    let c = element_type_of_code(et.spec_code());
    assert(c.spec_code() == et.spec_code());
    lemma_code_injective(c, et);
}

/// The header of a buffer that starts with the control byte and the tag of
/// an element.
proof fn lemma_header_of(tag: TLVTag, et: ElementType, s: Seq<u8>)
    requires
        s.len() >= 1,
        s[0] == control_byte_spec(tag, et),
        s.len() >= header_len(tag) ==> s.subrange(
            1,
            header_len(tag),
        ) == tag_bytes_spec(tag),
    ensures
        s.len() < header_len(tag) ==> header_at(s, 0) == Err::<
            (TLVTag, TLVType, int),
            TLVError,
        >(TLVError::UnderRun),
        s.len() >= header_len(tag) ==> header_at(s, 0) == Ok::<
            (TLVTag, TLVType, int),
            TLVError,
        >((tag, TLVType::spec_from(et), header_len(tag))),
{
    lemma_control_byte(tag, et);
    lemma_tag_round_trip(tag);
}

/// The parts of an element's encoding, followed by `rest`.
proof fn lemma_element_parts(
    tag: TLVTag,
    et: ElementType,
    lb: Seq<u8>,
    vb: Seq<u8>,
    rest: Seq<u8>,
)
    ensures
        ({
            let s = element_spec(tag, et, lb, vb) + rest;
            let j = header_len(tag);
            &&& header_at(s, 0) == Ok::<(TLVTag, TLVType, int), TLVError>(
                (tag, TLVType::spec_from(et), j),
            )
            &&& s.len() == j + lb.len() as int + vb.len() as int + rest.len()
            &&& s.subrange(j, j + lb.len() as int) == lb
            &&& s.subrange(j + lb.len() as int, j + lb.len() as int + vb.len() as int) == vb
        }),
{
    let s = element_spec(tag, et, lb, vb) + rest;
    let n = tag.control().spec_octets() as int;
    lemma_tag_round_trip(tag);
    assert(s.subrange(1, 1 + n) =~= tag_bytes_spec(tag));
    lemma_header_of(tag, et, s);
    assert(s.subrange(1 + n, 1 + n + lb.len() as int) =~= lb);
    assert(s.subrange(1 + n + lb.len() as int, 1 + n + lb.len() as int + vb.len() as int) =~= vb);
}

/// An element of predetermined length whose value is the `w`-byte encoding
/// of `x`, followed by `rest`, reads back as `x`.
proof fn lemma_fixed_round_trip(tag: TLVTag, et: ElementType, x: nat, w: nat, rest: Seq<u8>)
    requires
        fixed_width(TLVType::spec_from(et)) == w,
        x < pow256(w),
    ensures
        fixed_value_at(element_spec(tag, et, Seq::empty(), le_bytes(x, w)) + rest, 0, et) == Ok::<
            nat,
            TLVError,
        >(x),
{
    lemma_le_bytes_len(x, w);
    lemma_le_value_of_bytes(x, w);
    lemma_element_parts(tag, et, Seq::empty(), le_bytes(x, w), rest);
}

/// The encoding of a primitive: a length field of the width that its type
/// gives and that holds the payload's length, or none for a predetermined
/// length, and a payload of the right length.
pub open spec fn well_shaped(et: ElementType, lb: Seq<u8>, vb: Seq<u8>) -> bool {
    match TLVType::spec_from(et) {
        TLVType::Primitive(PrimitiveLengthType::Predetermined(p)) => lb.len() == 0 && vb.len()
            == p.spec_value_octets(),
        TLVType::Primitive(PrimitiveLengthType::Specified(sp)) => lb.len()
            == sp.spec_field_size().spec_octets() && le_value(lb) == vb.len(),
        _ => false,
    }
}

/// Cutting the last byte off a primitive's encoding of two or more bytes
/// leaves an element that runs past the buffer.
proof fn lemma_truncated(tag: TLVTag, et: ElementType, lb: Seq<u8>, vb: Seq<u8>)
    requires
        well_shaped(et, lb, vb),
        element_spec(tag, et, lb, vb).len() >= 2,
    ensures
        ({
            let t = element_spec(tag, et, lb, vb).drop_last();
            &&& next_position(t, 0) == Err::<int, TLVError>(TLVError::UnderRun)
            &&& header_at(t, 0) is Err ==> header_at(t, 0) == Err::<
                (TLVTag, TLVType, int),
                TLVError,
            >(TLVError::UnderRun)
            &&& fixed_width(TLVType::spec_from(et)) > 0 ==> fixed_value_at(t, 0, et) == Err::<
                nat,
                TLVError,
            >(TLVError::UnderRun)
            &&& string_field_size(TLVType::spec_from(et), true) is Some ==> string_payload_at(
                t,
                0,
                true,
            ) == Err::<Seq<u8>, TLVError>(TLVError::UnderRun)
            &&& string_field_size(TLVType::spec_from(et), false) is Some ==> string_payload_at(
                t,
                0,
                false,
            ) == Err::<Seq<u8>, TLVError>(TLVError::UnderRun)
        }),
{
    let s = element_spec(tag, et, lb, vb);
    let t = s.drop_last();
    let j = header_len(tag);
    lemma_tag_round_trip(tag);
    lemma_element_parts(tag, et, lb, vb, Seq::empty());
    assert(s + Seq::<u8>::empty() =~= s);
    assert(s.subrange(1, j) =~= tag_bytes_spec(tag));
    if t.len() >= j {
        assert(t.subrange(1, j) =~= s.subrange(1, j));
    }
    lemma_header_of(tag, et, t);
    if t.len() >= j + lb.len() {
        assert(t.subrange(j, j + lb.len()) =~= lb);
    }
}

/// Writing an unsigned 8-bit integer under any tag and reading it back, from
/// a buffer that may hold more after it, gives the tag and the value.
pub proof fn round_trip_u8(tag: TLVTag, value: u8, rest: Seq<u8>)
    ensures
        header_at(value.spec_encoding(tag) + rest, 0) matches Ok((t, _, _)) && t == tag,
        fixed_value_at(value.spec_encoding(tag) + rest, 0, ElementType::UInt8) == Ok::<
            nat,
            TLVError,
        >(value as nat),
{
    lemma_pow256_values();
    lemma_element_parts(tag, ElementType::UInt8, Seq::empty(), le_bytes(value as nat, 1), rest);
    lemma_fixed_round_trip(tag, ElementType::UInt8, value as nat, 1, rest);
}

/// Writing an unsigned 16-bit integer under any tag and reading it back, from a buffer that may
/// hold more after it, gives the tag and the value.
pub proof fn round_trip_u16(tag: TLVTag, value: u16, rest: Seq<u8>)
    ensures
        header_at(value.spec_encoding(tag) + rest, 0) matches Ok((t, _, _)) && t == tag,
        fixed_value_at(value.spec_encoding(tag) + rest, 0, ElementType::UInt16) == Ok::<
            nat,
            TLVError,
        >(value as nat),
{
    lemma_pow256_values();
    lemma_element_parts(tag, ElementType::UInt16, Seq::empty(), le_bytes(value as nat, 2), rest);
    lemma_fixed_round_trip(tag, ElementType::UInt16, value as nat, 2, rest);
}

/// Writing an unsigned 32-bit integer under any tag and reading it back, from a buffer that may
/// hold more after it, gives the tag and the value.
pub proof fn round_trip_u32(tag: TLVTag, value: u32, rest: Seq<u8>)
    ensures
        header_at(value.spec_encoding(tag) + rest, 0) matches Ok((t, _, _)) && t == tag,
        fixed_value_at(value.spec_encoding(tag) + rest, 0, ElementType::UInt32) == Ok::<
            nat,
            TLVError,
        >(value as nat),
{
    lemma_pow256_values();
    lemma_element_parts(tag, ElementType::UInt32, Seq::empty(), le_bytes(value as nat, 4), rest);
    lemma_fixed_round_trip(tag, ElementType::UInt32, value as nat, 4, rest);
}

/// Writing an unsigned 64-bit integer under any tag and reading it back, from a buffer that may
/// hold more after it, gives the tag and the value.
pub proof fn round_trip_u64(tag: TLVTag, value: u64, rest: Seq<u8>)
    ensures
        header_at(value.spec_encoding(tag) + rest, 0) matches Ok((t, _, _)) && t == tag,
        fixed_value_at(value.spec_encoding(tag) + rest, 0, ElementType::UInt64) == Ok::<
            nat,
            TLVError,
        >(value as nat),
{
    lemma_pow256_values();
    lemma_element_parts(tag, ElementType::UInt64, Seq::empty(), le_bytes(value as nat, 8), rest);
    lemma_fixed_round_trip(tag, ElementType::UInt64, value as nat, 8, rest);
}

/// Writing a signed 8-bit integer under any tag and reading it back, from a buffer that may
/// hold more after it, gives the tag and the value.
pub proof fn round_trip_i8(tag: TLVTag, value: i8, rest: Seq<u8>)
    ensures
        header_at(value.spec_encoding(tag) + rest, 0) matches Ok((t, _, _)) && t == tag,
        fixed_value_at(value.spec_encoding(tag) + rest, 0, ElementType::Int8) matches Ok(u)
            && signed_value(u, 1) == value,
{
    lemma_pow256_values();
    lemma_signed_round_trip(value as int, 1);
    let x = twos_complement(value as int, 1);
    lemma_element_parts(tag, ElementType::Int8, Seq::empty(), le_bytes(x, 1), rest);
    lemma_fixed_round_trip(tag, ElementType::Int8, x, 1, rest);
}

/// Writing a signed 16-bit integer under any tag and reading it back, from a buffer that may
/// hold more after it, gives the tag and the value.
pub proof fn round_trip_i16(tag: TLVTag, value: i16, rest: Seq<u8>)
    ensures
        header_at(value.spec_encoding(tag) + rest, 0) matches Ok((t, _, _)) && t == tag,
        fixed_value_at(value.spec_encoding(tag) + rest, 0, ElementType::Int16) matches Ok(u)
            && signed_value(u, 2) == value,
{
    lemma_pow256_values();
    lemma_signed_round_trip(value as int, 2);
    let x = twos_complement(value as int, 2);
    lemma_element_parts(tag, ElementType::Int16, Seq::empty(), le_bytes(x, 2), rest);
    lemma_fixed_round_trip(tag, ElementType::Int16, x, 2, rest);
}

/// Writing a signed 32-bit integer under any tag and reading it back, from a buffer that may
/// hold more after it, gives the tag and the value.
pub proof fn round_trip_i32(tag: TLVTag, value: i32, rest: Seq<u8>)
    ensures
        header_at(value.spec_encoding(tag) + rest, 0) matches Ok((t, _, _)) && t == tag,
        fixed_value_at(value.spec_encoding(tag) + rest, 0, ElementType::Int32) matches Ok(u)
            && signed_value(u, 4) == value,
{
    lemma_pow256_values();
    lemma_signed_round_trip(value as int, 4);
    let x = twos_complement(value as int, 4);
    lemma_element_parts(tag, ElementType::Int32, Seq::empty(), le_bytes(x, 4), rest);
    lemma_fixed_round_trip(tag, ElementType::Int32, x, 4, rest);
}

/// Writing a signed 64-bit integer under any tag and reading it back, from a buffer that may
/// hold more after it, gives the tag and the value.
pub proof fn round_trip_i64(tag: TLVTag, value: i64, rest: Seq<u8>)
    ensures
        header_at(value.spec_encoding(tag) + rest, 0) matches Ok((t, _, _)) && t == tag,
        fixed_value_at(value.spec_encoding(tag) + rest, 0, ElementType::Int64) matches Ok(u)
            && signed_value(u, 8) == value,
{
    lemma_pow256_values();
    lemma_signed_round_trip(value as int, 8);
    let x = twos_complement(value as int, 8);
    lemma_element_parts(tag, ElementType::Int64, Seq::empty(), le_bytes(x, 8), rest);
    lemma_fixed_round_trip(tag, ElementType::Int64, x, 8, rest);
}

/// Writing the bit pattern of a single precision float under any tag and reading it back, from a buffer that may
/// hold more after it, gives the tag and the value.
pub proof fn round_trip_float32(tag: TLVTag, value: Float32Bits, rest: Seq<u8>)
    ensures
        header_at(value.spec_encoding(tag) + rest, 0) matches Ok((t, _, _)) && t == tag,
        fixed_value_at(value.spec_encoding(tag) + rest, 0, ElementType::FloatingPointNumber32) == Ok::<
            nat,
            TLVError,
        >(value.0 as nat),
{
    lemma_pow256_values();
    lemma_element_parts(tag, ElementType::FloatingPointNumber32, Seq::empty(), le_bytes(value.0 as nat, 4), rest);
    lemma_fixed_round_trip(tag, ElementType::FloatingPointNumber32, value.0 as nat, 4, rest);
}

/// Writing the bit pattern of a double precision float under any tag and reading it back, from a buffer that may
/// hold more after it, gives the tag and the value.
pub proof fn round_trip_float64(tag: TLVTag, value: Float64Bits, rest: Seq<u8>)
    ensures
        header_at(value.spec_encoding(tag) + rest, 0) matches Ok((t, _, _)) && t == tag,
        fixed_value_at(value.spec_encoding(tag) + rest, 0, ElementType::FloatingPointNumber64) == Ok::<
            nat,
            TLVError,
        >(value.0 as nat),
{
    lemma_pow256_values();
    lemma_element_parts(tag, ElementType::FloatingPointNumber64, Seq::empty(), le_bytes(value.0 as nat, 8), rest);
    lemma_fixed_round_trip(tag, ElementType::FloatingPointNumber64, value.0 as nat, 8, rest);
}

/// Writing a boolean under any tag and reading it back, from a buffer that
/// may hold more after it, gives the tag and the boolean's type.
pub proof fn round_trip_bool(tag: TLVTag, value: bool, rest: Seq<u8>)
    ensures
        header_at(value.spec_encoding(tag) + rest, 0) matches Ok((t, ty, _)) && t == tag && ty
            == TLVType::spec_from(
            if value {
                ElementType::BooleanTrue
            } else {
                ElementType::BooleanFalse
            },
        ),
{
    lemma_element_parts(
        tag,
        bool::spec_element_type(value),
        Seq::empty(),
        Seq::empty(),
        rest,
    );
}

/// Writing null under any tag and reading it back, from a buffer that may
/// hold more after it, gives the tag and the null type.
pub proof fn round_trip_null(tag: TLVTag, rest: Seq<u8>)
    ensures
        header_at(element_spec(tag, ElementType::Null, Seq::empty(), Seq::empty()) + rest, 0) matches Ok((t, ty, _))
            && t == tag && ty == TLVType::spec_from(ElementType::Null),
{
    lemma_element_parts(tag, ElementType::Null, Seq::empty(), Seq::empty(), rest);
}

/// The minimal length field of `len` reads back as `len`, and the width
/// it has is the one that its type code names.
proof fn lemma_length_field(len: nat)
    requires
        len <= usize::MAX,
    ensures
        length_field_spec(len).len() == pick_width_spec(len).spec_octets(),
        le_value(length_field_spec(len)) == len,
{
    lemma_pow256_values();
    let w = pick_width_spec(len).spec_octets();
    lemma_le_bytes_len(len, w);
    lemma_le_value_of_bytes(len, w);
}

/// Writing a UTF-8 string under any tag and reading it back, from a buffer
/// that may hold more after it, gives the tag and the text.
pub proof fn round_trip_string(tag: TLVTag, value: String, rest: Seq<u8>)
    requires
        encode_utf8(value@).len() <= usize::MAX,
    ensures
        header_at(value.spec_encoding(tag) + rest, 0) matches Ok((t, _, _)) && t == tag,
        text_at(value.spec_encoding(tag) + rest, 0) == Ok::<Seq<char>, TLVError>(value@),
{
    let vb = encode_utf8(value@);
    let lb = length_field_spec(vb.len());
    let et = String::spec_element_type(value);
    lemma_length_field(vb.len());
    lemma_element_parts(tag, et, lb, vb, rest);
    encode_utf8_valid_utf8(value@);
    encode_utf8_decode_utf8(value@);
}

/// Writing a byte string under any tag and reading it back, from a buffer
/// that may hold more after it, gives the tag and the bytes.
pub proof fn round_trip_byte_string(tag: TLVTag, value: Vec<u8>, rest: Seq<u8>)
    requires
        value@.len() <= usize::MAX,
    ensures
        header_at(value.spec_encoding(tag) + rest, 0) matches Ok((t, _, _)) && t == tag,
        string_payload_at(value.spec_encoding(tag) + rest, 0, false) == Ok::<Seq<u8>, TLVError>(
            value@,
        ),
{
    let lb = length_field_spec(value@.len());
    let et = Vec::<u8>::spec_element_type(value);
    lemma_length_field(value@.len());
    lemma_element_parts(tag, et, lb, value@, rest);
}

/// Cutting the last byte off the encoding of an unsigned 8-bit integer leaves a buffer
/// from which neither reading the value nor moving past it succeeds: both
/// fail with `UnderRun`.
pub proof fn truncated_u8(tag: TLVTag, value: u8)
    ensures
        fixed_value_at(value.spec_encoding(tag).drop_last(), 0, ElementType::UInt8) == Err::<
            nat,
            TLVError,
        >(TLVError::UnderRun),
        next_position(value.spec_encoding(tag).drop_last(), 0) == Err::<int, TLVError>(
            TLVError::UnderRun,
        ),
{
    lemma_le_bytes_len(value as nat, 1);
    lemma_truncated(tag, ElementType::UInt8, Seq::empty(), le_bytes(value as nat, 1));
}

/// Cutting the last byte off the encoding of an unsigned 16-bit integer leaves a buffer
/// from which neither reading the value nor moving past it succeeds: both
/// fail with `UnderRun`.
pub proof fn truncated_u16(tag: TLVTag, value: u16)
    ensures
        fixed_value_at(value.spec_encoding(tag).drop_last(), 0, ElementType::UInt16) == Err::<
            nat,
            TLVError,
        >(TLVError::UnderRun),
        next_position(value.spec_encoding(tag).drop_last(), 0) == Err::<int, TLVError>(
            TLVError::UnderRun,
        ),
{
    lemma_le_bytes_len(value as nat, 2);
    lemma_truncated(tag, ElementType::UInt16, Seq::empty(), le_bytes(value as nat, 2));
}

/// Cutting the last byte off the encoding of an unsigned 32-bit integer leaves a buffer
/// from which neither reading the value nor moving past it succeeds: both
/// fail with `UnderRun`.
pub proof fn truncated_u32(tag: TLVTag, value: u32)
    ensures
        fixed_value_at(value.spec_encoding(tag).drop_last(), 0, ElementType::UInt32) == Err::<
            nat,
            TLVError,
        >(TLVError::UnderRun),
        next_position(value.spec_encoding(tag).drop_last(), 0) == Err::<int, TLVError>(
            TLVError::UnderRun,
        ),
{
    lemma_le_bytes_len(value as nat, 4);
    lemma_truncated(tag, ElementType::UInt32, Seq::empty(), le_bytes(value as nat, 4));
}

/// Cutting the last byte off the encoding of an unsigned 64-bit integer leaves a buffer
/// from which neither reading the value nor moving past it succeeds: both
/// fail with `UnderRun`.
pub proof fn truncated_u64(tag: TLVTag, value: u64)
    ensures
        fixed_value_at(value.spec_encoding(tag).drop_last(), 0, ElementType::UInt64) == Err::<
            nat,
            TLVError,
        >(TLVError::UnderRun),
        next_position(value.spec_encoding(tag).drop_last(), 0) == Err::<int, TLVError>(
            TLVError::UnderRun,
        ),
{
    lemma_le_bytes_len(value as nat, 8);
    lemma_truncated(tag, ElementType::UInt64, Seq::empty(), le_bytes(value as nat, 8));
}

/// Cutting the last byte off the encoding of a signed 8-bit integer leaves a buffer
/// from which neither reading the value nor moving past it succeeds: both
/// fail with `UnderRun`.
pub proof fn truncated_i8(tag: TLVTag, value: i8)
    ensures
        fixed_value_at(value.spec_encoding(tag).drop_last(), 0, ElementType::Int8) == Err::<
            nat,
            TLVError,
        >(TLVError::UnderRun),
        next_position(value.spec_encoding(tag).drop_last(), 0) == Err::<int, TLVError>(
            TLVError::UnderRun,
        ),
{
    lemma_le_bytes_len(twos_complement(value as int, 1), 1);
    lemma_truncated(tag, ElementType::Int8, Seq::empty(), le_bytes(twos_complement(value as int, 1), 1));
}

/// Cutting the last byte off the encoding of a signed 16-bit integer leaves a buffer
/// from which neither reading the value nor moving past it succeeds: both
/// fail with `UnderRun`.
pub proof fn truncated_i16(tag: TLVTag, value: i16)
    ensures
        fixed_value_at(value.spec_encoding(tag).drop_last(), 0, ElementType::Int16) == Err::<
            nat,
            TLVError,
        >(TLVError::UnderRun),
        next_position(value.spec_encoding(tag).drop_last(), 0) == Err::<int, TLVError>(
            TLVError::UnderRun,
        ),
{
    lemma_le_bytes_len(twos_complement(value as int, 2), 2);
    lemma_truncated(tag, ElementType::Int16, Seq::empty(), le_bytes(twos_complement(value as int, 2), 2));
}

/// Cutting the last byte off the encoding of a signed 32-bit integer leaves a buffer
/// from which neither reading the value nor moving past it succeeds: both
/// fail with `UnderRun`.
pub proof fn truncated_i32(tag: TLVTag, value: i32)
    ensures
        fixed_value_at(value.spec_encoding(tag).drop_last(), 0, ElementType::Int32) == Err::<
            nat,
            TLVError,
        >(TLVError::UnderRun),
        next_position(value.spec_encoding(tag).drop_last(), 0) == Err::<int, TLVError>(
            TLVError::UnderRun,
        ),
{
    lemma_le_bytes_len(twos_complement(value as int, 4), 4);
    lemma_truncated(tag, ElementType::Int32, Seq::empty(), le_bytes(twos_complement(value as int, 4), 4));
}

/// Cutting the last byte off the encoding of a signed 64-bit integer leaves a buffer
/// from which neither reading the value nor moving past it succeeds: both
/// fail with `UnderRun`.
pub proof fn truncated_i64(tag: TLVTag, value: i64)
    ensures
        fixed_value_at(value.spec_encoding(tag).drop_last(), 0, ElementType::Int64) == Err::<
            nat,
            TLVError,
        >(TLVError::UnderRun),
        next_position(value.spec_encoding(tag).drop_last(), 0) == Err::<int, TLVError>(
            TLVError::UnderRun,
        ),
{
    lemma_le_bytes_len(twos_complement(value as int, 8), 8);
    lemma_truncated(tag, ElementType::Int64, Seq::empty(), le_bytes(twos_complement(value as int, 8), 8));
}

/// Cutting the last byte off the encoding of a single precision float leaves a buffer
/// from which neither reading the value nor moving past it succeeds: both
/// fail with `UnderRun`.
pub proof fn truncated_float32(tag: TLVTag, value: Float32Bits)
    ensures
        fixed_value_at(value.spec_encoding(tag).drop_last(), 0, ElementType::FloatingPointNumber32) == Err::<
            nat,
            TLVError,
        >(TLVError::UnderRun),
        next_position(value.spec_encoding(tag).drop_last(), 0) == Err::<int, TLVError>(
            TLVError::UnderRun,
        ),
{
    lemma_le_bytes_len(value.0 as nat, 4);
    lemma_truncated(tag, ElementType::FloatingPointNumber32, Seq::empty(), le_bytes(value.0 as nat, 4));
}

/// Cutting the last byte off the encoding of a double precision float leaves a buffer
/// from which neither reading the value nor moving past it succeeds: both
/// fail with `UnderRun`.
pub proof fn truncated_float64(tag: TLVTag, value: Float64Bits)
    ensures
        fixed_value_at(value.spec_encoding(tag).drop_last(), 0, ElementType::FloatingPointNumber64) == Err::<
            nat,
            TLVError,
        >(TLVError::UnderRun),
        next_position(value.spec_encoding(tag).drop_last(), 0) == Err::<int, TLVError>(
            TLVError::UnderRun,
        ),
{
    lemma_le_bytes_len(value.0 as nat, 8);
    lemma_truncated(tag, ElementType::FloatingPointNumber64, Seq::empty(), le_bytes(value.0 as nat, 8));
}

/// Cutting the last byte off the encoding of a boolean under a tag other
/// than the anonymous one cuts into the tag: decoding the header fails with
/// `UnderRun`, and so does moving past it. (The anonymous encoding is one
/// byte, and nothing is left to decode.)
pub proof fn truncated_bool(tag: TLVTag, value: bool)
    requires
        tag != TLVTag::Anonymous,
    ensures
        header_at(value.spec_encoding(tag).drop_last(), 0) == Err::<(TLVTag, TLVType, int), TLVError>(
            TLVError::UnderRun,
        ),
        next_position(value.spec_encoding(tag).drop_last(), 0) == Err::<int, TLVError>(
            TLVError::UnderRun,
        ),
{
    let et = bool::spec_element_type(value);
    lemma_tag_round_trip(tag);
    lemma_truncated(tag, et, Seq::empty(), Seq::empty());
    lemma_element_parts(tag, et, Seq::empty(), Seq::empty(), Seq::empty());
    assert(value.spec_encoding(tag).drop_last().len() < header_len(tag));
}

/// Cutting the last byte off the encoding of null under a tag other than the
/// anonymous one cuts into the tag: decoding the header fails with
/// `UnderRun`, and so does moving past it.
pub proof fn truncated_null(tag: TLVTag)
    requires
        tag != TLVTag::Anonymous,
    ensures
        header_at(
            element_spec(tag, ElementType::Null, Seq::empty(), Seq::empty()).drop_last(),
            0,
        ) == Err::<(TLVTag, TLVType, int), TLVError>(TLVError::UnderRun),
        next_position(
            element_spec(tag, ElementType::Null, Seq::empty(), Seq::empty()).drop_last(),
            0,
        ) == Err::<int, TLVError>(TLVError::UnderRun),
{
    lemma_tag_round_trip(tag);
    lemma_truncated(tag, ElementType::Null, Seq::empty(), Seq::empty());
    lemma_element_parts(tag, ElementType::Null, Seq::empty(), Seq::empty(), Seq::empty());
    assert(element_spec(tag, ElementType::Null, Seq::empty(), Seq::empty()).drop_last().len()
        < header_len(tag));
}

/// Cutting the last byte off the encoding of a UTF-8 string leaves a buffer
/// from which neither reading the text nor moving past it succeeds: both
/// fail with `UnderRun`.
pub proof fn truncated_string(tag: TLVTag, value: String)
    requires
        encode_utf8(value@).len() <= usize::MAX,
    ensures
        text_at(value.spec_encoding(tag).drop_last(), 0) == Err::<Seq<char>, TLVError>(
            TLVError::UnderRun,
        ),
        next_position(value.spec_encoding(tag).drop_last(), 0) == Err::<int, TLVError>(
            TLVError::UnderRun,
        ),
{
    let vb = encode_utf8(value@);
    let lb = length_field_spec(vb.len());
    lemma_length_field(vb.len());
    lemma_truncated(tag, String::spec_element_type(value), lb, vb);
}

/// Cutting the last byte off the encoding of a byte string leaves a buffer
/// from which neither reading the bytes nor moving past them succeeds: both
/// fail with `UnderRun`.
pub proof fn truncated_byte_string(tag: TLVTag, value: Vec<u8>)
    requires
        value@.len() <= usize::MAX,
    ensures
        string_payload_at(value.spec_encoding(tag).drop_last(), 0, false) == Err::<
            Seq<u8>,
            TLVError,
        >(TLVError::UnderRun),
        next_position(value.spec_encoding(tag).drop_last(), 0) == Err::<int, TLVError>(
            TLVError::UnderRun,
        ),
{
    let lb = length_field_spec(value@.len());
    lemma_length_field(value@.len());
    lemma_truncated(tag, Vec::<u8>::spec_element_type(value), lb, value@);
}

/// The header at `i` reads the same in `s` without its last byte, unless it
/// ends at the very end of `s`.
proof fn lemma_header_truncated(s: Seq<u8>, i: int)
    requires
        header_at(s, i) is Ok,
    ensures
        ({
            let t = s.drop_last();
            let j = header_at(s, i)->Ok_0.2;
            &&& i < j <= s.len()
            &&& j <= t.len() ==> header_at(t, i) == header_at(s, i)
            &&& j > t.len() && i < t.len() ==> header_at(t, i) == Err::<
                (TLVTag, TLVType, int),
                TLVError,
            >(TLVError::UnderRun)
        }),
{
    let t = s.drop_last();
    let j = header_at(s, i)->Ok_0.2;
    if j <= t.len() {
        assert(t.subrange(i + 1, j) =~= s.subrange(i + 1, j));
    }
}

/// The end of a primitive's length field and value read the same in `s`
/// without its last byte, as long as the length field lies within it.
proof fn lemma_value_end_truncated(s: Seq<u8>, ty: TLVType, j: int)
    requires
        0 <= j <= s.len(),
        s.len() >= 1,
    ensures
        ({
            let t = s.drop_last();
            &&& value_end(s, ty, j) is Ok ==> value_end(s, ty, j)->Ok_0 >= j
            &&& (value_end(s, ty, j) is Ok && value_end(s, ty, j)->Ok_0 <= t.len()) ==> value_end(
                t,
                ty,
                j,
            ) == value_end(s, ty, j)
            &&& (value_end(s, ty, j) is Ok && value_end(s, ty, j)->Ok_0 > t.len() && value_end(
                t,
                ty,
                j,
            ) is Err) ==> value_end(t, ty, j) == Err::<int, TLVError>(TLVError::UnderRun)
            &&& (value_end(s, ty, j) is Ok && value_end(s, ty, j)->Ok_0 > t.len() && value_end(
                t,
                ty,
                j,
            ) is Ok) ==> value_end(t, ty, j)->Ok_0 > t.len()
        }),
{
    let t = s.drop_last();
    match ty {
        TLVType::Primitive(PrimitiveLengthType::Specified(sp)) => {
            let w = sp.spec_field_size().spec_octets();
            if j + w <= t.len() {
                assert(t.subrange(j, j + w) =~= s.subrange(j, j + w));
            }
        },
        _ => {},
    }
}

/// A scan of container members that ends with the last byte of `s` runs
/// out of bytes in `s` without its last byte.
proof fn lemma_scan_truncated(s: Seq<u8>, i: int, depth: nat)
    requires
        container_end(s, i, depth) matches Ok((_, e)) && e == s.len(),
    ensures
        container_end(s.drop_last(), i, depth) == Err::<(int, int), TLVError>(TLVError::UnderRun),
    decreases s.len() - i,
{
    let t = s.drop_last();
    lemma_header_truncated(s, i);
    let (_, ty, j) = header_at(s, i)->Ok_0;
    if j <= t.len() {
        match ty {
            TLVType::EndOfContainer => {
                if depth > 1 {
                    lemma_scan_truncated(s, j, (depth - 1) as nat);
                }
            },
            TLVType::Container(_) => {
                lemma_scan_truncated(s, j, depth + 1);
            },
            TLVType::Primitive(_) => {
                lemma_value_end_truncated(s, ty, j);
                let k = value_end(s, ty, j)->Ok_0;
                lemma_scan_truncated(s, k, depth);
            },
        }
    }
}

/// Cutting the last byte off the encoding of any one element of two or more
/// bytes, a primitive or a whole container with its members, leaves a buffer
/// past which the reader cannot move: it fails with `UnderRun`. (An encoding
/// of one byte leaves nothing, and an empty buffer has no control byte.)
pub proof fn truncated_element_underruns(s: Seq<u8>)
    requires
        element_end(s, 0) == Ok::<int, TLVError>(s.len() as int),
        s.len() >= 2,
    ensures
        next_position(s.drop_last(), 0) == Err::<int, TLVError>(TLVError::UnderRun),
{
    let t = s.drop_last();
    lemma_header_truncated(s, 0);
    let (_, ty, j) = header_at(s, 0)->Ok_0;
    if j <= t.len() {
        match ty {
            TLVType::Container(_) => {
                lemma_scan_truncated(s, j, 1);
            },
            _ => {
                lemma_value_end_truncated(s, ty, j);
            },
        }
    }
}

/// A primitive element ends right after its value: moving the cursor from
/// its start lands just past it when more bytes follow, and reports the end
/// of the sequence (`EndOfTLV`) when none do.
pub proof fn next_after_primitive(
    tag: TLVTag,
    et: ElementType,
    len_bytes: Seq<u8>,
    val_bytes: Seq<u8>,
    rest: Seq<u8>,
)
    requires
        well_shaped(et, len_bytes, val_bytes),
    ensures
        ({
            let e = element_spec(tag, et, len_bytes, val_bytes);
            &&& element_end(e + rest, 0) == Ok::<int, TLVError>(e.len() as int)
            &&& next_position(e + rest, 0) == if rest.len() == 0 {
                Err::<int, TLVError>(TLVError::EndOfTLV)
            } else {
                Ok::<int, TLVError>(e.len() as int)
            }
        }),
{
    let e = element_spec(tag, et, len_bytes, val_bytes);
    lemma_element_parts(tag, et, len_bytes, val_bytes, rest);
    lemma_element_parts(tag, et, len_bytes, val_bytes, Seq::empty());
    assert(e + Seq::<u8>::empty() =~= e);
}

/// Decoding a header behind a prefix `p` is decoding it without the prefix,
/// with positions moved by the prefix's length.
proof fn lemma_header_shift(p: Seq<u8>, x: Seq<u8>, i: int)
    requires
        0 <= i,
    ensures
        header_at(p + x, p.len() + i) == match header_at(x, i) {
            Ok((t, ty, j)) => Ok::<(TLVTag, TLVType, int), TLVError>((t, ty, p.len() + j)),
            Err(e) => Err::<(TLVTag, TLVType, int), TLVError>(e),
        },
{
    if i < x.len() {
        let s = p + x;
        assert(s[p.len() + i] == x[i]);
        let j = i + 1 + TagControl::of_byte(x[i]).spec_octets();
        if j <= x.len() {
            assert(s.subrange(p.len() + i + 1, p.len() + j) =~= x.subrange(i + 1, j));
        }
    }
}

/// The end of a primitive's value behind a prefix `p` is its end without the
/// prefix, moved by the prefix's length.
proof fn lemma_value_end_shift(p: Seq<u8>, x: Seq<u8>, ty: TLVType, j: int)
    requires
        0 <= j,
    ensures
        value_end(p + x, ty, p.len() + j) == match value_end(x, ty, j) {
            Ok(k) => Ok::<int, TLVError>(p.len() + k),
            Err(e) => Err::<int, TLVError>(e),
        },
{
    match ty {
        TLVType::Primitive(PrimitiveLengthType::Specified(sp)) => {
            let w = sp.spec_field_size().spec_octets();
            if j + w <= x.len() {
                assert((p + x).subrange(p.len() + j, p.len() + j + w) =~= x.subrange(j, j + w));
            }
        },
        _ => {},
    }
}

/// A primitive element behind a prefix `p`, followed by `rest`: its header
/// and where it ends, in positions of the whole buffer.
proof fn lemma_primitive_behind(
    p: Seq<u8>,
    tag: TLVTag,
    et: ElementType,
    lb: Seq<u8>,
    vb: Seq<u8>,
    rest: Seq<u8>,
)
    requires
        well_shaped(et, lb, vb),
    ensures
        ({
            let e = element_spec(tag, et, lb, vb);
            let s = p + (e + rest);
            &&& header_at(s, p.len() as int) == Ok::<(TLVTag, TLVType, int), TLVError>(
                (tag, TLVType::spec_from(et), p.len() + header_len(tag)),
            )
            &&& value_end(s, TLVType::spec_from(et), p.len() + header_len(tag)) == Ok::<
                int,
                TLVError,
            >((p.len() + e.len()) as int)
            &&& element_end(s, p.len() as int) == Ok::<int, TLVError>((p.len() + e.len()) as int)
            &&& TLVType::spec_from(et) is Primitive
        }),
{
    let e = element_spec(tag, et, lb, vb);
    lemma_element_parts(tag, et, lb, vb, rest);
    next_after_primitive(tag, et, lb, vb, rest);
    lemma_header_shift(p, e + rest, 0);
    lemma_value_end_shift(p, e + rest, TLVType::spec_from(et), header_len(tag));
}

/// The end-of-container marker reads as an anonymous end-of-container
/// element of one byte.
proof fn lemma_end_marker(p: Seq<u8>, rest: Seq<u8>)
    ensures
        header_at(p + (seq![0x18u8] + rest), p.len() as int) == Ok::<
            (TLVTag, TLVType, int),
            TLVError,
        >((TLVTag::Anonymous, TLVType::EndOfContainer, (p.len() + 1) as int)),
{
    let marker = element_spec(TLVTag::Anonymous, ElementType::EndOfContainer, Seq::empty(), Seq::empty());
    assert(marker =~= seq![0x18u8]);
    lemma_element_parts(TLVTag::Anonymous, ElementType::EndOfContainer, Seq::empty(), Seq::empty(), rest);
    lemma_header_shift(p, seq![0x18u8] + rest, 0);
}

/// The scan of a container that holds two primitive members ends at the
/// marker after them.
proof fn lemma_container_outer(
    tag: TLVTag,
    kind: ContainerType,
    e1: Seq<u8>,
    e2: Seq<u8>,
    rest: Seq<u8>,
)
    requires
        ({
            let open = element_spec(tag, container_element_type(kind), Seq::empty(), Seq::empty());
            let s = open + (e1 + e2 + seq![0x18u8]) + rest;
            &&& element_end(s, open.len() as int) == Ok::<int, TLVError>((open.len() + e1.len()) as int)
            &&& header_at(s, open.len() as int) matches Ok((_, ty, _)) && ty is Primitive
            &&& element_end(s, (open.len() + e1.len()) as int) == Ok::<int, TLVError>(
                (open.len() + e1.len() + e2.len()) as int,
            )
            &&& header_at(s, (open.len() + e1.len()) as int) matches Ok((_, ty, _)) && ty is Primitive
            &&& header_at(s, (open.len() + e1.len() + e2.len()) as int) == Ok::<
                (TLVTag, TLVType, int),
                TLVError,
            >((TLVTag::Anonymous, TLVType::EndOfContainer, (open.len() + e1.len() + e2.len() + 1) as int))
        }),
    ensures
        ({
            let open = element_spec(tag, container_element_type(kind), Seq::empty(), Seq::empty());
            let members = e1 + e2 + seq![0x18u8];
            let s = open + members + rest;
            &&& container_end(s, open.len() as int, 1) == Ok::<(int, int), TLVError>(
                ((open.len() + e1.len() + e2.len()) as int, (open.len() + members.len()) as int),
            )
            &&& element_end(s, 0) == Ok::<int, TLVError>((open.len() + members.len()) as int)
            &&& header_at(s, 0) matches Ok((t, ty, j)) && t == tag && ty is Container && j
                == open.len()
            &&& s.subrange(open.len() as int, (open.len() + members.len()) as int) == members
        }),
{
    let ct = container_element_type(kind);
    let open = element_spec(tag, ct, Seq::empty(), Seq::empty());
    let members = e1 + e2 + seq![0x18u8];
    let s = open + members + rest;
    lemma_element_parts(tag, ct, Seq::empty(), Seq::empty(), members + rest);
    assert(open + (members + rest) =~= s);
    let j = open.len() as int;
    let k1 = j + e1.len();
    let k2 = k1 + e2.len();
    assert(container_end(s, k2, 1) == Ok::<(int, int), TLVError>((k2, k2 + 1)));
    assert(container_end(s, k1, 1) == container_end(s, k2, 1));
    assert(container_end(s, j, 1) == container_end(s, k1, 1));
    assert(s.subrange(j, j + members.len()) =~= members);
}

/// Inside a container, two primitive members and the marker read in order.
proof fn lemma_container_inner(
    tag1: TLVTag,
    et1: ElementType,
    len_bytes1: Seq<u8>,
    val_bytes1: Seq<u8>,
    tag2: TLVTag,
    et2: ElementType,
    len_bytes2: Seq<u8>,
    val_bytes2: Seq<u8>,
)
    requires
        well_shaped(et1, len_bytes1, val_bytes1),
        well_shaped(et2, len_bytes2, val_bytes2),
    ensures
        ({
            let e1 = element_spec(tag1, et1, len_bytes1, val_bytes1);
            let e2 = element_spec(tag2, et2, len_bytes2, val_bytes2);
            let members = e1 + e2 + seq![0x18u8];
            &&& header_at(members, 0) matches Ok((t, _, _)) && t == tag1
            &&& next_position(members, 0) == Ok::<int, TLVError>(e1.len() as int)
            &&& header_at(members, e1.len() as int) matches Ok((t, _, _)) && t == tag2
            &&& next_position(members, e1.len() as int) == Ok::<int, TLVError>(
                (e1.len() + e2.len()) as int,
            )
            &&& members[(e1.len() + e2.len()) as int] % 32 == 0x18
        }),
{
    let e1 = element_spec(tag1, et1, len_bytes1, val_bytes1);
    let e2 = element_spec(tag2, et2, len_bytes2, val_bytes2);
    let end = seq![0x18u8];
    let members = e1 + e2 + end;
    assert(members =~= e1 + (e2 + end));
    next_after_primitive(tag1, et1, len_bytes1, val_bytes1, e2 + end);
    lemma_element_parts(tag1, et1, len_bytes1, val_bytes1, e2 + end);
    lemma_primitive_behind(e1, tag2, et2, len_bytes2, val_bytes2, end);
    assert(members[(e1.len() + e2.len()) as int] == 0x18u8);
}

/// The first member of a container, right after the container's header.
proof fn lemma_first_member(
    tag: TLVTag,
    kind: ContainerType,
    tag1: TLVTag,
    et1: ElementType,
    len_bytes1: Seq<u8>,
    val_bytes1: Seq<u8>,
    e2: Seq<u8>,
    rest: Seq<u8>,
)
    requires
        well_shaped(et1, len_bytes1, val_bytes1),
    ensures
        ({
            let open = element_spec(tag, container_element_type(kind), Seq::empty(), Seq::empty());
            let e1 = element_spec(tag1, et1, len_bytes1, val_bytes1);
            let s = open + (e1 + e2 + seq![0x18u8]) + rest;
            &&& element_end(s, open.len() as int) == Ok::<int, TLVError>((open.len() + e1.len()) as int)
            &&& header_at(s, open.len() as int) matches Ok((_, ty, _)) && ty is Primitive
        }),
{
    let open = element_spec(tag, container_element_type(kind), Seq::empty(), Seq::empty());
    let e1 = element_spec(tag1, et1, len_bytes1, val_bytes1);
    let s = open + (e1 + e2 + seq![0x18u8]) + rest;
    assert(s =~= open + (e1 + (e2 + seq![0x18u8] + rest)));
    lemma_primitive_behind(open, tag1, et1, len_bytes1, val_bytes1, e2 + seq![0x18u8] + rest);
}

/// The second member of a container, right after the first.
proof fn lemma_second_member(
    tag: TLVTag,
    kind: ContainerType,
    e1: Seq<u8>,
    tag2: TLVTag,
    et2: ElementType,
    len_bytes2: Seq<u8>,
    val_bytes2: Seq<u8>,
    rest: Seq<u8>,
)
    requires
        well_shaped(et2, len_bytes2, val_bytes2),
    ensures
        ({
            let open = element_spec(tag, container_element_type(kind), Seq::empty(), Seq::empty());
            let e2 = element_spec(tag2, et2, len_bytes2, val_bytes2);
            let s = open + (e1 + e2 + seq![0x18u8]) + rest;
            &&& element_end(s, (open.len() + e1.len()) as int) == Ok::<int, TLVError>(
                (open.len() + e1.len() + e2.len()) as int,
            )
            &&& header_at(s, (open.len() + e1.len()) as int) matches Ok((_, ty, _)) && ty is Primitive
        }),
{
    let open = element_spec(tag, container_element_type(kind), Seq::empty(), Seq::empty());
    let e2 = element_spec(tag2, et2, len_bytes2, val_bytes2);
    let s = open + (e1 + e2 + seq![0x18u8]) + rest;
    assert(s =~= (open + e1) + (e2 + (seq![0x18u8] + rest)));
    lemma_primitive_behind(open + e1, tag2, et2, len_bytes2, val_bytes2, seq![0x18u8] + rest);
}

/// The marker that closes a container, right after its members.
proof fn lemma_closing_marker(tag: TLVTag, kind: ContainerType, e1: Seq<u8>, e2: Seq<u8>, rest: Seq<u8>)
    ensures
        ({
            let open = element_spec(tag, container_element_type(kind), Seq::empty(), Seq::empty());
            let s = open + (e1 + e2 + seq![0x18u8]) + rest;
            header_at(s, (open.len() + e1.len() + e2.len()) as int) == Ok::<
                (TLVTag, TLVType, int),
                TLVError,
            >((TLVTag::Anonymous, TLVType::EndOfContainer, (open.len() + e1.len() + e2.len() + 1) as int))
        }),
{
    let open = element_spec(tag, container_element_type(kind), Seq::empty(), Seq::empty());
    let s = open + (e1 + e2 + seq![0x18u8]) + rest;
    assert(s =~= (open + e1 + e2) + (seq![0x18u8] + rest));
    lemma_end_marker(open + e1 + e2, rest);
}

/// A container of any tag and kind that holds two primitive members and is
/// closed, followed by anything, is one element: moving the cursor from its
/// start skips it whole, and entering it gives the members, in order, and
/// then its end-of-container marker.
pub proof fn container_of_two_primitives(
    tag: TLVTag,
    kind: ContainerType,
    tag1: TLVTag,
    et1: ElementType,
    len_bytes1: Seq<u8>,
    val_bytes1: Seq<u8>,
    tag2: TLVTag,
    et2: ElementType,
    len_bytes2: Seq<u8>,
    val_bytes2: Seq<u8>,
    rest: Seq<u8>,
)
    requires
        well_shaped(et1, len_bytes1, val_bytes1),
        well_shaped(et2, len_bytes2, val_bytes2),
    ensures
        ({
            let open = element_spec(tag, container_element_type(kind), Seq::empty(), Seq::empty());
            let e1 = element_spec(tag1, et1, len_bytes1, val_bytes1);
            let e2 = element_spec(tag2, et2, len_bytes2, val_bytes2);
            let members = e1 + e2 + seq![0x18u8];
            let s = open + members + rest;
            &&& element_end(s, 0) == Ok::<int, TLVError>((open.len() + members.len()) as int)
            &&& header_at(s, 0) matches Ok((t, ty, j)) && t == tag && ty is Container && j
                == open.len()
            &&& container_end(s, open.len() as int, 1) == Ok::<(int, int), TLVError>(
                ((open.len() + e1.len() + e2.len()) as int, (open.len() + members.len()) as int),
            )
            &&& s.subrange(open.len() as int, (open.len() + members.len()) as int) == members
            &&& header_at(members, 0) matches Ok((t, _, _)) && t == tag1
            &&& next_position(members, 0) == Ok::<int, TLVError>(e1.len() as int)
            &&& header_at(members, e1.len() as int) matches Ok((t, _, _)) && t == tag2
            &&& next_position(members, e1.len() as int) == Ok::<int, TLVError>(
                (e1.len() + e2.len()) as int,
            )
            &&& members[(e1.len() + e2.len()) as int] % 32 == 0x18
        }),
{
    let e1 = element_spec(tag1, et1, len_bytes1, val_bytes1);
    let e2 = element_spec(tag2, et2, len_bytes2, val_bytes2);
    lemma_first_member(tag, kind, tag1, et1, len_bytes1, val_bytes1, e2, rest);
    lemma_second_member(tag, kind, e1, tag2, et2, len_bytes2, val_bytes2, rest);
    lemma_closing_marker(tag, kind, e1, e2, rest);
    lemma_container_outer(tag, kind, e1, e2, rest);
    lemma_container_inner(tag1, et1, len_bytes1, val_bytes1, tag2, et2, len_bytes2, val_bytes2);
}

} // verus!
