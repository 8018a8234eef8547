//! Element types: the five-bit type codes, the kinds they stand for, and the
//! length fields of the specified-length primitives.
use crate::errors::TLVError;
use crate::util::{
    le_bytes, le_value, lemma_pow256_values, parse_le, pow256, push_le,
    twos_complement,
};
use vstd::prelude::*;
use vstd::utf8::encode_utf8;

verus! {

/// The element type, as the low five bits of the control byte select it.
#[derive(Debug, PartialEq, Eq, Clone, Copy, Structural)]
pub enum ElementType {
    Int8,
    Int16,
    Int32,
    Int64,
    UInt8,
    UInt16,
    UInt32,
    UInt64,
    BooleanFalse,
    BooleanTrue,
    FloatingPointNumber32,
    FloatingPointNumber64,
    UTF8String1ByteLength,
    UTF8String2ByteLength,
    UTF8String4ByteLength,
    UTF8String8ByteLength,
    ByteString1ByteLength,
    ByteString2ByteLength,
    ByteString4ByteLength,
    ByteString8ByteLength,
    Null,
    Structure,
    Array,
    List,
    EndOfContainer,
}

impl ElementType {
    /// The type code on the wire.
    pub open spec fn spec_code(self) -> u8 {
        match self {
            ElementType::Int8 => 0x00,
            ElementType::Int16 => 0x01,
            ElementType::Int32 => 0x02,
            ElementType::Int64 => 0x03,
            ElementType::UInt8 => 0x04,
            ElementType::UInt16 => 0x05,
            ElementType::UInt32 => 0x06,
            ElementType::UInt64 => 0x07,
            ElementType::BooleanFalse => 0x08,
            ElementType::BooleanTrue => 0x09,
            ElementType::FloatingPointNumber32 => 0x0A,
            ElementType::FloatingPointNumber64 => 0x0B,
            ElementType::UTF8String1ByteLength => 0x0C,
            ElementType::UTF8String2ByteLength => 0x0D,
            ElementType::UTF8String4ByteLength => 0x0E,
            ElementType::UTF8String8ByteLength => 0x0F,
            ElementType::ByteString1ByteLength => 0x10,
            ElementType::ByteString2ByteLength => 0x11,
            ElementType::ByteString4ByteLength => 0x12,
            ElementType::ByteString8ByteLength => 0x13,
            ElementType::Null => 0x14,
            ElementType::Structure => 0x15,
            ElementType::Array => 0x16,
            ElementType::List => 0x17,
            ElementType::EndOfContainer => 0x18,
        }
    }

    /// The type code on the wire.
    pub fn code(&self) -> (r: u8)
        ensures
            r == self.spec_code(),
    {
        match self {
            ElementType::Int8 => 0x00,
            ElementType::Int16 => 0x01,
            ElementType::Int32 => 0x02,
            ElementType::Int64 => 0x03,
            ElementType::UInt8 => 0x04,
            ElementType::UInt16 => 0x05,
            ElementType::UInt32 => 0x06,
            ElementType::UInt64 => 0x07,
            ElementType::BooleanFalse => 0x08,
            ElementType::BooleanTrue => 0x09,
            ElementType::FloatingPointNumber32 => 0x0A,
            ElementType::FloatingPointNumber64 => 0x0B,
            ElementType::UTF8String1ByteLength => 0x0C,
            ElementType::UTF8String2ByteLength => 0x0D,
            ElementType::UTF8String4ByteLength => 0x0E,
            ElementType::UTF8String8ByteLength => 0x0F,
            ElementType::ByteString1ByteLength => 0x10,
            ElementType::ByteString2ByteLength => 0x11,
            ElementType::ByteString4ByteLength => 0x12,
            ElementType::ByteString8ByteLength => 0x13,
            ElementType::Null => 0x14,
            ElementType::Structure => 0x15,
            ElementType::Array => 0x16,
            ElementType::List => 0x17,
            ElementType::EndOfContainer => 0x18,
        }
    }

    /// The element type whose code is `code`; the codes above 0x18 are unassigned.
    pub fn try_from(code: u8) -> (r: Result<ElementType, TLVError>)
        ensures
            code <= 0x18 ==> (r matches Ok(e) && e.spec_code() == code),
            code > 0x18 ==> r matches Err(TLVError::InvalidType),
    {
        match code {
            0x00 => Ok(ElementType::Int8),
            0x01 => Ok(ElementType::Int16),
            0x02 => Ok(ElementType::Int32),
            0x03 => Ok(ElementType::Int64),
            0x04 => Ok(ElementType::UInt8),
            0x05 => Ok(ElementType::UInt16),
            0x06 => Ok(ElementType::UInt32),
            0x07 => Ok(ElementType::UInt64),
            0x08 => Ok(ElementType::BooleanFalse),
            0x09 => Ok(ElementType::BooleanTrue),
            0x0A => Ok(ElementType::FloatingPointNumber32),
            0x0B => Ok(ElementType::FloatingPointNumber64),
            0x0C => Ok(ElementType::UTF8String1ByteLength),
            0x0D => Ok(ElementType::UTF8String2ByteLength),
            0x0E => Ok(ElementType::UTF8String4ByteLength),
            0x0F => Ok(ElementType::UTF8String8ByteLength),
            0x10 => Ok(ElementType::ByteString1ByteLength),
            0x11 => Ok(ElementType::ByteString2ByteLength),
            0x12 => Ok(ElementType::ByteString4ByteLength),
            0x13 => Ok(ElementType::ByteString8ByteLength),
            0x14 => Ok(ElementType::Null),
            0x15 => Ok(ElementType::Structure),
            0x16 => Ok(ElementType::Array),
            0x17 => Ok(ElementType::List),
            0x18 => Ok(ElementType::EndOfContainer),
            _ => Err(TLVError::InvalidType),
        }
    }
}

/// Two element types with the same code are the same type.
pub proof fn lemma_code_injective(a: ElementType, b: ElementType)
    ensures
        a.spec_code() == b.spec_code() ==> a == b,
{
}

#[derive(Debug, PartialEq, Eq, Clone, Copy, Structural)]
pub enum SignedInteger {
    Int8,
    Int16,
    Int32,
    Int64,
}

#[derive(Debug, PartialEq, Eq, Clone, Copy, Structural)]
pub enum UnsignedInteger {
    UInt8,
    UInt16,
    UInt32,
    UInt64,
}

#[derive(Debug, PartialEq, Eq, Clone, Copy, Structural)]
pub enum FloatingPoint {
    FloatingPointNumber32,
    FloatingPointNumber64,
}

/// A primitive whose value length the type code alone gives.
#[derive(Debug, PartialEq, Eq, Clone, Copy, Structural)]
pub enum PredeterminedLenPrimitive {
    SignedInteger(SignedInteger),
    UnsignedInteger(UnsignedInteger),
    FloatingPointNumber(FloatingPoint),
    /// The value is carried in the type code.
    Boolean(bool),
    Null,
}

#[derive(Debug, PartialEq, Eq, Clone, Copy, Structural)]
pub enum UTF8StrLen {
    OneOctet,
    TwoOctets,
    FourOctets,
    EightOctets,
}

#[derive(Debug, PartialEq, Eq, Clone, Copy, Structural)]
pub enum ByteStrLen {
    OneOctet,
    TwoOctets,
    FourOctets,
    EightOctets,
}

/// A primitive whose value length a length field gives.
#[derive(Debug, PartialEq, Eq, Clone, Copy, Structural)]
pub enum SpecifiedLenPrimitive {
    UTF8String(UTF8StrLen),
    ByteString(ByteStrLen),
}

#[derive(Debug, PartialEq, Eq, Clone, Copy, Structural)]
pub enum PrimitiveLengthType {
    Predetermined(PredeterminedLenPrimitive),
    Specified(SpecifiedLenPrimitive),
}

#[derive(Debug, PartialEq, Eq, Clone, Copy, Structural)]
pub enum ContainerType {
    Structure,
    Array,
    List,
}

/// The kind of an element.
#[derive(Debug, PartialEq, Eq, Clone, Copy, Structural)]
pub enum TLVType {
    Primitive(PrimitiveLengthType),
    Container(ContainerType),
    EndOfContainer,
}

impl TLVType {
    /// The kind that an element type stands for.
    pub open spec fn spec_from(e: ElementType) -> TLVType {
        match e {
            ElementType::Int8 => TLVType::Primitive(PrimitiveLengthType::Predetermined(PredeterminedLenPrimitive::SignedInteger(SignedInteger::Int8))),
            ElementType::Int16 => TLVType::Primitive(PrimitiveLengthType::Predetermined(PredeterminedLenPrimitive::SignedInteger(SignedInteger::Int16))),
            ElementType::Int32 => TLVType::Primitive(PrimitiveLengthType::Predetermined(PredeterminedLenPrimitive::SignedInteger(SignedInteger::Int32))),
            ElementType::Int64 => TLVType::Primitive(PrimitiveLengthType::Predetermined(PredeterminedLenPrimitive::SignedInteger(SignedInteger::Int64))),
            ElementType::UInt8 => TLVType::Primitive(PrimitiveLengthType::Predetermined(PredeterminedLenPrimitive::UnsignedInteger(UnsignedInteger::UInt8))),
            ElementType::UInt16 => TLVType::Primitive(PrimitiveLengthType::Predetermined(PredeterminedLenPrimitive::UnsignedInteger(UnsignedInteger::UInt16))),
            ElementType::UInt32 => TLVType::Primitive(PrimitiveLengthType::Predetermined(PredeterminedLenPrimitive::UnsignedInteger(UnsignedInteger::UInt32))),
            ElementType::UInt64 => TLVType::Primitive(PrimitiveLengthType::Predetermined(PredeterminedLenPrimitive::UnsignedInteger(UnsignedInteger::UInt64))),
            ElementType::BooleanFalse => TLVType::Primitive(PrimitiveLengthType::Predetermined(PredeterminedLenPrimitive::Boolean(false))),
            ElementType::BooleanTrue => TLVType::Primitive(PrimitiveLengthType::Predetermined(PredeterminedLenPrimitive::Boolean(true))),
            ElementType::FloatingPointNumber32 => TLVType::Primitive(PrimitiveLengthType::Predetermined(PredeterminedLenPrimitive::FloatingPointNumber(FloatingPoint::FloatingPointNumber32))),
            ElementType::FloatingPointNumber64 => TLVType::Primitive(PrimitiveLengthType::Predetermined(PredeterminedLenPrimitive::FloatingPointNumber(FloatingPoint::FloatingPointNumber64))),
            ElementType::UTF8String1ByteLength => TLVType::Primitive(PrimitiveLengthType::Specified(SpecifiedLenPrimitive::UTF8String(UTF8StrLen::OneOctet))),
            ElementType::UTF8String2ByteLength => TLVType::Primitive(PrimitiveLengthType::Specified(SpecifiedLenPrimitive::UTF8String(UTF8StrLen::TwoOctets))),
            ElementType::UTF8String4ByteLength => TLVType::Primitive(PrimitiveLengthType::Specified(SpecifiedLenPrimitive::UTF8String(UTF8StrLen::FourOctets))),
            ElementType::UTF8String8ByteLength => TLVType::Primitive(PrimitiveLengthType::Specified(SpecifiedLenPrimitive::UTF8String(UTF8StrLen::EightOctets))),
            ElementType::ByteString1ByteLength => TLVType::Primitive(PrimitiveLengthType::Specified(SpecifiedLenPrimitive::ByteString(ByteStrLen::OneOctet))),
            ElementType::ByteString2ByteLength => TLVType::Primitive(PrimitiveLengthType::Specified(SpecifiedLenPrimitive::ByteString(ByteStrLen::TwoOctets))),
            ElementType::ByteString4ByteLength => TLVType::Primitive(PrimitiveLengthType::Specified(SpecifiedLenPrimitive::ByteString(ByteStrLen::FourOctets))),
            ElementType::ByteString8ByteLength => TLVType::Primitive(PrimitiveLengthType::Specified(SpecifiedLenPrimitive::ByteString(ByteStrLen::EightOctets))),
            ElementType::Null => TLVType::Primitive(PrimitiveLengthType::Predetermined(PredeterminedLenPrimitive::Null)),
            ElementType::Structure => TLVType::Container(ContainerType::Structure),
            ElementType::Array => TLVType::Container(ContainerType::Array),
            ElementType::List => TLVType::Container(ContainerType::List),
            ElementType::EndOfContainer => TLVType::EndOfContainer,
        }
    }
}

impl TLVType {
    /// The kind that `element_type` stands for.
    pub fn from_element_type(element_type: ElementType) -> (r: TLVType)
        ensures
            r == TLVType::spec_from(element_type),
    {
        match element_type {
            ElementType::Int8 => TLVType::Primitive(PrimitiveLengthType::Predetermined(PredeterminedLenPrimitive::SignedInteger(SignedInteger::Int8))),
            ElementType::Int16 => TLVType::Primitive(PrimitiveLengthType::Predetermined(PredeterminedLenPrimitive::SignedInteger(SignedInteger::Int16))),
            ElementType::Int32 => TLVType::Primitive(PrimitiveLengthType::Predetermined(PredeterminedLenPrimitive::SignedInteger(SignedInteger::Int32))),
            ElementType::Int64 => TLVType::Primitive(PrimitiveLengthType::Predetermined(PredeterminedLenPrimitive::SignedInteger(SignedInteger::Int64))),
            ElementType::UInt8 => TLVType::Primitive(PrimitiveLengthType::Predetermined(PredeterminedLenPrimitive::UnsignedInteger(UnsignedInteger::UInt8))),
            ElementType::UInt16 => TLVType::Primitive(PrimitiveLengthType::Predetermined(PredeterminedLenPrimitive::UnsignedInteger(UnsignedInteger::UInt16))),
            ElementType::UInt32 => TLVType::Primitive(PrimitiveLengthType::Predetermined(PredeterminedLenPrimitive::UnsignedInteger(UnsignedInteger::UInt32))),
            ElementType::UInt64 => TLVType::Primitive(PrimitiveLengthType::Predetermined(PredeterminedLenPrimitive::UnsignedInteger(UnsignedInteger::UInt64))),
            ElementType::BooleanFalse => TLVType::Primitive(PrimitiveLengthType::Predetermined(PredeterminedLenPrimitive::Boolean(false))),
            ElementType::BooleanTrue => TLVType::Primitive(PrimitiveLengthType::Predetermined(PredeterminedLenPrimitive::Boolean(true))),
            ElementType::FloatingPointNumber32 => TLVType::Primitive(PrimitiveLengthType::Predetermined(PredeterminedLenPrimitive::FloatingPointNumber(FloatingPoint::FloatingPointNumber32))),
            ElementType::FloatingPointNumber64 => TLVType::Primitive(PrimitiveLengthType::Predetermined(PredeterminedLenPrimitive::FloatingPointNumber(FloatingPoint::FloatingPointNumber64))),
            ElementType::UTF8String1ByteLength => TLVType::Primitive(PrimitiveLengthType::Specified(SpecifiedLenPrimitive::UTF8String(UTF8StrLen::OneOctet))),
            ElementType::UTF8String2ByteLength => TLVType::Primitive(PrimitiveLengthType::Specified(SpecifiedLenPrimitive::UTF8String(UTF8StrLen::TwoOctets))),
            ElementType::UTF8String4ByteLength => TLVType::Primitive(PrimitiveLengthType::Specified(SpecifiedLenPrimitive::UTF8String(UTF8StrLen::FourOctets))),
            ElementType::UTF8String8ByteLength => TLVType::Primitive(PrimitiveLengthType::Specified(SpecifiedLenPrimitive::UTF8String(UTF8StrLen::EightOctets))),
            ElementType::ByteString1ByteLength => TLVType::Primitive(PrimitiveLengthType::Specified(SpecifiedLenPrimitive::ByteString(ByteStrLen::OneOctet))),
            ElementType::ByteString2ByteLength => TLVType::Primitive(PrimitiveLengthType::Specified(SpecifiedLenPrimitive::ByteString(ByteStrLen::TwoOctets))),
            ElementType::ByteString4ByteLength => TLVType::Primitive(PrimitiveLengthType::Specified(SpecifiedLenPrimitive::ByteString(ByteStrLen::FourOctets))),
            ElementType::ByteString8ByteLength => TLVType::Primitive(PrimitiveLengthType::Specified(SpecifiedLenPrimitive::ByteString(ByteStrLen::EightOctets))),
            ElementType::Null => TLVType::Primitive(PrimitiveLengthType::Predetermined(PredeterminedLenPrimitive::Null)),
            ElementType::Structure => TLVType::Container(ContainerType::Structure),
            ElementType::Array => TLVType::Container(ContainerType::Array),
            ElementType::List => TLVType::Container(ContainerType::List),
            ElementType::EndOfContainer => TLVType::EndOfContainer,
        }
    }
}

impl SignedInteger {
    pub open spec fn spec_width(self) -> nat {
        match self {
            SignedInteger::Int8 => 1,
            SignedInteger::Int16 => 2,
            SignedInteger::Int32 => 4,
            SignedInteger::Int64 => 8,
        }
    }

    /// The number of value bytes.
    pub fn width(&self) -> (r: usize)
        ensures
            r as nat == self.spec_width(),
    {
        match self {
            SignedInteger::Int8 => 1,
            SignedInteger::Int16 => 2,
            SignedInteger::Int32 => 4,
            SignedInteger::Int64 => 8,
        }
    }
}

impl UnsignedInteger {
    pub open spec fn spec_width(self) -> nat {
        match self {
            UnsignedInteger::UInt8 => 1,
            UnsignedInteger::UInt16 => 2,
            UnsignedInteger::UInt32 => 4,
            UnsignedInteger::UInt64 => 8,
        }
    }

    /// The number of value bytes.
    pub fn width(&self) -> (r: usize)
        ensures
            r as nat == self.spec_width(),
    {
        match self {
            UnsignedInteger::UInt8 => 1,
            UnsignedInteger::UInt16 => 2,
            UnsignedInteger::UInt32 => 4,
            UnsignedInteger::UInt64 => 8,
        }
    }
}

impl FloatingPoint {
    pub open spec fn spec_width(self) -> nat {
        match self {
            FloatingPoint::FloatingPointNumber32 => 4,
            FloatingPoint::FloatingPointNumber64 => 8,
        }
    }

    /// The number of value bytes.
    pub fn width(&self) -> (r: usize)
        ensures
            r as nat == self.spec_width(),
    {
        match self {
            FloatingPoint::FloatingPointNumber32 => 4,
            FloatingPoint::FloatingPointNumber64 => 8,
        }
    }
}

impl PredeterminedLenPrimitive {
    /// The number of value bytes: none for booleans and null.
    pub open spec fn spec_value_octets(self) -> nat {
        match self {
            PredeterminedLenPrimitive::SignedInteger(i) => i.spec_width(),
            PredeterminedLenPrimitive::UnsignedInteger(u) => u.spec_width(),
            PredeterminedLenPrimitive::FloatingPointNumber(f) => f.spec_width(),
            PredeterminedLenPrimitive::Boolean(_) => 0,
            PredeterminedLenPrimitive::Null => 0,
        }
    }

    /// The number of value bytes: none for booleans and null.
    pub fn value_octets_count(&self) -> (r: usize)
        ensures
            r as nat == self.spec_value_octets(),
    {
        match self {
            PredeterminedLenPrimitive::SignedInteger(signed_int) => signed_int.width(),
            PredeterminedLenPrimitive::UnsignedInteger(unsigned_int) => unsigned_int.width(),
            PredeterminedLenPrimitive::Boolean(_) => 0,
            PredeterminedLenPrimitive::FloatingPointNumber(floating_point) => floating_point.width(),
            PredeterminedLenPrimitive::Null => 0,
        }
    }
}

/// The width of a length field.
#[derive(Debug, PartialEq, Eq, Clone, Copy, Structural)]
pub enum TLVFieldSize {
    OneOctet,
    TwoOctets,
    FourOctets,
    EightOctets,
}

impl ByteStrLen {
    pub open spec fn spec_field_size(self) -> TLVFieldSize {
        match self {
            ByteStrLen::OneOctet => TLVFieldSize::OneOctet,
            ByteStrLen::TwoOctets => TLVFieldSize::TwoOctets,
            ByteStrLen::FourOctets => TLVFieldSize::FourOctets,
            ByteStrLen::EightOctets => TLVFieldSize::EightOctets,
        }
    }

    pub fn length_field_size(&self) -> (r: TLVFieldSize)
        ensures
            r == self.spec_field_size(),
    {
        match self {
            ByteStrLen::OneOctet => TLVFieldSize::OneOctet,
            ByteStrLen::TwoOctets => TLVFieldSize::TwoOctets,
            ByteStrLen::FourOctets => TLVFieldSize::FourOctets,
            ByteStrLen::EightOctets => TLVFieldSize::EightOctets,
        }
    }
}

impl UTF8StrLen {
    pub open spec fn spec_field_size(self) -> TLVFieldSize {
        match self {
            UTF8StrLen::OneOctet => TLVFieldSize::OneOctet,
            UTF8StrLen::TwoOctets => TLVFieldSize::TwoOctets,
            UTF8StrLen::FourOctets => TLVFieldSize::FourOctets,
            UTF8StrLen::EightOctets => TLVFieldSize::EightOctets,
        }
    }

    pub fn length_field_size(&self) -> (r: TLVFieldSize)
        ensures
            r == self.spec_field_size(),
    {
        match self {
            UTF8StrLen::OneOctet => TLVFieldSize::OneOctet,
            UTF8StrLen::TwoOctets => TLVFieldSize::TwoOctets,
            UTF8StrLen::FourOctets => TLVFieldSize::FourOctets,
            UTF8StrLen::EightOctets => TLVFieldSize::EightOctets,
        }
    }
}

impl SpecifiedLenPrimitive {
    pub open spec fn spec_field_size(self) -> TLVFieldSize {
        match self {
            SpecifiedLenPrimitive::UTF8String(s) => s.spec_field_size(),
            SpecifiedLenPrimitive::ByteString(b) => b.spec_field_size(),
        }
    }

    pub fn length_field_size(&self) -> (r: TLVFieldSize)
        ensures
            r == self.spec_field_size(),
    {
        match self {
            SpecifiedLenPrimitive::UTF8String(utf8_string) => utf8_string.length_field_size(),
            SpecifiedLenPrimitive::ByteString(byte_string) => byte_string.length_field_size(),
        }
    }
}

/// The smallest length-field width whose largest value is at least `len`.
pub open spec fn pick_width_spec(len: nat) -> TLVFieldSize {
    if len < 0x100 {
        TLVFieldSize::OneOctet
    } else if len < 0x1_0000 {
        TLVFieldSize::TwoOctets
    } else if len < 0x1_0000_0000 {
        TLVFieldSize::FourOctets
    } else {
        TLVFieldSize::EightOctets
    }
}

impl TLVFieldSize {
    pub open spec fn spec_octets(self) -> nat {
        match self {
            TLVFieldSize::OneOctet => 1,
            TLVFieldSize::TwoOctets => 2,
            TLVFieldSize::FourOctets => 4,
            TLVFieldSize::EightOctets => 8,
        }
    }

    /// The number of bytes of the length field.
    pub fn octets(&self) -> (r: usize)
        ensures
            r as nat == self.spec_octets(),
    {
        match self {
            TLVFieldSize::OneOctet => 1,
            TLVFieldSize::TwoOctets => 2,
            TLVFieldSize::FourOctets => 4,
            TLVFieldSize::EightOctets => 8,
        }
    }

    /// The smallest width that holds the length `len`.
    pub fn pick_width(len: u64) -> (r: TLVFieldSize)
        ensures
            r == pick_width_spec(len as nat),
            len < pow256(r.spec_octets()),
    {
        proof {
            lemma_pow256_values();
        }
        if len <= 0xFF {
            TLVFieldSize::OneOctet
        } else if len <= 0xFFFF {
            TLVFieldSize::TwoOctets
        } else if len <= 0xFFFF_FFFF {
            TLVFieldSize::FourOctets
        } else {
            TLVFieldSize::EightOctets
        }
    }

    /// The length field of this width for `len`, least significant byte first.
    pub fn write_length(&self, len: u64) -> (r: Vec<u8>)
        ensures
            r@ == le_bytes(len as nat, self.spec_octets()),
    {
        let mut out: Vec<u8> = Vec::new();
        push_le(&mut out, len, self.octets());
        out
    }

    /// Reads a length field of this width from the front of `bytes`, and
    /// returns the bytes after it.
    pub fn parse_field_size<'a>(&self, bytes: &'a [u8]) -> (r: Result<(&'a [u8], u64), TLVError>)
        ensures
            bytes@.len() < self.spec_octets() ==> r matches Err(TLVError::UnderRun),
            bytes@.len() >= self.spec_octets() ==> (r matches Ok((rest, len)) && len as nat
                == le_value(bytes@.take(self.spec_octets() as int)) && rest@ == bytes@.skip(
                self.spec_octets() as int,
            )),
    {
        let len_octets_count = self.octets();
        if len_octets_count > bytes.len() {
            return Err(TLVError::UnderRun);
        }
        parse_le(bytes, len_octets_count)
    }

    /// The value bytes after a length field of this width at the front of `bytes`.
    pub fn extract_field_sized_bytes<'a>(&self, bytes: &'a [u8]) -> (r: Result<&'a [u8], TLVError>)
        ensures
            ({
                let n = self.spec_octets() as int;
                let len = le_value(bytes@.take(n));
                if bytes@.len() < n || bytes@.len() < n + len {
                    r matches Err(TLVError::UnderRun)
                } else {
                    r matches Ok(v) && v@ == bytes@.subrange(n, n + len)
                }
            }),
    {
        let (remaining_bytes, value_len) = self.parse_field_size(bytes)?;
        if value_len > remaining_bytes.len() as u64 {
            Err(TLVError::UnderRun)
        } else {
            let v = vstd::slice::slice_subrange(remaining_bytes, 0, value_len as usize);
            assert(v@ =~= bytes@.subrange(
                self.spec_octets() as int,
                self.spec_octets() + value_len,
            ));
            Ok(v)
        }
    }
}

impl ElementType {
    /// The UTF-8 string type with a length field of width `w`.
    pub open spec fn spec_utf8_string(w: TLVFieldSize) -> ElementType {
        match w {
            TLVFieldSize::OneOctet => ElementType::UTF8String1ByteLength,
            TLVFieldSize::TwoOctets => ElementType::UTF8String2ByteLength,
            TLVFieldSize::FourOctets => ElementType::UTF8String4ByteLength,
            TLVFieldSize::EightOctets => ElementType::UTF8String8ByteLength,
        }
    }

    /// The byte string type with a length field of width `w`.
    pub open spec fn spec_byte_string(w: TLVFieldSize) -> ElementType {
        match w {
            TLVFieldSize::OneOctet => ElementType::ByteString1ByteLength,
            TLVFieldSize::TwoOctets => ElementType::ByteString2ByteLength,
            TLVFieldSize::FourOctets => ElementType::ByteString4ByteLength,
            TLVFieldSize::EightOctets => ElementType::ByteString8ByteLength,
        }
    }

    pub fn utf8_string(w: TLVFieldSize) -> (r: ElementType)
        ensures
            r == ElementType::spec_utf8_string(w),
    {
        match w {
            TLVFieldSize::OneOctet => ElementType::UTF8String1ByteLength,
            TLVFieldSize::TwoOctets => ElementType::UTF8String2ByteLength,
            TLVFieldSize::FourOctets => ElementType::UTF8String4ByteLength,
            TLVFieldSize::EightOctets => ElementType::UTF8String8ByteLength,
        }
    }

    pub fn byte_string(w: TLVFieldSize) -> (r: ElementType)
        ensures
            r == ElementType::spec_byte_string(w),
    {
        match w {
            TLVFieldSize::OneOctet => ElementType::ByteString1ByteLength,
            TLVFieldSize::TwoOctets => ElementType::ByteString2ByteLength,
            TLVFieldSize::FourOctets => ElementType::ByteString4ByteLength,
            TLVFieldSize::EightOctets => ElementType::ByteString8ByteLength,
        }
    }
}

/// The minimal length field for a payload of `len` bytes.
pub open spec fn length_field_spec(len: nat) -> Seq<u8> {
    le_bytes(len, pick_width_spec(len).spec_octets())
}

/// The width and the bytes of the minimal length field for `len`.
fn length_field(len: usize) -> (r: (TLVFieldSize, Vec<u8>))
    ensures
        r.0 == pick_width_spec(len as nat),
        r.1@ == length_field_spec(len as nat),
{
    let w = TLVFieldSize::pick_width(len as u64);
    let bytes = w.write_length(len as u64);
    (w, bytes)
}

/// The `n`-byte two's complement pattern of `v`.
fn twos_u64(v: i64, n: usize) -> (r: u64)
    requires
        n == 1 || n == 2 || n == 4 || n == 8,
        -pow256(n as nat) <= 2 * v < pow256(n as nat),
    ensures
        r as nat == twos_complement(v as int, n as nat),
{
    proof {
        lemma_pow256_values();
    }
    if v >= 0 {
        v as u64
    } else if n == 8 {
        ((v - i64::MIN) as u64) + 0x8000_0000_0000_0000
    } else {
        let full: i64 = if n == 1 {
            0x100
        } else if n == 2 {
            0x1_0000
        } else {
            0x1_0000_0000
        };
        (v + full) as u64
    }
}

/// The bit pattern of a single precision floating point number.
#[derive(Debug, PartialEq, Eq, Clone, Copy, Structural)]
pub struct Float32Bits(pub u32);

/// The bit pattern of a double precision floating point number.
#[derive(Debug, PartialEq, Eq, Clone, Copy, Structural)]
pub struct Float64Bits(pub u64);

/// A primitive value and the three parts of its encoding.
pub trait TLVPrimitive: Sized {
    /// The element type that encodes `value`.
    spec fn spec_element_type(value: Self) -> ElementType;

    /// The length field of `value`: empty unless the length is specified.
    spec fn spec_length_bytes(value: Self) -> Seq<u8>;

    /// The value bytes of `value`.
    spec fn spec_value_bytes(value: Self) -> Seq<u8>;

    /// The element type, the length field and the value bytes of `value`.
    fn parse_value(value: Self) -> (r: (ElementType, Vec<u8>, Vec<u8>))
        ensures
            r.0 == Self::spec_element_type(value),
            r.1@ == Self::spec_length_bytes(value),
            r.2@ == Self::spec_value_bytes(value),
    ;
}

impl TLVPrimitive for String {
    open spec fn spec_element_type(value: String) -> ElementType {
        ElementType::spec_utf8_string(pick_width_spec(encode_utf8(value@).len()))
    }

    open spec fn spec_length_bytes(value: String) -> Seq<u8> {
        length_field_spec(encode_utf8(value@).len())
    }

    open spec fn spec_value_bytes(value: String) -> Seq<u8> {
        encode_utf8(value@)
    }

    fn parse_value(value: String) -> (r: (ElementType, Vec<u8>, Vec<u8>)) {
        let val_bytes = vstd::slice::slice_to_vec(value.as_str().as_bytes());
        let (width, len_bytes) = length_field(val_bytes.len());
        (ElementType::utf8_string(width), len_bytes, val_bytes)
    }
}

impl TLVPrimitive for Vec<u8> {
    open spec fn spec_element_type(value: Vec<u8>) -> ElementType {
        ElementType::spec_byte_string(pick_width_spec(value@.len()))
    }

    open spec fn spec_length_bytes(value: Vec<u8>) -> Seq<u8> {
        length_field_spec(value@.len())
    }

    open spec fn spec_value_bytes(value: Vec<u8>) -> Seq<u8> {
        value@
    }

    fn parse_value(value: Vec<u8>) -> (r: (ElementType, Vec<u8>, Vec<u8>)) {
        let (width, len_bytes) = length_field(value.len());
        (ElementType::byte_string(width), len_bytes, value)
    }
}

impl TLVPrimitive for bool {
    open spec fn spec_element_type(value: bool) -> ElementType {
        if value {
            ElementType::BooleanTrue
        } else {
            ElementType::BooleanFalse
        }
    }

    open spec fn spec_length_bytes(value: bool) -> Seq<u8> {
        Seq::empty()
    }

    open spec fn spec_value_bytes(value: bool) -> Seq<u8> {
        Seq::empty()
    }

    fn parse_value(value: bool) -> (r: (ElementType, Vec<u8>, Vec<u8>)) {
        let element_type = if value {
            ElementType::BooleanTrue
        } else {
            ElementType::BooleanFalse
        };
        (element_type, Vec::new(), Vec::new())
    }
}

impl TLVPrimitive for u8 {
    open spec fn spec_element_type(value: u8) -> ElementType {
        ElementType::UInt8
    }

    open spec fn spec_length_bytes(value: u8) -> Seq<u8> {
        Seq::empty()
    }

    open spec fn spec_value_bytes(value: u8) -> Seq<u8> {
        le_bytes(value as nat, 1)
    }

    fn parse_value(value: u8) -> (r: (ElementType, Vec<u8>, Vec<u8>)) {
        let mut val_bytes: Vec<u8> = Vec::new();
        push_le(&mut val_bytes, value as u64, 1);
        (ElementType::UInt8, Vec::new(), val_bytes)
    }
}

impl TLVPrimitive for u16 {
    open spec fn spec_element_type(value: u16) -> ElementType {
        ElementType::UInt16
    }

    open spec fn spec_length_bytes(value: u16) -> Seq<u8> {
        Seq::empty()
    }

    open spec fn spec_value_bytes(value: u16) -> Seq<u8> {
        le_bytes(value as nat, 2)
    }

    fn parse_value(value: u16) -> (r: (ElementType, Vec<u8>, Vec<u8>)) {
        let mut val_bytes: Vec<u8> = Vec::new();
        push_le(&mut val_bytes, value as u64, 2);
        (ElementType::UInt16, Vec::new(), val_bytes)
    }
}

impl TLVPrimitive for u32 {
    open spec fn spec_element_type(value: u32) -> ElementType {
        ElementType::UInt32
    }

    open spec fn spec_length_bytes(value: u32) -> Seq<u8> {
        Seq::empty()
    }

    open spec fn spec_value_bytes(value: u32) -> Seq<u8> {
        le_bytes(value as nat, 4)
    }

    fn parse_value(value: u32) -> (r: (ElementType, Vec<u8>, Vec<u8>)) {
        let mut val_bytes: Vec<u8> = Vec::new();
        push_le(&mut val_bytes, value as u64, 4);
        (ElementType::UInt32, Vec::new(), val_bytes)
    }
}

impl TLVPrimitive for u64 {
    open spec fn spec_element_type(value: u64) -> ElementType {
        ElementType::UInt64
    }

    open spec fn spec_length_bytes(value: u64) -> Seq<u8> {
        Seq::empty()
    }

    open spec fn spec_value_bytes(value: u64) -> Seq<u8> {
        le_bytes(value as nat, 8)
    }

    fn parse_value(value: u64) -> (r: (ElementType, Vec<u8>, Vec<u8>)) {
        let mut val_bytes: Vec<u8> = Vec::new();
        push_le(&mut val_bytes, value as u64, 8);
        (ElementType::UInt64, Vec::new(), val_bytes)
    }
}

impl TLVPrimitive for i8 {
    open spec fn spec_element_type(value: i8) -> ElementType {
        ElementType::Int8
    }

    open spec fn spec_length_bytes(value: i8) -> Seq<u8> {
        Seq::empty()
    }

    open spec fn spec_value_bytes(value: i8) -> Seq<u8> {
        le_bytes(twos_complement(value as int, 1), 1)
    }

    fn parse_value(value: i8) -> (r: (ElementType, Vec<u8>, Vec<u8>)) {
        proof {
            lemma_pow256_values();
        }
        let mut val_bytes: Vec<u8> = Vec::new();
        push_le(&mut val_bytes, twos_u64(value as i64, 1), 1);
        (ElementType::Int8, Vec::new(), val_bytes)
    }
}

impl TLVPrimitive for i16 {
    open spec fn spec_element_type(value: i16) -> ElementType {
        ElementType::Int16
    }

    open spec fn spec_length_bytes(value: i16) -> Seq<u8> {
        Seq::empty()
    }

    open spec fn spec_value_bytes(value: i16) -> Seq<u8> {
        le_bytes(twos_complement(value as int, 2), 2)
    }

    fn parse_value(value: i16) -> (r: (ElementType, Vec<u8>, Vec<u8>)) {
        proof {
            lemma_pow256_values();
        }
        let mut val_bytes: Vec<u8> = Vec::new();
        push_le(&mut val_bytes, twos_u64(value as i64, 2), 2);
        (ElementType::Int16, Vec::new(), val_bytes)
    }
}

impl TLVPrimitive for i32 {
    open spec fn spec_element_type(value: i32) -> ElementType {
        ElementType::Int32
    }

    open spec fn spec_length_bytes(value: i32) -> Seq<u8> {
        Seq::empty()
    }

    open spec fn spec_value_bytes(value: i32) -> Seq<u8> {
        le_bytes(twos_complement(value as int, 4), 4)
    }

    fn parse_value(value: i32) -> (r: (ElementType, Vec<u8>, Vec<u8>)) {
        proof {
            lemma_pow256_values();
        }
        let mut val_bytes: Vec<u8> = Vec::new();
        push_le(&mut val_bytes, twos_u64(value as i64, 4), 4);
        (ElementType::Int32, Vec::new(), val_bytes)
    }
}

impl TLVPrimitive for i64 {
    open spec fn spec_element_type(value: i64) -> ElementType {
        ElementType::Int64
    }

    open spec fn spec_length_bytes(value: i64) -> Seq<u8> {
        Seq::empty()
    }

    open spec fn spec_value_bytes(value: i64) -> Seq<u8> {
        le_bytes(twos_complement(value as int, 8), 8)
    }

    fn parse_value(value: i64) -> (r: (ElementType, Vec<u8>, Vec<u8>)) {
        proof {
            lemma_pow256_values();
        }
        let mut val_bytes: Vec<u8> = Vec::new();
        push_le(&mut val_bytes, twos_u64(value as i64, 8), 8);
        (ElementType::Int64, Vec::new(), val_bytes)
    }
}

impl TLVPrimitive for Float32Bits {
    open spec fn spec_element_type(value: Float32Bits) -> ElementType {
        ElementType::FloatingPointNumber32
    }

    open spec fn spec_length_bytes(value: Float32Bits) -> Seq<u8> {
        Seq::empty()
    }

    open spec fn spec_value_bytes(value: Float32Bits) -> Seq<u8> {
        le_bytes(value.0 as nat, 4)
    }

    fn parse_value(value: Float32Bits) -> (r: (ElementType, Vec<u8>, Vec<u8>)) {
        let mut val_bytes: Vec<u8> = Vec::new();
        push_le(&mut val_bytes, value.0 as u64, 4);
        (ElementType::FloatingPointNumber32, Vec::new(), val_bytes)
    }
}

impl TLVPrimitive for Float64Bits {
    open spec fn spec_element_type(value: Float64Bits) -> ElementType {
        ElementType::FloatingPointNumber64
    }

    open spec fn spec_length_bytes(value: Float64Bits) -> Seq<u8> {
        Seq::empty()
    }

    open spec fn spec_value_bytes(value: Float64Bits) -> Seq<u8> {
        le_bytes(value.0 as nat, 8)
    }

    fn parse_value(value: Float64Bits) -> (r: (ElementType, Vec<u8>, Vec<u8>)) {
        let mut val_bytes: Vec<u8> = Vec::new();
        push_le(&mut val_bytes, value.0 as u64, 8);
        (ElementType::FloatingPointNumber64, Vec::new(), val_bytes)
    }
}

} // verus!
