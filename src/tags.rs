//! Tags: the five tag forms, their control bits and their bytes on the wire.
use crate::errors::TLVError;
use crate::util::{
    le_bytes, le_value, lemma_le_bytes_len, lemma_le_value_of_bytes, lemma_pow256_values,
    parse_u16, parse_u32, parse_u8, push_le,
};
use vstd::prelude::*;

verus! {

/// The position of the tag-control bits in the control byte.
pub const CONTROL_BYTE_SHIFT: u8 = 5;

/// The tag family, as the top three bits of the control byte select it.
#[derive(Debug, PartialEq, Eq, Clone, Copy, Structural)]
pub enum TagControl {
    Anonymous,
    ContextSpecific,
    CommonProfile2Bytes,
    CommonProfile4Bytes,
    ImplicitProfile2Bytes,
    ImplicitProfile4Bytes,
    FullyQualified6Bytes,
    FullyQualified8Bytes,
}

impl TagControl {
    /// The control byte with these tag-control bits and a zero type code.
    pub open spec fn spec_value(self) -> u8 {
        match self {
            TagControl::Anonymous => 0x00,
            TagControl::ContextSpecific => 0x20,
            TagControl::CommonProfile2Bytes => 0x40,
            TagControl::CommonProfile4Bytes => 0x60,
            TagControl::ImplicitProfile2Bytes => 0x80,
            TagControl::ImplicitProfile4Bytes => 0xA0,
            TagControl::FullyQualified6Bytes => 0xC0,
            TagControl::FullyQualified8Bytes => 0xE0,
        }
    }

    /// The number of tag bytes that follow the control byte.
    pub open spec fn spec_octets(self) -> nat {
        match self {
            TagControl::Anonymous => 0,
            TagControl::ContextSpecific => 1,
            TagControl::CommonProfile2Bytes => 2,
            TagControl::CommonProfile4Bytes => 4,
            TagControl::ImplicitProfile2Bytes => 2,
            TagControl::ImplicitProfile4Bytes => 4,
            TagControl::FullyQualified6Bytes => 6,
            TagControl::FullyQualified8Bytes => 8,
        }
    }

    /// The family whose tag-control bits are those of `b`.
    pub open spec fn of_byte(b: u8) -> TagControl {
        let k = b / 32;
        if k == 0 {
            TagControl::Anonymous
        } else if k == 1 {
            TagControl::ContextSpecific
        } else if k == 2 {
            TagControl::CommonProfile2Bytes
        } else if k == 3 {
            TagControl::CommonProfile4Bytes
        } else if k == 4 {
            TagControl::ImplicitProfile2Bytes
        } else if k == 5 {
            TagControl::ImplicitProfile4Bytes
        } else if k == 6 {
            TagControl::FullyQualified6Bytes
        } else {
            TagControl::FullyQualified8Bytes
        }
    }

    pub fn value(&self) -> (r: u8)
        ensures
            r == self.spec_value(),
    {
        match self {
            TagControl::Anonymous => 0x00,
            TagControl::ContextSpecific => 0x20,
            TagControl::CommonProfile2Bytes => 0x40,
            TagControl::CommonProfile4Bytes => 0x60,
            TagControl::ImplicitProfile2Bytes => 0x80,
            TagControl::ImplicitProfile4Bytes => 0xA0,
            TagControl::FullyQualified6Bytes => 0xC0,
            TagControl::FullyQualified8Bytes => 0xE0,
        }
    }

    /// The family whose control-byte value is `tag_control_byte`; the low five
    /// bits must be zero.
    pub fn try_from(tag_control_byte: u8) -> (r: Result<TagControl, TLVError>)
        ensures
            tag_control_byte % 32 == 0 ==> r == Ok::<TagControl, TLVError>(
                TagControl::of_byte(tag_control_byte),
            ),
            tag_control_byte % 32 != 0 ==> r matches Err(TLVError::InvalidTag),
            r matches Ok(c) ==> c.spec_value() == tag_control_byte,
    {
        match tag_control_byte {
            0x00 => Ok(TagControl::Anonymous),
            0x20 => Ok(TagControl::ContextSpecific),
            0x40 => Ok(TagControl::CommonProfile2Bytes),
            0x60 => Ok(TagControl::CommonProfile4Bytes),
            0x80 => Ok(TagControl::ImplicitProfile2Bytes),
            0xA0 => Ok(TagControl::ImplicitProfile4Bytes),
            0xC0 => Ok(TagControl::FullyQualified6Bytes),
            0xE0 => Ok(TagControl::FullyQualified8Bytes),
            _ => Err(TLVError::InvalidTag),
        }
    }
}

#[derive(Debug, PartialEq, Eq, Clone, Copy, Structural)]
pub enum CommonProfileLength {
    TwoOctets { tag_number: u16 },
    FourOctets { tag_number: u32 },
}

#[derive(Debug, PartialEq, Eq, Clone, Copy, Structural)]
pub enum ImplicitProfileLength {
    TwoOctets { tag_number: u16 },
    FourOctets { tag_number: u32 },
}

#[derive(Debug, PartialEq, Eq, Clone, Copy, Structural)]
pub enum FullyQualifiedProfileLength {
    SixOctets { vendor_id: u16, profile_number: u16, tag_number: u16 },
    EightOctets { vendor_id: u16, profile_number: u16, tag_number: u32 },
}

/// An element's tag.
#[derive(Debug, PartialEq, Eq, Clone, Copy, Structural)]
pub enum TLVTag {
    Anonymous,
    ContextSpecific(u8),
    CommonProfile(CommonProfileLength),
    ImplicitProfile(ImplicitProfileLength),
    FullyQualifiedProfile(FullyQualifiedProfileLength),
}

impl TLVTag {
    /// The tag family of this tag.
    pub open spec fn control(self) -> TagControl {
        match self {
            TLVTag::Anonymous => TagControl::Anonymous,
            TLVTag::ContextSpecific(_) => TagControl::ContextSpecific,
            TLVTag::CommonProfile(CommonProfileLength::TwoOctets { .. }) => TagControl::CommonProfile2Bytes,
            TLVTag::CommonProfile(CommonProfileLength::FourOctets { .. }) => TagControl::CommonProfile4Bytes,
            TLVTag::ImplicitProfile(ImplicitProfileLength::TwoOctets { .. }) => TagControl::ImplicitProfile2Bytes,
            TLVTag::ImplicitProfile(ImplicitProfileLength::FourOctets { .. }) => TagControl::ImplicitProfile4Bytes,
            TLVTag::FullyQualifiedProfile(FullyQualifiedProfileLength::SixOctets { .. }) => TagControl::FullyQualified6Bytes,
            TLVTag::FullyQualifiedProfile(FullyQualifiedProfileLength::EightOctets { .. }) => TagControl::FullyQualified8Bytes,
        }
    }

    /// The tag family of this tag.
    pub fn tag_control(&self) -> (r: TagControl)
        ensures
            r == self.control(),
    {
    match self {
        TLVTag::Anonymous => TagControl::Anonymous,
        TLVTag::ContextSpecific(_) => TagControl::ContextSpecific,
        TLVTag::CommonProfile(CommonProfileLength::TwoOctets { .. }) => TagControl::CommonProfile2Bytes,
        TLVTag::CommonProfile(CommonProfileLength::FourOctets { .. }) => TagControl::CommonProfile4Bytes,
        TLVTag::ImplicitProfile(ImplicitProfileLength::TwoOctets { .. }) => TagControl::ImplicitProfile2Bytes,
        TLVTag::ImplicitProfile(ImplicitProfileLength::FourOctets { .. }) => TagControl::ImplicitProfile4Bytes,
        TLVTag::FullyQualifiedProfile(FullyQualifiedProfileLength::SixOctets { .. }) => TagControl::FullyQualified6Bytes,
        TLVTag::FullyQualifiedProfile(FullyQualifiedProfileLength::EightOctets { .. }) => TagControl::FullyQualified8Bytes,
    }
    }

    /// The number of bytes of this tag on the wire.
    pub fn octets_count(&self) -> (r: u8)
        ensures
            r as nat == self.control().spec_octets(),
    {
        match self {
            TLVTag::Anonymous => 0,
            TLVTag::ContextSpecific(_) => 1,
            TLVTag::CommonProfile(profile) => match profile {
                CommonProfileLength::TwoOctets { .. } => 2,
                CommonProfileLength::FourOctets { .. } => 4,
            },
            TLVTag::ImplicitProfile(profile) => match profile {
                ImplicitProfileLength::TwoOctets { .. } => 2,
                ImplicitProfileLength::FourOctets { .. } => 4,
            },
            TLVTag::FullyQualifiedProfile(profile) => match profile {
                FullyQualifiedProfileLength::SixOctets { .. } => 6,
                FullyQualifiedProfileLength::EightOctets { .. } => 8,
            },
        }
    }
}

/// The tag's bytes on the wire: its numbers, little-endian, in field order.
pub open spec fn tag_bytes_spec(tag: TLVTag) -> Seq<u8> {
    match tag {
        TLVTag::Anonymous => Seq::empty(),
        TLVTag::ContextSpecific(n) => le_bytes(n as nat, 1),
        TLVTag::CommonProfile(CommonProfileLength::TwoOctets { tag_number }) => le_bytes(tag_number as nat, 2),
        TLVTag::CommonProfile(CommonProfileLength::FourOctets { tag_number }) => le_bytes(tag_number as nat, 4),
        TLVTag::ImplicitProfile(ImplicitProfileLength::TwoOctets { tag_number }) => le_bytes(tag_number as nat, 2),
        TLVTag::ImplicitProfile(ImplicitProfileLength::FourOctets { tag_number }) => le_bytes(tag_number as nat, 4),
        TLVTag::FullyQualifiedProfile(
            FullyQualifiedProfileLength::SixOctets { vendor_id, profile_number, tag_number },
        ) => le_bytes(vendor_id as nat, 2) + le_bytes(profile_number as nat, 2) + le_bytes(tag_number as nat, 2),
        TLVTag::FullyQualifiedProfile(
            FullyQualifiedProfileLength::EightOctets { vendor_id, profile_number, tag_number },
        ) => le_bytes(vendor_id as nat, 2) + le_bytes(profile_number as nat, 2) + le_bytes(tag_number as nat, 4),
    }
}

/// The tag of family `c` whose bytes are `b` (`b` holds exactly the tag's bytes).
pub open spec fn tag_from_bytes(c: TagControl, b: Seq<u8>) -> TLVTag {
    match c {
        TagControl::Anonymous => TLVTag::Anonymous,
        TagControl::ContextSpecific => TLVTag::ContextSpecific(le_value(b) as u8),
        TagControl::CommonProfile2Bytes => TLVTag::CommonProfile(
            CommonProfileLength::TwoOctets { tag_number: le_value(b) as u16 },
        ),
        TagControl::CommonProfile4Bytes => TLVTag::CommonProfile(
            CommonProfileLength::FourOctets { tag_number: le_value(b) as u32 },
        ),
        TagControl::ImplicitProfile2Bytes => TLVTag::ImplicitProfile(
            ImplicitProfileLength::TwoOctets { tag_number: le_value(b) as u16 },
        ),
        TagControl::ImplicitProfile4Bytes => TLVTag::ImplicitProfile(
            ImplicitProfileLength::FourOctets { tag_number: le_value(b) as u32 },
        ),
        TagControl::FullyQualified6Bytes => TLVTag::FullyQualifiedProfile(
            FullyQualifiedProfileLength::SixOctets {
                vendor_id: le_value(b.subrange(0, 2)) as u16,
                profile_number: le_value(b.subrange(2, 4)) as u16,
                tag_number: le_value(b.subrange(4, 6)) as u16,
            },
        ),
        TagControl::FullyQualified8Bytes => TLVTag::FullyQualifiedProfile(
            FullyQualifiedProfileLength::EightOctets {
                vendor_id: le_value(b.subrange(0, 2)) as u16,
                profile_number: le_value(b.subrange(2, 4)) as u16,
                tag_number: le_value(b.subrange(4, 8)) as u32,
            },
        ),
    }
}

/// Reads the tag of the family whose control-byte value is `tag_control_byte`
/// from the front of `remaining_bytes`, and returns the bytes after it.
pub fn parse_tag(tag_control_byte: u8, remaining_bytes: &[u8]) -> (r: Result<
    (&[u8], TLVTag),
    TLVError,
>)
    ensures
        tag_control_byte % 32 != 0 ==> r matches Err(TLVError::InvalidTag),
        tag_control_byte % 32 == 0 && remaining_bytes@.len() < TagControl::of_byte(
            tag_control_byte,
        ).spec_octets() ==> r matches Err(TLVError::UnderRun),
        tag_control_byte % 32 == 0 && remaining_bytes@.len() >= TagControl::of_byte(
            tag_control_byte,
        ).spec_octets() ==> (r matches Ok((rest, tag)) && tag == tag_from_bytes(
            TagControl::of_byte(tag_control_byte),
            remaining_bytes@.take(TagControl::of_byte(tag_control_byte).spec_octets() as int),
        ) && rest@ == remaining_bytes@.skip(
            TagControl::of_byte(tag_control_byte).spec_octets() as int,
        )),
{
    let tag_control = TagControl::try_from(tag_control_byte)?;
    let ghost b = remaining_bytes@;
    match tag_control {
        TagControl::Anonymous => {
            assert(b.skip(0) =~= b);
            Ok((remaining_bytes, TLVTag::Anonymous))
        },
        TagControl::ContextSpecific => {
            let (rest, tag_number) = parse_u8(remaining_bytes)?;
            Ok((rest, TLVTag::ContextSpecific(tag_number)))
        },
        TagControl::CommonProfile2Bytes => {
            let (rest, tag_number) = parse_u16(remaining_bytes)?;
            Ok((rest, TLVTag::CommonProfile(CommonProfileLength::TwoOctets { tag_number })))
        },
        TagControl::CommonProfile4Bytes => {
            let (rest, tag_number) = parse_u32(remaining_bytes)?;
            Ok((rest, TLVTag::CommonProfile(CommonProfileLength::FourOctets { tag_number })))
        },
        TagControl::ImplicitProfile2Bytes => {
            let (rest, tag_number) = parse_u16(remaining_bytes)?;
            Ok((rest, TLVTag::ImplicitProfile(ImplicitProfileLength::TwoOctets { tag_number })))
        },
        TagControl::ImplicitProfile4Bytes => {
            let (rest, tag_number) = parse_u32(remaining_bytes)?;
            Ok((rest, TLVTag::ImplicitProfile(ImplicitProfileLength::FourOctets { tag_number })))
        },
        TagControl::FullyQualified6Bytes => {
            let (rest, vendor_id) = parse_u16(remaining_bytes)?;
            let (rest, profile_number) = parse_u16(rest)?;
            let (rest, tag_number) = parse_u16(rest)?;
            proof {
                assert(b.take(6).subrange(0, 2) =~= b.take(2));
                assert(b.take(6).subrange(2, 4) =~= b.skip(2).take(2));
                assert(b.take(6).subrange(4, 6) =~= b.skip(2).skip(2).take(2));
                assert(b.skip(2).skip(2).skip(2) =~= b.skip(6));
            }
            Ok(
                (
                    rest,
                    TLVTag::FullyQualifiedProfile(
                        FullyQualifiedProfileLength::SixOctets {
                            vendor_id,
                            profile_number,
                            tag_number,
                        },
                    ),
                ),
            )
        },
        TagControl::FullyQualified8Bytes => {
            let (rest, vendor_id) = parse_u16(remaining_bytes)?;
            let (rest, profile_number) = parse_u16(rest)?;
            let (rest, tag_number) = parse_u32(rest)?;
            proof {
                assert(b.take(8).subrange(0, 2) =~= b.take(2));
                assert(b.take(8).subrange(2, 4) =~= b.skip(2).take(2));
                assert(b.take(8).subrange(4, 8) =~= b.skip(2).skip(2).take(4));
                assert(b.skip(2).skip(2).skip(4) =~= b.skip(8));
            }
            Ok(
                (
                    rest,
                    TLVTag::FullyQualifiedProfile(
                        FullyQualifiedProfileLength::EightOctets {
                            vendor_id,
                            profile_number,
                            tag_number,
                        },
                    ),
                ),
            )
        },
    }
}

/// The tag's bytes on the wire.
pub fn tag_bytes(tag: TLVTag) -> (r: Vec<u8>)
    ensures
        r@ == tag_bytes_spec(tag),
{
    let mut bytes: Vec<u8> = Vec::new();
    match tag {
        TLVTag::Anonymous => {},
        TLVTag::ContextSpecific(tag_number) => push_le(&mut bytes, tag_number as u64, 1),
        TLVTag::CommonProfile(profile_len) => match profile_len {
            CommonProfileLength::TwoOctets { tag_number } => push_le(&mut bytes, tag_number as u64, 2),
            CommonProfileLength::FourOctets { tag_number } => push_le(&mut bytes, tag_number as u64, 4),
        },
        TLVTag::ImplicitProfile(profile_len) => match profile_len {
            ImplicitProfileLength::TwoOctets { tag_number } => push_le(&mut bytes, tag_number as u64, 2),
            ImplicitProfileLength::FourOctets { tag_number } => push_le(&mut bytes, tag_number as u64, 4),
        },
        TLVTag::FullyQualifiedProfile(profile_len) => match profile_len {
            FullyQualifiedProfileLength::SixOctets { vendor_id, profile_number, tag_number } => {
                push_le(&mut bytes, vendor_id as u64, 2);
                push_le(&mut bytes, profile_number as u64, 2);
                push_le(&mut bytes, tag_number as u64, 2);
            },
            FullyQualifiedProfileLength::EightOctets { vendor_id, profile_number, tag_number } => {
                push_le(&mut bytes, vendor_id as u64, 2);
                push_le(&mut bytes, profile_number as u64, 2);
                push_le(&mut bytes, tag_number as u64, 4);
            },
        },
    }
    assert(bytes@ =~= tag_bytes_spec(tag));
    bytes
}

/// A tag's bytes have the length that its family gives, and reading them back
/// in that family gives the tag.
pub proof fn lemma_tag_round_trip(t: TLVTag)
    ensures
        tag_bytes_spec(t).len() == t.control().spec_octets(),
        tag_from_bytes(t.control(), tag_bytes_spec(t)) == t,
{
    lemma_pow256_values();
    match t {
        TLVTag::Anonymous => {},
        TLVTag::ContextSpecific(n) => {
            lemma_le_bytes_len(n as nat, 1);
            lemma_le_value_of_bytes(n as nat, 1);
        },
        TLVTag::CommonProfile(CommonProfileLength::TwoOctets { tag_number }) => {
            lemma_le_bytes_len(tag_number as nat, 2);
            lemma_le_value_of_bytes(tag_number as nat, 2);
        },
        TLVTag::CommonProfile(CommonProfileLength::FourOctets { tag_number }) => {
            lemma_le_bytes_len(tag_number as nat, 4);
            lemma_le_value_of_bytes(tag_number as nat, 4);
        },
        TLVTag::ImplicitProfile(ImplicitProfileLength::TwoOctets { tag_number }) => {
            lemma_le_bytes_len(tag_number as nat, 2);
            lemma_le_value_of_bytes(tag_number as nat, 2);
        },
        TLVTag::ImplicitProfile(ImplicitProfileLength::FourOctets { tag_number }) => {
            lemma_le_bytes_len(tag_number as nat, 4);
            lemma_le_value_of_bytes(tag_number as nat, 4);
        },
        TLVTag::FullyQualifiedProfile(
            FullyQualifiedProfileLength::SixOctets { vendor_id, profile_number, tag_number },
        ) => {
            let (a, b, c) = (
                le_bytes(vendor_id as nat, 2),
                le_bytes(profile_number as nat, 2),
                le_bytes(tag_number as nat, 2),
            );
            lemma_le_bytes_len(vendor_id as nat, 2);
            lemma_le_bytes_len(profile_number as nat, 2);
            lemma_le_bytes_len(tag_number as nat, 2);
            lemma_le_value_of_bytes(vendor_id as nat, 2);
            lemma_le_value_of_bytes(profile_number as nat, 2);
            lemma_le_value_of_bytes(tag_number as nat, 2);
            assert((a + b + c).subrange(0, 2) =~= a);
            assert((a + b + c).subrange(2, 4) =~= b);
            assert((a + b + c).subrange(4, 6) =~= c);
        },
        TLVTag::FullyQualifiedProfile(
            FullyQualifiedProfileLength::EightOctets { vendor_id, profile_number, tag_number },
        ) => {
            let (a, b, c) = (
                le_bytes(vendor_id as nat, 2),
                le_bytes(profile_number as nat, 2),
                le_bytes(tag_number as nat, 4),
            );
            lemma_le_bytes_len(vendor_id as nat, 2);
            lemma_le_bytes_len(profile_number as nat, 2);
            lemma_le_bytes_len(tag_number as nat, 4);
            lemma_le_value_of_bytes(vendor_id as nat, 2);
            lemma_le_value_of_bytes(profile_number as nat, 2);
            lemma_le_value_of_bytes(tag_number as nat, 4);
            assert((a + b + c).subrange(0, 2) =~= a);
            assert((a + b + c).subrange(2, 4) =~= b);
            assert((a + b + c).subrange(4, 8) =~= c);
        },
    }
}

} // verus!
