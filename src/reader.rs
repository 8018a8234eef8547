//! The reader: a cursor over a byte buffer that decodes the element at the
//! cursor, moves past elements, and enters containers.
use crate::errors::TLVError;
use crate::tags::{parse_tag, tag_from_bytes, TLVTag, TagControl};
use crate::types::{ElementType, PrimitiveLengthType, SpecifiedLenPrimitive, TLVFieldSize, TLVType};
use crate::util::{
    le_value, lemma_le_value_bound, lemma_pow256_values, parse_str, pow256, read_le, signed_value,
    to_signed,
};
use vstd::prelude::*;
use vstd::utf8::{decode_utf8, valid_utf8};

verus! {

/// The element type whose code is `code` (meaningful for codes up to 0x18).
pub open spec fn element_type_of_code(code: u8) -> ElementType {
    choose|e: ElementType| e.spec_code() == code
}

/// The header of the element that starts at `i` of `s`: its tag, its kind,
/// and the position after the control byte and the tag.
pub open spec fn header_at(s: Seq<u8>, i: int) -> Result<(TLVTag, TLVType, int), TLVError> {
    if i < 0 || i >= s.len() {
        Err(TLVError::ParseError)
    } else {
        let c = TagControl::of_byte(s[i]);
        let j = i + 1 + c.spec_octets();
        if j > s.len() {
            Err(TLVError::UnderRun)
        } else if s[i] % 32 > 0x18 {
            Err(TLVError::InvalidType)
        } else {
            Ok(
                (
                    tag_from_bytes(c, s.subrange(i + 1, j)),
                    TLVType::spec_from(element_type_of_code((s[i] % 32) as u8)),
                    j,
                ),
            )
        }
    }
}

/// The position after the length field and value of a primitive of kind `ty`
/// whose header ends at `j`; it may lie past the end of `s`. An
/// end-of-container marker has neither.
pub open spec fn value_end(s: Seq<u8>, ty: TLVType, j: int) -> Result<int, TLVError> {
    match ty {
        TLVType::Primitive(PrimitiveLengthType::Predetermined(p)) => Ok(j + p.spec_value_octets()),
        TLVType::Primitive(PrimitiveLengthType::Specified(sp)) => {
            let w = sp.spec_field_size().spec_octets();
            if j + w > s.len() {
                Err(TLVError::UnderRun)
            } else {
                Ok(j + w + le_value(s.subrange(j, j + w)))
            }
        },
        _ => Ok(j),
    }
}

/// Scans the members of a container from `i`, at nesting depth `depth`, for
/// the end-of-container marker that closes depth one: its start and end.
pub open spec fn container_end(s: Seq<u8>, i: int, depth: nat) -> Result<(int, int), TLVError>
    decreases s.len() - i,
{
    if i < 0 || i >= s.len() {
        Err(TLVError::UnderRun)
    } else {
        match header_at(s, i) {
            Err(e) => Err(e),
            Ok((_, ty, j)) => match ty {
                TLVType::EndOfContainer => if depth <= 1 {
                    Ok((i, j))
                } else {
                    container_end(s, j, (depth - 1) as nat)
                },
                TLVType::Container(_) => container_end(s, j, depth + 1),
                TLVType::Primitive(_) => match value_end(s, ty, j) {
                    Err(e) => Err(e),
                    Ok(k) => if k > s.len() {
                        Err(TLVError::UnderRun)
                    } else {
                        container_end(s, k, depth)
                    },
                },
            },
        }
    }
}

/// The position after the whole element that starts at `i`: for a container,
/// after its matching end-of-container marker. It may lie past the end of `s`.
pub open spec fn element_end(s: Seq<u8>, i: int) -> Result<int, TLVError> {
    match header_at(s, i) {
        Err(e) => Err(e),
        Ok((_, ty, j)) => match ty {
            TLVType::Container(_) => match container_end(s, j, 1) {
                Err(e) => Err(e),
                Ok((_, k)) => Ok(k),
            },
            _ => value_end(s, ty, j),
        },
    }
}

/// Where the cursor goes from `i`: the next element, or the end of the
/// sequence (`EndOfTLV`), or past the buffer (`UnderRun`).
pub open spec fn next_position(s: Seq<u8>, i: int) -> Result<int, TLVError> {
    match element_end(s, i) {
        Err(e) => Err(e),
        Ok(k) => if k > s.len() {
            Err(TLVError::UnderRun)
        } else if k == s.len() {
            Err(TLVError::EndOfTLV)
        } else {
            Ok(k)
        },
    }
}

/// The number of value bytes of a predetermined-length kind.
pub open spec fn fixed_width(ty: TLVType) -> nat {
    match ty {
        TLVType::Primitive(PrimitiveLengthType::Predetermined(p)) => p.spec_value_octets(),
        _ => 0,
    }
}

/// The unsigned value of the element at `i`, which must be of type
/// `element_type`, a predetermined-length primitive.
pub open spec fn fixed_value_at(s: Seq<u8>, i: int, element_type: ElementType) -> Result<
    nat,
    TLVError,
> {
    match header_at(s, i) {
        Err(e) => Err(e),
        Ok((_, ty, j)) => if ty != TLVType::spec_from(element_type) {
            Err(TLVError::InvalidType)
        } else if j + fixed_width(ty) > s.len() {
            Err(TLVError::UnderRun)
        } else {
            Ok(le_value(s.subrange(j, j + fixed_width(ty))))
        },
    }
}

/// The length-field width of a string kind: UTF-8 strings when `utf8`, byte
/// strings otherwise.
pub open spec fn string_field_size(ty: TLVType, utf8: bool) -> Option<TLVFieldSize> {
    match ty {
        TLVType::Primitive(
            PrimitiveLengthType::Specified(SpecifiedLenPrimitive::UTF8String(l)),
        ) => if utf8 {
            Some(l.spec_field_size())
        } else {
            None
        },
        TLVType::Primitive(
            PrimitiveLengthType::Specified(SpecifiedLenPrimitive::ByteString(l)),
        ) => if utf8 {
            None
        } else {
            Some(l.spec_field_size())
        },
        _ => None,
    }
}

/// The payload of the string element at `i`.
pub open spec fn string_payload_at(s: Seq<u8>, i: int, utf8: bool) -> Result<Seq<u8>, TLVError> {
    match header_at(s, i) {
        Err(e) => Err(e),
        Ok((_, ty, j)) => match string_field_size(ty, utf8) {
            None => Err(TLVError::InvalidType),
            Some(f) => {
                let w = f.spec_octets();
                if j + w > s.len() {
                    Err(TLVError::UnderRun)
                } else {
                    let len = le_value(s.subrange(j, j + w));
                    if j + w + len > s.len() {
                        Err(TLVError::UnderRun)
                    } else {
                        Ok(s.subrange(j + w, j + w + len))
                    }
                }
            },
        },
    }
}

/// The text of the UTF-8 string element at `i`.
pub open spec fn text_at(s: Seq<u8>, i: int) -> Result<Seq<char>, TLVError> {
    match string_payload_at(s, i, true) {
        Err(e) => Err(e),
        Ok(p) => if valid_utf8(p) {
            Ok(decode_utf8(p))
        } else {
            Err(TLVError::ParseError)
        },
    }
}

/// Decodes the header of the element at `i`; returns the position after it.
fn header_at_exec(bytes: &[u8], i: usize) -> (r: Result<(usize, TLVTag, TLVType), TLVError>)
    ensures
        match header_at(bytes@, i as int) {
            Ok((t, ty, j)) => r matches Ok((jj, tt, tyy)) && jj == j && tt == t && tyy == ty,
            Err(e) => r == Err::<(usize, TLVTag, TLVType), TLVError>(e),
        },
        r matches Ok((j, _, _)) ==> i < j <= bytes@.len(),
{
    if i >= bytes.len() {
        return Err(TLVError::ParseError);
    }
    let b = bytes[i];
    let rest = vstd::slice::slice_subrange(bytes, i + 1, bytes.len());
    let tag_control_byte = (b / 32) * 32;
    assert(tag_control_byte / 32 == b / 32);
    assert(TagControl::of_byte(tag_control_byte) == TagControl::of_byte(b));
    let (after_tag, tag) = parse_tag(tag_control_byte, rest)?;
    let ghost n = TagControl::of_byte(b).spec_octets();
    assert(rest@.take(n as int) =~= bytes@.subrange(i + 1, i + 1 + n));
    let tlv_type = TLVReader::tlv_type(b % 32)?;
    Ok((bytes.len() - after_tag.len(), tag, tlv_type))
}

/// The position after the length field and value of a primitive of kind `ty`
/// whose header ends at `j`; `UnderRun` when that lies past the buffer.
fn value_end_exec(bytes: &[u8], ty: TLVType, j: usize) -> (r: Result<usize, TLVError>)
    requires
        j <= bytes@.len(),
    ensures
        match value_end(bytes@, ty, j as int) {
            Ok(k) => if k > bytes@.len() {
                r matches Err(TLVError::UnderRun)
            } else {
                r matches Ok(kk) && kk == k
            },
            Err(e) => r == Err::<usize, TLVError>(e),
        },
        r matches Ok(k) ==> j <= k <= bytes@.len(),
{
    match ty {
        TLVType::Primitive(primitive_length_type) => {
            let rest = vstd::slice::slice_subrange(bytes, j, bytes.len());
            let (after_len, _, value_octets_count) = TLVReader::parse_primitive_len(
                primitive_length_type,
                rest,
            )?;
            proof {
                match primitive_length_type {
                    PrimitiveLengthType::Specified(sp) => {
                        let w = sp.spec_field_size().spec_octets() as int;
                        if rest@.len() >= w {
                            assert(rest@.take(w) =~= bytes@.subrange(j as int, j + w));
                        }
                    },
                    _ => {},
                }
            }
            if value_octets_count > after_len.len() as u64 {
                Err(TLVError::UnderRun)
            } else {
                Ok(bytes.len() - after_len.len() + value_octets_count as usize)
            }
        },
        _ => Ok(j),
    }
}

/// Scans the members of a container from `start` for its matching
/// end-of-container marker: its start and end.
fn scan_container(bytes: &[u8], start: usize) -> (r: Result<(usize, usize), TLVError>)
    requires
        1 <= start <= bytes@.len(),
    ensures
        match container_end(bytes@, start as int, 1) {
            Ok((a, b)) => r matches Ok((aa, bb)) && aa == a && bb == b && start <= a < b
                <= bytes@.len(),
            Err(e) => r == Err::<(usize, usize), TLVError>(e),
        },
{
    let mut i: usize = start;
    let mut depth: usize = 1;
    loop
        invariant
            1 <= start <= i <= bytes@.len(),
            1 <= depth <= i - start + 1,
            container_end(bytes@, i as int, depth as nat) == container_end(bytes@, start as int, 1),
        decreases bytes@.len() - i,
    {
        if i >= bytes.len() {
            return Err(TLVError::UnderRun);
        }
        let (j, _, tlv_type) = header_at_exec(bytes, i)?;
        match tlv_type {
            TLVType::EndOfContainer => {
                if depth == 1 {
                    return Ok((i, j));
                }
                depth = depth - 1;
                i = j;
            },
            TLVType::Container(_) => {
                depth = depth + 1;
                i = j;
            },
            TLVType::Primitive(_) => {
                let k = value_end_exec(bytes, tlv_type, j)?;
                i = k;
            },
        }
    }
}

/// The position after the whole element at `i`; `UnderRun` when that lies
/// past the buffer.
fn element_end_exec(bytes: &[u8], i: usize) -> (r: Result<usize, TLVError>)
    ensures
        match element_end(bytes@, i as int) {
            Ok(k) => if k > bytes@.len() {
                r matches Err(TLVError::UnderRun)
            } else {
                r matches Ok(kk) && kk == k
            },
            Err(e) => r == Err::<usize, TLVError>(e),
        },
        r matches Ok(k) ==> i < k <= bytes@.len(),
{
    let (j, _, tlv_type) = header_at_exec(bytes, i)?;
    match tlv_type {
        TLVType::Container(_) => {
            let (_, k) = scan_container(bytes, j)?;
            Ok(k)
        },
        _ => value_end_exec(bytes, tlv_type, j),
    }
}

/// A cursor over a buffer of encoded elements.
pub struct TLVReader {
    bytes: Vec<u8>,
    bytes_read: usize,
}

impl TLVReader {
    #[verifier::type_invariant]
    spec fn inv(&self) -> bool {
        self.bytes_read <= self.bytes@.len()
    }

    /// The buffer.
    pub closed spec fn spec_bytes(&self) -> Seq<u8> {
        self.bytes@
    }

    /// The cursor: the position of the current element in the buffer.
    pub closed spec fn spec_pos(&self) -> int {
        self.bytes_read as int
    }

    /// A reader over a copy of `bytes`, at the first element.
    pub fn new(bytes: &[u8]) -> (r: TLVReader)
        ensures
            r.spec_bytes() == bytes@,
            r.spec_pos() == 0,
    {
        TLVReader { bytes: vstd::slice::slice_to_vec(bytes), bytes_read: 0 }
    }

    /// The bytes from the cursor to the end of the buffer.
    pub fn current_element(&self) -> (r: &[u8])
        ensures
            r@ == self.spec_bytes().subrange(self.spec_pos(), self.spec_bytes().len() as int),
    {
        proof {
            use_type_invariant(self);
        }
        vstd::slice::slice_subrange(self.bytes.as_slice(), self.bytes_read, self.bytes.len())
    }

    /// The tag-control bits and the type code of the control byte at the
    /// cursor, and the bytes after it.
    pub fn parse_control_byte(&self) -> (r: Result<(&[u8], (u8, u8)), TLVError>)
        ensures
            self.spec_pos() >= self.spec_bytes().len() ==> r matches Err(TLVError::ParseError),
            self.spec_pos() < self.spec_bytes().len() ==> (r matches Ok((rest, (tag_control, element_type)))
                && tag_control == self.spec_bytes()[self.spec_pos()] / 32
                && element_type == self.spec_bytes()[self.spec_pos()] % 32
                && rest@ == self.spec_bytes().subrange(self.spec_pos() + 1, self.spec_bytes().len() as int)),
    {
        proof {
            use_type_invariant(self);
        }
        let current = self.current_element();
        if current.len() == 0 {
            return Err(TLVError::ParseError);
        }
        let b = current[0];
        Ok((vstd::slice::slice_subrange(current, 1, current.len()), (b / 32, b % 32)))
    }

    /// The control byte at the cursor split into its tag-control bits, three
    /// further bits and two low bits, and the bytes after it.
    pub fn parse_control_byte_with_field_size(&self) -> (r: Result<(&[u8], (u8, u8, u8)), TLVError>)
        ensures
            self.spec_pos() >= self.spec_bytes().len() ==> r matches Err(TLVError::ParseError),
            self.spec_pos() < self.spec_bytes().len() ==> (r matches Ok((rest, (tag_control, middle, low)))
                && tag_control == self.spec_bytes()[self.spec_pos()] / 32
                && middle == (self.spec_bytes()[self.spec_pos()] / 4) % 8
                && low == self.spec_bytes()[self.spec_pos()] % 4
                && rest@ == self.spec_bytes().subrange(self.spec_pos() + 1, self.spec_bytes().len() as int)),
    {
        proof {
            use_type_invariant(self);
        }
        let current = self.current_element();
        if current.len() == 0 {
            return Err(TLVError::ParseError);
        }
        let b = current[0];
        Ok((vstd::slice::slice_subrange(current, 1, current.len()), (b / 32, (b / 4) % 8, b % 4)))
    }

    /// The kind that the type code `element_type_byte` stands for.
    pub fn tlv_type(element_type_byte: u8) -> (r: Result<TLVType, TLVError>)
        ensures
            element_type_byte > 0x18 ==> r matches Err(TLVError::InvalidType),
            element_type_byte <= 0x18 ==> r == Ok::<TLVType, TLVError>(
                TLVType::spec_from(element_type_of_code(element_type_byte)),
            ),
    {
        let element_type = ElementType::try_from(element_type_byte)?;
        proof {
            let c = element_type_of_code(element_type_byte);
            assert(c.spec_code() == element_type_byte);
            crate::types::lemma_code_injective(c, element_type);
        }
        Ok(TLVType::from_element_type(element_type))
    }

    /// The tag and the kind of the element at the cursor, and the bytes after
    /// its tag.
    pub fn parse_control(&self) -> (r: Result<(&[u8], TLVTag, TLVType), TLVError>)
        ensures
            match header_at(self.spec_bytes(), self.spec_pos()) {
                Ok((t, ty, j)) => (r matches Ok((rest, tag, tlv_type)) && tag == t && tlv_type == ty
                    && rest@ == self.spec_bytes().subrange(j, self.spec_bytes().len() as int)),
                Err(e) => r == Err::<(&[u8], TLVTag, TLVType), TLVError>(e),
            },
    {
        proof {
            use_type_invariant(self);
        }
        let (j, tag, tlv_type) = header_at_exec(self.bytes.as_slice(), self.bytes_read)?;
        Ok((vstd::slice::slice_subrange(self.bytes.as_slice(), j, self.bytes.len()), tag, tlv_type))
    }

    /// The tag of the element at the cursor.
    pub fn read_tag(&self) -> (r: Result<TLVTag, TLVError>)
        ensures
            match header_at(self.spec_bytes(), self.spec_pos()) {
                Ok((t, _, _)) => r == Ok::<TLVTag, TLVError>(t),
                Err(e) => r == Err::<TLVTag, TLVError>(e),
            },
    {
        let (_, tlv_tag, _) = self.parse_control()?;
        Ok(tlv_tag)
    }

    /// The unsigned value of the element at the cursor, which must be of type
    /// `element_type`, a predetermined-length primitive.
    fn read_fixed(&self, element_type: ElementType) -> (r: Result<u64, TLVError>)
        ensures
            match fixed_value_at(self.spec_bytes(), self.spec_pos(), element_type) {
                Ok(v) => r == Ok::<u64, TLVError>(v as u64) && v < pow256(fixed_width(TLVType::spec_from(element_type))),
                Err(e) => r == Err::<u64, TLVError>(e),
            },
            fixed_width(TLVType::spec_from(element_type)) <= 8,
    {
        let (remaining_bytes, _, tlv_type) = self.parse_control()?;
        if tlv_type != TLVType::from_element_type(element_type) {
            return Err(TLVError::InvalidType);
        }
        let width: usize = match tlv_type {
            TLVType::Primitive(PrimitiveLengthType::Predetermined(p)) => p.value_octets_count(),
            _ => 0,
        };
        if width > remaining_bytes.len() {
            return Err(TLVError::UnderRun);
        }
        let v = read_le(remaining_bytes, 0, width);
        proof {
            let s = self.spec_bytes();
            let j = s.len() - remaining_bytes@.len();
            assert(remaining_bytes@.subrange(0, width as int) =~= s.subrange(j, j + width));
            lemma_le_value_bound(s.subrange(j, j + width));
        }
        Ok(v)
    }

    /// The value of the unsigned 8-bit integer element at the cursor.
    pub fn read_u8(&self) -> (r: Result<u8, TLVError>)
        ensures
            match fixed_value_at(self.spec_bytes(), self.spec_pos(), ElementType::UInt8) {
                Ok(v) => r == Ok::<u8, TLVError>(v as u8),
                Err(e) => r == Err::<u8, TLVError>(e),
            },
    {
        let v = self.read_fixed(ElementType::UInt8)?;
        proof {
            lemma_pow256_values();
        }
        Ok(v as u8)
    }

    /// The value of the unsigned 16-bit integer element at the cursor.
    pub fn read_u16(&self) -> (r: Result<u16, TLVError>)
        ensures
            match fixed_value_at(self.spec_bytes(), self.spec_pos(), ElementType::UInt16) {
                Ok(v) => r == Ok::<u16, TLVError>(v as u16),
                Err(e) => r == Err::<u16, TLVError>(e),
            },
    {
        let v = self.read_fixed(ElementType::UInt16)?;
        proof {
            lemma_pow256_values();
        }
        Ok(v as u16)
    }

    /// The value of the unsigned 32-bit integer element at the cursor.
    pub fn read_u32(&self) -> (r: Result<u32, TLVError>)
        ensures
            match fixed_value_at(self.spec_bytes(), self.spec_pos(), ElementType::UInt32) {
                Ok(v) => r == Ok::<u32, TLVError>(v as u32),
                Err(e) => r == Err::<u32, TLVError>(e),
            },
    {
        let v = self.read_fixed(ElementType::UInt32)?;
        proof {
            lemma_pow256_values();
        }
        Ok(v as u32)
    }

    /// The value of the unsigned 64-bit integer element at the cursor.
    pub fn read_u64(&self) -> (r: Result<u64, TLVError>)
        ensures
            match fixed_value_at(self.spec_bytes(), self.spec_pos(), ElementType::UInt64) {
                Ok(v) => r == Ok::<u64, TLVError>(v as u64),
                Err(e) => r == Err::<u64, TLVError>(e),
            },
    {
        let v = self.read_fixed(ElementType::UInt64)?;
        proof {
            lemma_pow256_values();
        }
        Ok(v as u64)
    }

    /// The value of the signed 8-bit integer element at the cursor.
    pub fn read_i8(&self) -> (r: Result<i8, TLVError>)
        ensures
            match fixed_value_at(self.spec_bytes(), self.spec_pos(), ElementType::Int8) {
                Ok(v) => r == Ok::<i8, TLVError>(signed_value(v, 1) as i8),
                Err(e) => r == Err::<i8, TLVError>(e),
            },
    {
        let v = self.read_fixed(ElementType::Int8)?;
        proof {
            lemma_pow256_values();
        }
        Ok(to_signed(v, 1) as i8)
    }

    /// The value of the signed 16-bit integer element at the cursor.
    pub fn read_i16(&self) -> (r: Result<i16, TLVError>)
        ensures
            match fixed_value_at(self.spec_bytes(), self.spec_pos(), ElementType::Int16) {
                Ok(v) => r == Ok::<i16, TLVError>(signed_value(v, 2) as i16),
                Err(e) => r == Err::<i16, TLVError>(e),
            },
    {
        let v = self.read_fixed(ElementType::Int16)?;
        proof {
            lemma_pow256_values();
        }
        Ok(to_signed(v, 2) as i16)
    }

    /// The value of the signed 32-bit integer element at the cursor.
    pub fn read_i32(&self) -> (r: Result<i32, TLVError>)
        ensures
            match fixed_value_at(self.spec_bytes(), self.spec_pos(), ElementType::Int32) {
                Ok(v) => r == Ok::<i32, TLVError>(signed_value(v, 4) as i32),
                Err(e) => r == Err::<i32, TLVError>(e),
            },
    {
        let v = self.read_fixed(ElementType::Int32)?;
        proof {
            lemma_pow256_values();
        }
        Ok(to_signed(v, 4) as i32)
    }

    /// The value of the signed 64-bit integer element at the cursor.
    pub fn read_i64(&self) -> (r: Result<i64, TLVError>)
        ensures
            match fixed_value_at(self.spec_bytes(), self.spec_pos(), ElementType::Int64) {
                Ok(v) => r == Ok::<i64, TLVError>(signed_value(v, 8) as i64),
                Err(e) => r == Err::<i64, TLVError>(e),
            },
    {
        let v = self.read_fixed(ElementType::Int64)?;
        proof {
            lemma_pow256_values();
        }
        Ok(to_signed(v, 8) as i64)
    }

    /// The bit pattern of the single precision floating point element at the cursor.
    pub fn read_f32_bits(&self) -> (r: Result<u32, TLVError>)
        ensures
            match fixed_value_at(self.spec_bytes(), self.spec_pos(), ElementType::FloatingPointNumber32) {
                Ok(v) => r == Ok::<u32, TLVError>(v as u32),
                Err(e) => r == Err::<u32, TLVError>(e),
            },
    {
        let v = self.read_fixed(ElementType::FloatingPointNumber32)?;
        proof {
            lemma_pow256_values();
        }
        Ok(v as u32)
    }

    /// The bit pattern of the double precision floating point element at the cursor.
    pub fn read_f64_bits(&self) -> (r: Result<u64, TLVError>)
        ensures
            match fixed_value_at(self.spec_bytes(), self.spec_pos(), ElementType::FloatingPointNumber64) {
                Ok(v) => r == Ok::<u64, TLVError>(v as u64),
                Err(e) => r == Err::<u64, TLVError>(e),
            },
    {
        let v = self.read_fixed(ElementType::FloatingPointNumber64)?;
        proof {
            lemma_pow256_values();
        }
        Ok(v as u64)
    }

    /// The value of the boolean element at the cursor.
    pub fn read_bool(&self) -> (r: Result<bool, TLVError>)
        ensures
            match header_at(self.spec_bytes(), self.spec_pos()) {
                Ok((_, ty, _)) => if ty == TLVType::spec_from(ElementType::BooleanTrue) {
                    r == Ok::<bool, TLVError>(true)
                } else if ty == TLVType::spec_from(ElementType::BooleanFalse) {
                    r == Ok::<bool, TLVError>(false)
                } else {
                    r matches Err(TLVError::InvalidType)
                },
                Err(e) => r == Err::<bool, TLVError>(e),
            },
    {
        let (_, _, tlv_type) = self.parse_control()?;
        if tlv_type == TLVType::from_element_type(ElementType::BooleanTrue) {
            Ok(true)
        } else if tlv_type == TLVType::from_element_type(ElementType::BooleanFalse) {
            Ok(false)
        } else {
            Err(TLVError::InvalidType)
        }
    }

    /// Succeeds when the element at the cursor is null.
    pub fn read_null(&self) -> (r: Result<(), TLVError>)
        ensures
            match header_at(self.spec_bytes(), self.spec_pos()) {
                Ok((_, ty, _)) => if ty == TLVType::spec_from(ElementType::Null) {
                    r is Ok
                } else {
                    r matches Err(TLVError::InvalidType)
                },
                Err(e) => r == Err::<(), TLVError>(e),
            },
    {
        let (_, _, tlv_type) = self.parse_control()?;
        if tlv_type == TLVType::from_element_type(ElementType::Null) {
            Ok(())
        } else {
            Err(TLVError::InvalidType)
        }
    }

    /// The payload of the string element at the cursor.
    fn read_payload(&self, utf8: bool) -> (r: Result<&[u8], TLVError>)
        ensures
            match string_payload_at(self.spec_bytes(), self.spec_pos(), utf8) {
                Ok(p) => r matches Ok(v) && v@ == p,
                Err(e) => r == Err::<&[u8], TLVError>(e),
            },
    {
        let (remaining_bytes, _, tlv_type) = self.parse_control()?;
        let field_size = match tlv_type {
            TLVType::Primitive(
                PrimitiveLengthType::Specified(SpecifiedLenPrimitive::UTF8String(string)),
            ) => {
                if !utf8 {
                    return Err(TLVError::InvalidType);
                }
                string.length_field_size()
            },
            TLVType::Primitive(
                PrimitiveLengthType::Specified(SpecifiedLenPrimitive::ByteString(string)),
            ) => {
                if utf8 {
                    return Err(TLVError::InvalidType);
                }
                string.length_field_size()
            },
            _ => return Err(TLVError::InvalidType),
        };
        proof {
            let s = self.spec_bytes();
            let j = s.len() - remaining_bytes@.len();
            let w = field_size.spec_octets() as int;
            if remaining_bytes@.len() >= w {
                assert(remaining_bytes@.take(w) =~= s.subrange(j, j + w));
                let len = le_value(s.subrange(j, j + w));
                if remaining_bytes@.len() >= w + len {
                    assert(remaining_bytes@.subrange(w, w + len) =~= s.subrange(j + w, j + w + len));
                }
            }
        }
        field_size.extract_field_sized_bytes(remaining_bytes)
    }

    /// The bytes of the byte string element at the cursor.
    pub fn read_byte_str(&self) -> (r: Result<Vec<u8>, TLVError>)
        ensures
            match string_payload_at(self.spec_bytes(), self.spec_pos(), false) {
                Ok(p) => r matches Ok(v) && v@ == p,
                Err(e) => r == Err::<Vec<u8>, TLVError>(e),
            },
    {
        let value = self.read_payload(false)?;
        Ok(vstd::slice::slice_to_vec(value))
    }

    /// The text of the UTF-8 string element at the cursor.
    pub fn read_char_str(&self) -> (r: Result<String, TLVError>)
        ensures
            match text_at(self.spec_bytes(), self.spec_pos()) {
                Ok(t) => r matches Ok(v) && v@ == t,
                Err(e) => r == Err::<String, TLVError>(e),
            },
    {
        let value = self.read_payload(true)?;
        let text = parse_str(value)?;
        Ok(text.to_owned())
    }

    /// For a primitive of kind `primitive_length_type` whose header precedes
    /// `remaining_bytes`: the bytes after its length field, the width of the
    /// length field, and the number of value bytes.
    pub fn parse_primitive_len(
        primitive_length_type: PrimitiveLengthType,
        remaining_bytes: &[u8],
    ) -> (r: Result<(&[u8], usize, u64), TLVError>)
        ensures
            match primitive_length_type {
                PrimitiveLengthType::Predetermined(p) => r matches Ok((rest, w, n)) && rest@
                    == remaining_bytes@ && w == 0 && n == p.spec_value_octets(),
                PrimitiveLengthType::Specified(sp) => {
                    let w = sp.spec_field_size().spec_octets();
                    if remaining_bytes@.len() < w {
                        r matches Err(TLVError::UnderRun)
                    } else {
                        r matches Ok((rest, fw, n)) && rest@ == remaining_bytes@.skip(w as int)
                            && fw == w && n == le_value(remaining_bytes@.take(w as int))
                    }
                },
            },
    {
        match primitive_length_type {
            PrimitiveLengthType::Predetermined(predetermined_len_type) => Ok(
                (remaining_bytes, 0, predetermined_len_type.value_octets_count() as u64),
            ),
            PrimitiveLengthType::Specified(specified_len_type) => {
                let len_field_size = specified_len_type.length_field_size();
                let (remaining_bytes, value_octets_count) = len_field_size.parse_field_size(
                    remaining_bytes,
                )?;
                Ok((remaining_bytes, len_field_size.octets(), value_octets_count))
            },
        }
    }

    /// Moves the cursor past the element at the cursor, a container with all
    /// its members. At the end of the buffer the cursor stays and the result
    /// is `EndOfTLV`; past it, `UnderRun`.
    pub fn next(&mut self) -> (r: Result<(), TLVError>)
        ensures
            final(self).spec_bytes() == old(self).spec_bytes(),
            match next_position(old(self).spec_bytes(), old(self).spec_pos()) {
                Ok(k) => r is Ok && final(self).spec_pos() == k,
                Err(e) => r == Err::<(), TLVError>(e) && final(self).spec_pos() == old(
                    self,
                ).spec_pos(),
            },
    {
        proof {
            use_type_invariant(&*self);
        }
        let next_element = element_end_exec(self.bytes.as_slice(), self.bytes_read)?;
        if next_element == self.bytes.len() {
            Err(TLVError::EndOfTLV)
        } else {
            self.bytes_read = next_element;
            Ok(())
        }
    }

    /// A reader over the members of the container at the cursor, followed by
    /// its end-of-container marker, positioned at the first member.
    pub fn enter_container(&self) -> (r: Result<TLVReader, TLVError>)
        ensures
            match header_at(self.spec_bytes(), self.spec_pos()) {
                Ok((_, ty, j)) => if ty is Container {
                    match container_end(self.spec_bytes(), j, 1) {
                        Ok((_, k)) => r matches Ok(inner) && inner.spec_bytes()
                            == self.spec_bytes().subrange(j, k) && inner.spec_pos() == 0,
                        Err(e) => r == Err::<TLVReader, TLVError>(e),
                    }
                } else {
                    r matches Err(TLVError::InvalidType)
                },
                Err(e) => r == Err::<TLVReader, TLVError>(e),
            },
    {
        proof {
            use_type_invariant(self);
        }
        let bytes = self.bytes.as_slice();
        let (j, _, tlv_type) = header_at_exec(bytes, self.bytes_read)?;
        match tlv_type {
            TLVType::Container(_) => {
                let (_, k) = scan_container(bytes, j)?;
                Ok(TLVReader::new(vstd::slice::slice_subrange(bytes, j, k)))
            },
            _ => Err(TLVError::InvalidType),
        }
    }

    /// Whether the control byte at the cursor is an end-of-container marker.
    pub fn is_end_of_container(&self) -> (r: bool)
        ensures
            r == (self.spec_pos() < self.spec_bytes().len() && self.spec_bytes()[self.spec_pos()]
                % 32 == 0x18),
    {
        proof {
            use_type_invariant(self);
        }
        self.bytes_read < self.bytes.len() && self.bytes[self.bytes_read] % 32 == 0x18
    }
}

} // verus!
