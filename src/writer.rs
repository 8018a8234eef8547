//! The writer: elements and containers as bytes.
use crate::tags::{tag_bytes, tag_bytes_spec, TLVTag};
use crate::types::{
    length_field_spec, pick_width_spec, ContainerType, ElementType, Float32Bits, Float64Bits,
    TLVPrimitive,
};
use crate::util::push_all;
use vstd::prelude::*;

verus! {

/// The control byte of an element with tag `tag` and type `element_type`.
pub open spec fn control_byte_spec(tag: TLVTag, element_type: ElementType) -> u8 {
    (tag.control().spec_value() + element_type.spec_code()) as u8
}

/// The encoding of one element: control byte, tag, length field and value.
pub open spec fn element_spec(
    tag: TLVTag,
    element_type: ElementType,
    len_bytes: Seq<u8>,
    val_bytes: Seq<u8>,
) -> Seq<u8> {
    seq![control_byte_spec(tag, element_type)] + tag_bytes_spec(tag) + len_bytes + val_bytes
}

/// The encoding of the primitive `value` under `tag`.
pub open spec fn primitive_spec<T: TLVPrimitive>(value: T, tag: TLVTag) -> Seq<u8> {
    element_spec(
        tag,
        T::spec_element_type(value),
        T::spec_length_bytes(value),
        T::spec_value_bytes(value),
    )
}

/// The element type that opens a container of kind `kind`.
pub open spec fn container_element_type(kind: ContainerType) -> ElementType {
    match kind {
        ContainerType::Structure => ElementType::Structure,
        ContainerType::Array => ElementType::Array,
        ContainerType::List => ElementType::List,
    }
}

/// The bytes of an element with the given tag, type, length field and value.
pub fn encode_primitive(
    tag: TLVTag,
    element_type: ElementType,
    len_bytes: &[u8],
    val_bytes: &[u8],
) -> (r: Vec<u8>)
    ensures
        r@ == element_spec(tag, element_type, len_bytes@, val_bytes@),
{
    let mut element: Vec<u8> = Vec::new();
    let tag_control = tag.tag_control().value();
    let tag_bytes = tag_bytes(tag);
    let control_byte = tag_control + element_type.code();
    element.push(control_byte);
    push_all(&mut element, tag_bytes.as_slice());
    push_all(&mut element, len_bytes);
    push_all(&mut element, val_bytes);
    element
}

/// A value that encodes as one element.
pub trait TLVEncode {
    /// The encoding of this value under `tag`.
    spec fn spec_encoding(&self, tag: TLVTag) -> Seq<u8>;

    /// The bytes of this value under `tag`.
    fn encode_tlv_with_tag(&self, tag: TLVTag) -> (r: Vec<u8>)
        ensures
            r@ == self.spec_encoding(tag),
    ;

    /// The bytes of this value with an anonymous tag.
    fn encode_tlv(&self) -> (r: Vec<u8>)
        ensures
            r@ == self.spec_encoding(TLVTag::Anonymous),
    {
        self.encode_tlv_with_tag(TLVTag::Anonymous)
    }
}

impl TLVEncode for i8 {
    open spec fn spec_encoding(&self, tag: TLVTag) -> Seq<u8> {
        primitive_spec(*self, tag)
    }

    fn encode_tlv_with_tag(&self, tag: TLVTag) -> (r: Vec<u8>) {
        let (element_type, len_bytes, val_bytes) = i8::parse_value(*self);
        encode_primitive(tag, element_type, len_bytes.as_slice(), val_bytes.as_slice())
    }
}

impl TLVEncode for i16 {
    open spec fn spec_encoding(&self, tag: TLVTag) -> Seq<u8> {
        primitive_spec(*self, tag)
    }

    fn encode_tlv_with_tag(&self, tag: TLVTag) -> (r: Vec<u8>) {
        let (element_type, len_bytes, val_bytes) = i16::parse_value(*self);
        encode_primitive(tag, element_type, len_bytes.as_slice(), val_bytes.as_slice())
    }
}

impl TLVEncode for i32 {
    open spec fn spec_encoding(&self, tag: TLVTag) -> Seq<u8> {
        primitive_spec(*self, tag)
    }

    fn encode_tlv_with_tag(&self, tag: TLVTag) -> (r: Vec<u8>) {
        let (element_type, len_bytes, val_bytes) = i32::parse_value(*self);
        encode_primitive(tag, element_type, len_bytes.as_slice(), val_bytes.as_slice())
    }
}

impl TLVEncode for i64 {
    open spec fn spec_encoding(&self, tag: TLVTag) -> Seq<u8> {
        primitive_spec(*self, tag)
    }

    fn encode_tlv_with_tag(&self, tag: TLVTag) -> (r: Vec<u8>) {
        let (element_type, len_bytes, val_bytes) = i64::parse_value(*self);
        encode_primitive(tag, element_type, len_bytes.as_slice(), val_bytes.as_slice())
    }
}

impl TLVEncode for u8 {
    open spec fn spec_encoding(&self, tag: TLVTag) -> Seq<u8> {
        primitive_spec(*self, tag)
    }

    fn encode_tlv_with_tag(&self, tag: TLVTag) -> (r: Vec<u8>) {
        let (element_type, len_bytes, val_bytes) = u8::parse_value(*self);
        encode_primitive(tag, element_type, len_bytes.as_slice(), val_bytes.as_slice())
    }
}

impl TLVEncode for u16 {
    open spec fn spec_encoding(&self, tag: TLVTag) -> Seq<u8> {
        primitive_spec(*self, tag)
    }

    fn encode_tlv_with_tag(&self, tag: TLVTag) -> (r: Vec<u8>) {
        let (element_type, len_bytes, val_bytes) = u16::parse_value(*self);
        encode_primitive(tag, element_type, len_bytes.as_slice(), val_bytes.as_slice())
    }
}

impl TLVEncode for u32 {
    open spec fn spec_encoding(&self, tag: TLVTag) -> Seq<u8> {
        primitive_spec(*self, tag)
    }

    fn encode_tlv_with_tag(&self, tag: TLVTag) -> (r: Vec<u8>) {
        let (element_type, len_bytes, val_bytes) = u32::parse_value(*self);
        encode_primitive(tag, element_type, len_bytes.as_slice(), val_bytes.as_slice())
    }
}

impl TLVEncode for u64 {
    open spec fn spec_encoding(&self, tag: TLVTag) -> Seq<u8> {
        primitive_spec(*self, tag)
    }

    fn encode_tlv_with_tag(&self, tag: TLVTag) -> (r: Vec<u8>) {
        let (element_type, len_bytes, val_bytes) = u64::parse_value(*self);
        encode_primitive(tag, element_type, len_bytes.as_slice(), val_bytes.as_slice())
    }
}

impl TLVEncode for Float32Bits {
    open spec fn spec_encoding(&self, tag: TLVTag) -> Seq<u8> {
        primitive_spec(*self, tag)
    }

    fn encode_tlv_with_tag(&self, tag: TLVTag) -> (r: Vec<u8>) {
        let (element_type, len_bytes, val_bytes) = Float32Bits::parse_value(*self);
        encode_primitive(tag, element_type, len_bytes.as_slice(), val_bytes.as_slice())
    }
}

impl TLVEncode for Float64Bits {
    open spec fn spec_encoding(&self, tag: TLVTag) -> Seq<u8> {
        primitive_spec(*self, tag)
    }

    fn encode_tlv_with_tag(&self, tag: TLVTag) -> (r: Vec<u8>) {
        let (element_type, len_bytes, val_bytes) = Float64Bits::parse_value(*self);
        encode_primitive(tag, element_type, len_bytes.as_slice(), val_bytes.as_slice())
    }
}

impl TLVEncode for bool {
    open spec fn spec_encoding(&self, tag: TLVTag) -> Seq<u8> {
        primitive_spec(*self, tag)
    }

    fn encode_tlv_with_tag(&self, tag: TLVTag) -> (r: Vec<u8>) {
        let (element_type, len_bytes, val_bytes) = bool::parse_value(*self);
        encode_primitive(tag, element_type, len_bytes.as_slice(), val_bytes.as_slice())
    }
}

impl TLVEncode for String {
    open spec fn spec_encoding(&self, tag: TLVTag) -> Seq<u8> {
        primitive_spec(*self, tag)
    }

    fn encode_tlv_with_tag(&self, tag: TLVTag) -> (r: Vec<u8>) {
        let (element_type, len_bytes, val_bytes) = String::parse_value(self.clone());
        encode_primitive(tag, element_type, len_bytes.as_slice(), val_bytes.as_slice())
    }
}

impl TLVEncode for Vec<u8> {
    open spec fn spec_encoding(&self, tag: TLVTag) -> Seq<u8> {
        primitive_spec(*self, tag)
    }

    fn encode_tlv_with_tag(&self, tag: TLVTag) -> (r: Vec<u8>) {
        let (element_type, len_bytes, val_bytes) = Vec::<u8>::parse_value(
            vstd::slice::slice_to_vec(self.as_slice()),
        );
        encode_primitive(tag, element_type, len_bytes.as_slice(), val_bytes.as_slice())
    }
}

#[verifier::external_type_specification]
#[verifier::external_body]
pub struct ExBytes(bytes::Bytes);

/// The bytes that a `bytes::Bytes` buffer holds.
pub uninterp spec fn bytes_content(b: bytes::Bytes) -> Seq<u8>;

/// Relies on `<bytes::Bytes as AsRef<[u8]>>::as_ref`: the slice holds the
/// buffer's bytes.
#[verifier::external_body]
fn bytes_as_slice(b: &bytes::Bytes) -> (r: &[u8])
    ensures
        r@ == bytes_content(*b),
{
    b.as_ref()
}

impl TLVEncode for bytes::Bytes {
    open spec fn spec_encoding(&self, tag: TLVTag) -> Seq<u8> {
        element_spec(
            tag,
            ElementType::spec_byte_string(pick_width_spec(bytes_content(*self).len())),
            length_field_spec(bytes_content(*self).len()),
            bytes_content(*self),
        )
    }

    fn encode_tlv_with_tag(&self, tag: TLVTag) -> (r: Vec<u8>) {
        let val_bytes = vstd::slice::slice_to_vec(bytes_as_slice(self));
        let (element_type, len_bytes, val_bytes) = Vec::<u8>::parse_value(val_bytes);
        encode_primitive(tag, element_type, len_bytes.as_slice(), val_bytes.as_slice())
    }
}

/// The bytes of a null element under `tag`.
pub fn encode_null_with_tag(tag: TLVTag) -> (r: Vec<u8>)
    ensures
        r@ == element_spec(tag, ElementType::Null, Seq::empty(), Seq::empty()),
{
    encode_primitive(tag, ElementType::Null, &[], &[])
}

/// The bytes of a null element with an anonymous tag.
pub fn encode_null() -> (r: Vec<u8>)
    ensures
        r@ == element_spec(TLVTag::Anonymous, ElementType::Null, Seq::empty(), Seq::empty()),
{
    encode_null_with_tag(TLVTag::Anonymous)
}

/// An append-only sink of encoded elements.
pub struct TLVWriter {
    bytes: Vec<u8>,
}

impl View for TLVWriter {
    type V = Seq<u8>;

    closed spec fn view(&self) -> Seq<u8> {
        self.bytes@
    }
}

impl TLVWriter {
    /// A writer with nothing written.
    pub fn new() -> (r: TLVWriter)
        ensures
            r@ == Seq::<u8>::empty(),
    {
        TLVWriter { bytes: Vec::new() }
    }

    /// Appends `value` as one element under `tag`.
    pub fn write_with_tag<T: TLVEncode>(&mut self, tag: TLVTag, value: &T)
        ensures
            final(self)@ == old(self)@ + value.spec_encoding(tag),
    {
        let element = value.encode_tlv_with_tag(tag);
        push_all(&mut self.bytes, element.as_slice());
    }

    /// Appends `value` as one element with an anonymous tag.
    pub fn write<T: TLVEncode>(&mut self, value: &T)
        ensures
            final(self)@ == old(self)@ + value.spec_encoding(TLVTag::Anonymous),
    {
        self.write_with_tag(TLVTag::Anonymous, value)
    }

    /// Appends a null element under `tag`.
    pub fn write_null_with_tag(&mut self, tag: TLVTag)
        ensures
            final(self)@ == old(self)@ + element_spec(
                tag,
                ElementType::Null,
                Seq::empty(),
                Seq::empty(),
            ),
    {
        let element = encode_null_with_tag(tag);
        push_all(&mut self.bytes, element.as_slice());
    }

    /// Appends a null element with an anonymous tag.
    pub fn write_null(&mut self)
        ensures
            final(self)@ == old(self)@ + element_spec(
                TLVTag::Anonymous,
                ElementType::Null,
                Seq::empty(),
                Seq::empty(),
            ),
    {
        self.write_null_with_tag(TLVTag::Anonymous)
    }

    /// Appends the control byte and the tag that open a container of kind
    /// `kind`; its members follow, then `close_container`.
    pub fn open_container_with_tag(&mut self, tag: TLVTag, kind: ContainerType)
        ensures
            final(self)@ == old(self)@ + element_spec(
                tag,
                container_element_type(kind),
                Seq::empty(),
                Seq::empty(),
            ),
    {
        let element_type = match kind {
            ContainerType::Structure => ElementType::Structure,
            ContainerType::Array => ElementType::Array,
            ContainerType::List => ElementType::List,
        };
        let element = encode_primitive(tag, element_type, &[], &[]);
        push_all(&mut self.bytes, element.as_slice());
    }

    /// Opens a container of kind `kind` with an anonymous tag.
    pub fn open_container(&mut self, kind: ContainerType)
        ensures
            final(self)@ == old(self)@ + element_spec(
                TLVTag::Anonymous,
                container_element_type(kind),
                Seq::empty(),
                Seq::empty(),
            ),
    {
        self.open_container_with_tag(TLVTag::Anonymous, kind)
    }

    /// Appends the end-of-container marker, which is always anonymous.
    pub fn close_container(&mut self)
        ensures
            final(self)@ == old(self)@ + seq![0x18u8],
    {
        self.bytes.push(0x18);
    }

    /// The bytes written so far.
    pub fn as_bytes(&self) -> (r: &[u8])
        ensures
            r@ == self@,
    {
        self.bytes.as_slice()
    }

    /// The bytes written, handed over.
    pub fn into_bytes(self) -> (r: Vec<u8>)
        ensures
            r@ == self@,
    {
        self.bytes
    }
}

} // verus!
