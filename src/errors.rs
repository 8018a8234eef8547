use vstd::prelude::*;

verus! {

/// The errors of decoding and encoding.
#[derive(Debug)]
pub enum TLVError {
    /// The buffer ended before an expected field was complete.
    UnderRun,
    /// The top-level cursor reached the end of a well-formed sequence.
    EndOfTLV,
    /// The tag-control bits name no tag family.
    InvalidTag,
    /// The type code is unassigned, or it is not the type that was asked for.
    InvalidType,
    /// A low-level decode failed: no control byte, or invalid UTF-8.
    ParseError,
    /// The byte sink failed while writing.
    Internal(String),
}

impl PartialEq for TLVError {
    fn eq(&self, other: &TLVError) -> (r: bool) {
        match (self, other) {
            (TLVError::UnderRun, TLVError::UnderRun) => true,
            (TLVError::EndOfTLV, TLVError::EndOfTLV) => true,
            (TLVError::InvalidTag, TLVError::InvalidTag) => true,
            (TLVError::InvalidType, TLVError::InvalidType) => true,
            (TLVError::ParseError, TLVError::ParseError) => true,
            (TLVError::Internal(a), TLVError::Internal(b)) => a.eq(b),
            _ => false,
        }
    }
}

impl vstd::std_specs::cmp::PartialEqSpecImpl for TLVError {
    open spec fn obeys_eq_spec() -> bool {
        true
    }

    open spec fn eq_spec(&self, other: &TLVError) -> bool {
        match (*self, *other) {
            (TLVError::UnderRun, TLVError::UnderRun) => true,
            (TLVError::EndOfTLV, TLVError::EndOfTLV) => true,
            (TLVError::InvalidTag, TLVError::InvalidTag) => true,
            (TLVError::InvalidType, TLVError::InvalidType) => true,
            (TLVError::ParseError, TLVError::ParseError) => true,
            (TLVError::Internal(a), TLVError::Internal(b)) => a@ == b@,
            _ => false,
        }
    }
}

} // verus!
