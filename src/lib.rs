//! A codec for a self-describing tag-length-value (TLV) binary encoding.
//!
//! Every element starts with a control byte whose top three bits select the
//! tag family and whose low five bits select the element type. The tag bytes,
//! an optional length field and the value follow. Containers hold nested
//! elements up to a matching end-of-container marker.
pub mod errors;
pub mod laws;
pub mod reader;
pub mod tags;
pub mod types;
pub mod util;
pub mod writer;
