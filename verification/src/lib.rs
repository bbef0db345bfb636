//! `rshark`, the Rusty Shark library, is a library for deep inspection
//! of possibly-malicious network packets.
//!
//! Dissectors built on this core can make mistakes, but a logic error in
//! the decoder for one protocol layer only affects the interpretation of
//! that layer's data: every field of a composite packet carries its own
//! success-or-error outcome, so a failing field never destroys its
//! siblings and malformed input is never able to crash the process.

pub mod decode;
pub mod dissector;
pub mod error;
pub mod text;
pub mod value;
pub mod wire;

pub use decode::signed;
pub use decode::unsigned;
pub use decode::WireInt;
pub use dissector::Protocol;
pub use dissector::RawBytes;
pub use error::Error;
pub use error::Outcome;
pub use value::NamedValue;
pub use value::Val;
pub use wire::BigEndian;
pub use wire::ByteOrder;
pub use wire::LittleEndian;
