//! Decoder for AIS binary messages carried in six-bit-armored NMEA sentences.
//!
//! Every decoded quantity is kept in integer units (minutes of arc, tenths of
//! a unit) so that the rules that produce it can be stated and proved exactly.
pub mod error;
pub mod bits;
pub mod field;
pub mod message;
pub mod sentence;
pub mod parser;
pub mod vdm_t6;
pub mod vdm_t8;

pub use error::ParseError;
pub use bits::BitBuffer;
pub use field::{ClockReading, Timestamp};
pub use message::{ParsedMessage, Station};
pub use parser::NmeaParser;
