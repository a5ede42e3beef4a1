//! A typed request/response messaging protocol over a byte stream.
//!
//! Values are serialized with a composable binary codec (big-endian fixed-width
//! integers, length-prefixed UTF-8 strings, length-prefixed sequences, and
//! composites encoded as the concatenation of their fields in declared order).
//! A wire frame is `varint(payload_length) | u32 correlation id | payload`,
//! where the payload is a length-prefixed tag string followed by the tagged
//! packet's field encodings.  A correlation table lets a caller suspend until
//! the response carrying its correlation id arrives.

pub mod bytebuf;
pub mod errors;
pub mod future;
pub mod invfx;
pub mod net;
pub mod packets;
pub mod player;
pub mod typecodec;
pub mod varint;
