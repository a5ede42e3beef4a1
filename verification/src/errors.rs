use vstd::prelude::*;

verus! {

/// Every failure the protocol can report.
///
/// `TruncatedInput` doubles as the framing layer's "need more data" signal:
/// a decoder that runs out of bytes reports it, and the streaming frame
/// decoder turns it into "no frame yet" instead of a hard error.
#[derive(Clone, Copy, Debug, PartialEq, Eq, Structural)]
pub enum BukrsError {
    /// Fewer bytes were available than the value or header needs.
    TruncatedInput,
    /// The data is malformed (bad UTF-8, an unknown enum byte, a payload
    /// that does not parse as framed), or a value's length cannot fit its
    /// four-byte prefix.
    InvalidEncoding,
    /// A varint length prefix ran past five bytes without a terminator.
    VarintOverflow,
    /// A frame carried a tag that no registered packet shape uses.
    UnknownPacketType,
    /// A checked conversion asked for a shape the packet does not have.
    TypeMismatch,
    /// The transport could not be opened.
    ConnectFailed,
    /// The initial correlated exchange did not complete.
    HandshakeFailed,
    /// A write or flush on the transport failed.
    SendFailed,
    /// A correlated call was abandoned before its response arrived.
    Timeout,
}

} // verus!
