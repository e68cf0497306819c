//! The errors that the drivers report.

use vstd::prelude::*;

verus! {

/// Why an operation was refused. Nothing is retried internally: every fallible
/// operation hands one of these back and leaves its state as it found it.
#[derive(Clone, Copy, Debug, PartialEq, Eq, Structural)]
pub enum Error {
    /// A pin block reaches past the end of the pin space.
    OutOfRange,
    /// A pin of the block already has an owner.
    AlreadyRegistered,
    /// The pin has no owning block.
    UnknownPin,
    /// The two negotiated buffer sizes differ.
    MismatchedBufferSizes,
    /// A negotiated buffer is not larger than its header.
    BufferTooSmall,
    /// The position published by the peer lies outside the buffer.
    InvalidPeerPosition,
    /// The ring has less free space than the message and its slack need.
    InsufficientSpace,
    /// Fewer than four bytes remain before the physical end of the buffer,
    /// so the length prefix would have to wrap.
    InsufficientContiguousSpace,
    /// The ring holds less than a length prefix: there is no message to take.
    InsufficientData,
    /// The length prefix claims more bytes than the ring holds.
    MalformedMessage,
    /// The destination cannot hold the message; carries the message length,
    /// so the caller can come back with a buffer that is large enough.
    DestinationTooSmall(usize),
}

} // verus!
