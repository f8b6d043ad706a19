//! The failures that the stack reports.

use vstd::prelude::*;

verus! {

/// Why an operation of the stack did not complete.
#[derive(Clone, Copy, Debug, PartialEq, Eq, Structural)]
pub enum NetError {
    /// A view holds fewer bytes than the header to be laid over it.
    TruncatedBuffer,
    /// A received frame is shorter than the header being parsed.
    TruncatedFrame,
    /// A packet inside a frame is shorter than its header.
    TruncatedPacket,
    /// No interface of the requested name is known.
    InterfaceNotFound,
    /// The interface has no default route.
    NoGateway,
    /// The socket refused a transmission, with the error number it gave.
    SocketError(i32),
    /// A write-once view of a packet buffer was set a second time.
    ViewAlreadySet,
}

} // verus!
