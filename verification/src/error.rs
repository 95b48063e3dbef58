//! Error values shared by every layer of the framework.

use vstd::prelude::*;

verus! {

/// An error reported by the kernel for a single system call.
#[derive(Clone, Copy, Debug, PartialEq, Eq, Structural)]
pub enum SysError {
    /// A wait ran out of time before any event arrived.
    TimedOut,
    /// The peer closed its end of the channel.
    ChannelClosed,
    /// An argument was rejected.
    InvalidArgs,
    /// The name is already taken.
    AlreadyExists,
    /// A kernel table is full.
    NoResources,
    /// Nothing is registered under the name.
    NotFound,
    /// The operation is not permitted in the current state.
    NotAllowed,
    /// The caller's buffer cannot hold the data.
    NotEnoughBuffer,
    /// The caller may not reach the object.
    AccessDenied,
    /// Any other failure.
    Generic,
}

/// An error of the IPC layer.
#[derive(Clone, Copy, Debug, PartialEq, Eq, Structural)]
pub enum TipcError {
    /// The handle does not name an endpoint.
    InvalidHandle,
    /// The port is unknown or its path is malformed.
    InvalidPort,
    /// Memory could not be allocated.
    AllocError,
    /// A value or a table position is outside its bounds.
    OutOfBounds,
    /// Fewer bytes were written than the message holds.
    IncompleteWrite { num_bytes_written: usize },
    /// A buffer is smaller than what has to be stored in it.
    NotEnoughBuffer,
    /// An event or a state that the framework does not recognise.
    UnknownError,
    /// The channel was closed.
    ChannelClosed,
    /// The endpoint cannot take the request now.
    Busy,
    /// A message or an identifier is malformed.
    InvalidData,
    /// The kernel refused a system call.
    SystemError(SysError),
}

} // verus!
