//! Errors surfaced by the public operations.
use vstd::prelude::*;

use crate::buffer_pool;

verus! {

#[verifier::external_type_specification]
#[verifier::external_body]
pub struct ExIoError(std::io::Error);

/// What a public operation can report.
#[derive(Debug)]
pub enum Error {
    /// A second `start` on the same context.
    AlreadyStarted,
    /// Sending would exceed the configured uplink rate.
    FlowControlLimited,
    /// The buffer pool or the output message set is exhausted.
    NoMemoryAvailable,
    /// A non-blocking receive found the inbound queue empty.
    NoMessageAvailable,
    /// The peer broke the protocol: wrong first message, or a malformed
    /// frame.
    ProtocolViolation,
    /// A payload above the maximum packet size, or a receive buffer
    /// shorter than the payload.
    SizeTooBig,
    /// A transport-level failure.
    IoError(std::io::Error),
}

impl From<std::io::Error> for Error {
    fn from(error: std::io::Error) -> (r: Error) {
        Error::IoError(error)
    }
}

impl vstd::std_specs::convert::FromSpecImpl<std::io::Error> for Error {
    open spec fn obeys_from_spec() -> bool {
        true
    }

    open spec fn from_spec(error: std::io::Error) -> Error {
        Error::IoError(error)
    }
}

impl From<buffer_pool::Error> for Error {
    fn from(error: buffer_pool::Error) -> (r: Error) {
        match error {
            buffer_pool::Error::NoBufferAvailable => Error::NoMemoryAvailable,
            buffer_pool::Error::SizeTooBig => Error::SizeTooBig,
        }
    }
}

impl vstd::std_specs::convert::FromSpecImpl<buffer_pool::Error> for Error {
    open spec fn obeys_from_spec() -> bool {
        true
    }

    open spec fn from_spec(error: buffer_pool::Error) -> Error {
        match error {
            buffer_pool::Error::NoBufferAvailable => Error::NoMemoryAvailable,
            buffer_pool::Error::SizeTooBig => Error::SizeTooBig,
        }
    }
}

} // verus!
