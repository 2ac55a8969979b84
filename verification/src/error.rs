//! The error type shared by every part of the library.
use vstd::prelude::*;

verus! {

/// `std::io::Error`, carried through unchanged from the transport.
#[verifier::external_type_specification]
#[verifier::external_body]
pub struct ExIoError(std::io::Error);

/// What can go wrong while talking to a printer.
#[derive(Debug)]
pub enum PixmaError {
    /// No printer found on the network.
    NotFound,
    /// Protocol error reported or detected during an exchange.
    Protocol(String),
    /// A packet or response that does not have the expected layout.
    InvalidPacket(String),
    /// The scanner is busy.
    Busy,
    /// The scan could not be completed.
    ScanFailed(String),
    /// Network error from the transport.
    Io(std::io::Error),
    /// No response arrived in time.
    Timeout,
}

} // verus!
