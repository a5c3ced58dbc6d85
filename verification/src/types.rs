//! Shared protocol types: addresses, priorities, lifecycle signals and
//! the transport-level error taxonomy.

use vstd::prelude::*;

verus! {

/// Bus address of one device: an 8-bit identifier. The high bit is
/// reserved for in-band attention bytes, so only addresses below 0x80
/// can ever raise an SRQ.
pub type Addr = u8;

/// The line terminator of the wire protocol: carriage return.
pub const LINE_TERM: u8 = 13;

/// Priority class of a request: `Queued` traffic is subject to the
/// scheduler's round-robin, `Immediate` traffic bypasses it.
#[derive(Debug, Clone, Copy, PartialEq, Eq, Structural)]
pub enum Priority {
    Queued,
    Immediate,
}

/// Per-device lifecycle event emitted by the multiplexer.
/// `On`: the bus has proved the device responsive. `Off`: the bus gave
/// up after retries or received a bad addressing reply. `Intr`: two
/// matching SRQ bytes were observed for this address.
#[derive(Debug, Clone, Copy, PartialEq, Eq, Structural)]
pub enum Signal {
    On,
    Off,
    Intr,
}

/// Transport-level error taxonomy of one framed line exchange.
/// `Io`: the byte stream failed. `Decode`: the reply was not valid
/// text. `Timeout`: no terminator arrived within the retry budget.
/// `Device`: a protocol-level disagreement, carrying the reply that was
/// received where `OK` was expected.
#[derive(Debug, Clone)]
pub enum Error {
    Io,
    Decode,
    Timeout,
    Device(Vec<u8>),
}

impl Error {
    /// A short human-readable label, for logs and rejection reasons.
    pub fn label(&self) -> (r: &'static str)
        ensures
            (match self {
                Error::Io => r@ == "I/O error"@,
                Error::Decode => r@ == "decode error"@,
                Error::Timeout => r@ == "timeout"@,
                Error::Device(_) => r@ == "unexpected response from device"@,
            }),
    {
        match self {
            Error::Io => "I/O error",
            Error::Decode => "decode error",
            Error::Timeout => "timeout",
            Error::Device(_) => "unexpected response from device",
        }
    }
}

/// Binding-level error taxonomy. `NoResponse`: the multiplexer dropped
/// the exchange (device offline or transport lost). `Parse`: the
/// device's textual reply could not be decoded into a value; it carries
/// that reply.
#[derive(Debug, Clone)]
pub enum DevError {
    NoResponse,
    Parse(Vec<u8>),
}

impl DevError {
    /// A short human-readable label, for logs and rejection reasons.
    pub fn label(&self) -> (r: &'static str)
        ensures
            (match self {
                DevError::NoResponse => r@ == "no response from device"@,
                DevError::Parse(_) => r@ == "unexpected response"@,
            }),
    {
        match self {
            DevError::NoResponse => "no response from device",
            DevError::Parse(_) => "unexpected response",
        }
    }
}

} // verus!
