//! The byte transport underneath a device handle, and the error type of
//! the whole crate.
//!
//! The protocol engine needs nothing from a serial port but a blocking
//! byte stream with a timeout; [`Transport`] states that contract.  Its
//! two history views, `tx()` and `rx()`, record every byte accepted for
//! writing and every byte handed to the caller, so the engine's own
//! contracts can pin the exact wire traffic of each command.

use vstd::prelude::*;

use crate::reply::P50XReply;

verus! {

/// Failures of the byte transport, carried to the caller unchanged.
#[derive(Debug, PartialEq, Eq, Copy, Clone, Structural)]
pub enum TransportError {
    /// No byte arrived within the configured timeout.
    Timeout,
    /// The stream is gone; the handle is no longer usable.
    Closed,
    /// Any other I/O failure.
    Io,
}

/// Everything that can go wrong while talking to a central unit.
#[derive(Debug, PartialEq)]
pub enum Error {
    /// The transport failed.
    Transport(TransportError),
    /// The transport delivered text that does not decode to bytes.
    Encoding,
    /// The connection handshake found no P50X-capable device.
    UnknownDevice,
    /// A known reply byte that the command does not accept.
    ProtocolReply(P50XReply),
    /// A reply byte outside the table, with the bytes that were read.
    UnknownResponse(Vec<u8>),
}

/// A blocking byte stream with a timeout: what the protocol engine asks
/// of a serial port.  `tx()` and `rx()` are the histories of the
/// channel: every byte accepted for writing and every byte handed to the
/// caller, oldest first.
pub trait Transport: Sized {
    /// The implementation's own invariant.
    spec fn inv(&self) -> bool;

    /// Every byte accepted for writing so far.
    spec fn tx(&self) -> Seq<u8>;

    /// Every byte handed to the caller so far.
    spec fn rx(&self) -> Seq<u8>;

    /// Write all of `data` to the stream.  A failure is a transport or
    /// text-encoding failure, never a protocol-level error.
    fn write_bytes(&mut self, data: &[u8]) -> (r: Result<(), Error>)
        requires
            old(self).inv(),
        ensures
            final(self).inv(),
            final(self).rx() == old(self).rx(),
            r is Ok ==> final(self).tx() == old(self).tx() + data@,
            r matches Err(e) ==> final(self).tx() == old(self).tx() && (e matches Error::Transport(
                _,
            ) || e is Encoding),
    ;

    /// Block until at least `count` bytes are available and return them;
    /// more than `count` may come back.
    fn read_at_least(&mut self, count: usize) -> (r: Result<Vec<u8>, Error>)
        requires
            old(self).inv(),
        ensures
            final(self).inv(),
            final(self).tx() == old(self).tx(),
            r matches Ok(data) ==> data@.len() >= count && final(self).rx() == old(self).rx()
                + data@,
            r matches Err(e) ==> final(self).rx() == old(self).rx() && (e matches Error::Transport(
                _,
            ) || e is Encoding),
    ;

    /// Change the read timeout, in milliseconds.
    fn set_timeout(&mut self, timeout: u64) -> (r: Result<(), Error>)
        requires
            old(self).inv(),
        ensures
            final(self).inv(),
            final(self).tx() == old(self).tx(),
            final(self).rx() == old(self).rx(),
            r matches Err(e) ==> (e matches Error::Transport(_) || e is Encoding),
    ;
}

} // verus!
