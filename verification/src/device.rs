//! The device handle: frame codec, read-ahead buffer, connection
//! handshake and the implementation of every P50X command.
//!
//! The handle owns the transport exclusively.  `recv` drains the
//! read-ahead buffer before it touches the transport, and any surplus
//! bytes a read delivers are retained in the buffer, in order, for the
//! next call — so one command's early-delivered reply bytes are never
//! lost to the next command.

use vstd::prelude::*;

use crate::codec::{
    device_status_from_byte, functions_decode, functions_encode, lok_command_bytes, lok_config_decode,
    lok_status_decode, s88_param_encode, sensor_decode, turnout_command_bytes,
    turnout_group_decode, turnout_status_decode, DeviceStatus, XLokConfig, XLokOptions,
    XLokStatus, XTurnoutOptions, XTurnoutStatus,
};
use crate::protocol::{
    lemma_chunks_dangling_not_stream, lemma_chunks_not_stream, lemma_version_chunks_append,
    lemma_version_chunks_terminated, spec_version_chunks, P50XBinary,
};
use crate::reply::{lemma_only_zero_is_ok, spec_reply_of_byte, P50XReply};
use crate::transport::{Error, Transport};

verus! {

/// A handle to one P50X central unit over an exclusively owned
/// transport.  Created by [`Device::open`], which performs the
/// connection handshake.
pub struct Device<T: Transport> {
    transport: T,
    extended_character: u8,
    read_buffer: Vec<u8>,
}

impl<T: Transport> Device<T> {
    /// Probe the transport for a P50X-capable unit and wrap it in a
    /// handle: the device is accepted exactly when both probes of
    /// [`Device::verify_connection`] are answered correctly.  On failure
    /// no handle exists and the transport comes back with the error:
    /// `UnknownDevice` arises exactly from a wrong probe answer, whose
    /// bytes the contract pins on the returned transport's histories.
    pub fn open(transport: T) -> (r: Result<Device<T>, (Error, T)>)
        requires
            transport.inv(),
        ensures
            r matches Ok(d) ==> d.wf() && d.ext() == 0x58 && d.sent() == transport.tx() + seq![
                0x58u8,
                0xc4u8,
                0xc4u8,
            ] && d.taken() == transport.rx() + seq![0x00u8, 0x00u8, 0x00u8] && d.delivered()
                == d.taken() + d.buffered(),
            r matches Err((e, t)) ==> t.inv() && (e is UnknownDevice || e matches Error::Transport(
                _,
            ) || e is Encoding),
            r matches Err((e, t)) ==> (e is UnknownDevice ==> ((t.tx() == transport.tx() + seq![
                0x58u8,
                0xc4u8,
            ] && (exists|b: u8|
                #![auto]
                b != 0x00 && (transport.rx() + seq![b]).is_prefix_of(t.rx()))) || (t.tx()
                == transport.tx() + seq![0x58u8, 0xc4u8, 0xc4u8] && (exists|b1: u8, b2: u8|
                #![auto]
                (b1 != 0x00 || b2 != 0x00) && (transport.rx() + seq![0x00u8, b1, b2]).is_prefix_of(
                    t.rx(),
                ))))),
            r matches Err((e, t)) ==> ((e matches Error::Transport(_) || e is Encoding) ==> ((
            t.tx() == transport.tx() || t.tx() == transport.tx() + seq![0x58u8, 0xc4u8] || t.tx()
                == transport.tx() + seq![0x58u8, 0xc4u8, 0xc4u8]) && transport.rx().is_prefix_of(
                t.rx(),
            ))),
    {
        let mut device = Device { transport, extended_character: 0x58, read_buffer: Vec::new() };
        proof {
            assert(device.read_buffer@.is_suffix_of(device.transport.rx()));
            assert(device.taken() =~= device.transport.rx());
        }
        match device.verify_connection() {
            Ok(true) => {
                proof {
                    assert(device.delivered() =~= device.taken() + device.buffered());
                }
                Ok(device)
            },
            Ok(false) => {
                proof {
                    assert(device.delivered() =~= device.taken() + device.buffered());
                    assert(device.taken().is_prefix_of(device.delivered()));
                }
                let Device { transport: t, .. } = device;
                Err((Error::UnknownDevice, t))
            },
            Err(e) => {
                proof {
                    assert(device.delivered() =~= device.taken() + device.buffered());
                    assert(device.taken().is_prefix_of(device.delivered()));
                    assert(transport.rx().is_prefix_of(device.delivered()));
                }
                let Device { transport: t, .. } = device;
                Err((e, t))
            },
        }
    }

    /// The two-probe handshake that tells a P50X-capable unit apart from
    /// a legacy P50 unit or an arbitrary serial device: the probe
    /// `58 C4` must be answered `00`, and the bare `C4` (a legacy P50
    /// no-op) must be answered `00 00`.  Returns `Ok(true)` exactly when
    /// both answers are right; `Ok(false)` says which bytes came back
    /// instead; surplus reply bytes stay in the read-ahead buffer.
    pub fn verify_connection(&mut self) -> (r: Result<bool, Error>)
        requires
            old(self).wf(),
        ensures
            final(self).wf(),
            final(self).ext() == old(self).ext(),
            r matches Ok(true) ==> final(self).sent() == old(self).sent() + seq![
                0x58u8,
                0xc4u8,
                0xc4u8,
            ] && final(self).taken() == old(self).taken() + seq![0x00u8, 0x00u8, 0x00u8],
            r matches Ok(false) ==> ((final(self).sent() == old(self).sent() + seq![
                0x58u8,
                0xc4u8,
            ] && (exists|b: u8|
                #![auto]
                b != 0x00 && final(self).taken() == old(self).taken() + seq![b])) || (final(self).sent() == old(self).sent() + seq![0x58u8, 0xc4u8, 0xc4u8] && (exists|b1: u8, b2: u8|
                #![auto]
                (b1 != 0x00 || b2 != 0x00) && final(self).taken() == old(self).taken() + seq![
                    0x00u8,
                    b1,
                    b2,
                ]))),
            r is Err ==> (final(self).sent() == old(self).sent() || final(self).sent() == old(self).sent() + seq![0x58u8, 0xc4u8] || final(self).sent() == old(self).sent() + seq![
                0x58u8,
                0xc4u8,
                0xc4u8,
            ]),
            r is Err ==> (final(self).taken() == old(self).taken() || final(self).taken() == old(self).taken() + seq![0x00u8]),
            r matches Err(e) ==> (e matches Error::Transport(_) || e is Encoding),
    {
        let ghost t0 = *old(self);
        match self.write_all(&[0x58, 0xc4]) {
            Ok(_) => {},
            Err(e) => { return Err(e) },
        }
        let first = match self.recv(1) {
            Ok(d) => d,
            Err(e) => { return Err(e) },
        };
        if first[0] != 0x00 {
            proof {
                assert(first@ =~= seq![first@[0]]);
            }
            return Ok(false);
        }
        match self.write_all(&[0xc4]) {
            Ok(_) => {},
            Err(e) => { return Err(e) },
        }
        let second = match self.recv(2) {
            Ok(d) => d,
            Err(e) => { return Err(e) },
        };
        proof {
            assert(self.sent() =~= t0.sent() + seq![0x58u8, 0xc4u8, 0xc4u8]);
        }
        if second[0] != 0x00 || second[1] != 0x00 {
            proof {
                assert(second@ =~= seq![second@[0], second@[1]]);
                assert(self.taken() =~= t0.taken() + seq![0x00u8, second@[0], second@[1]]);
            }
            return Ok(false);
        }
        proof {
            assert(first@ =~= seq![0x00u8]);
            assert(second@ =~= seq![0x00u8, 0x00u8]);
            assert(self.taken() =~= t0.taken() + seq![0x00u8, 0x00u8, 0x00u8]);
        }
        Ok(true)
    }

    /// The underlying transport, for inspection.
    pub fn transport(&self) -> (t: &T)
        ensures
            t.tx() == self.sent(),
            t.rx() == self.delivered(),
    {
        &self.transport
    }

    /// Change the transport's read timeout, in milliseconds.
    pub fn set_timeout(&mut self, timeout: u64) -> (r: Result<(), Error>)
        requires
            old(self).wf(),
        ensures
            final(self).wf(),
            final(self).ext() == old(self).ext(),
            final(self).sent() == old(self).sent(),
            final(self).taken() == old(self).taken(),
            final(self).buffered() == old(self).buffered(),
            final(self).delivered() == old(self).delivered(),
            r matches Err(e) ==> (e matches Error::Transport(_) || e is Encoding),
    {
        self.transport.set_timeout(timeout)
    }

    /// Hand the bytes to the transport; the buffer and the reply
    /// histories stay as they are.
    fn write_all(&mut self, data: &[u8]) -> (r: Result<(), Error>)
        requires
            old(self).wf(),
        ensures
            final(self).wf(),
            final(self).ext() == old(self).ext(),
            final(self).taken() == old(self).taken(),
            final(self).buffered() == old(self).buffered(),
            final(self).delivered() == old(self).delivered(),
            r is Ok ==> final(self).sent() == old(self).sent() + data@,
            r is Err ==> final(self).sent() == old(self).sent(),
            r matches Err(e) ==> (e matches Error::Transport(_) || e is Encoding),
    {
        self.transport.write_bytes(data)
    }

    /// Write the current extended-character prefix.
    pub fn send_extended(&mut self) -> (r: Result<(), Error>)
        requires
            old(self).wf(),
        ensures
            final(self).wf(),
            final(self).ext() == old(self).ext(),
            final(self).taken() == old(self).taken(),
            final(self).buffered() == old(self).buffered(),
            final(self).delivered() == old(self).delivered(),
            r is Ok ==> final(self).sent() == old(self).sent() + seq![old(self).ext()],
            r is Err ==> final(self).sent() == old(self).sent(),
            r matches Err(e) ==> (e matches Error::Transport(_) || e is Encoding),
    {
        let b = self.extended_character;
        let r = self.write_all(&[b]);
        proof {
            if r is Ok {
                assert(self.sent() =~= old(self).sent() + seq![old(self).ext()]);
            }
        }
        r
    }

    /// Write one byte.
    pub fn send_u8(&mut self, value: u8) -> (r: Result<(), Error>)
        requires
            old(self).wf(),
        ensures
            final(self).wf(),
            final(self).ext() == old(self).ext(),
            final(self).taken() == old(self).taken(),
            final(self).buffered() == old(self).buffered(),
            final(self).delivered() == old(self).delivered(),
            r is Ok ==> final(self).sent() == old(self).sent() + seq![value],
            r is Err ==> final(self).sent() == old(self).sent(),
            r matches Err(e) ==> (e matches Error::Transport(_) || e is Encoding),
    {
        let r = self.write_all(&[value]);
        proof {
            if r is Ok {
                assert(self.sent() =~= old(self).sent() + seq![value]);
            }
        }
        r
    }

    /// Write a `u16`, little-endian.
    pub fn send_u16(&mut self, value: u16) -> (r: Result<(), Error>)
        requires
            old(self).wf(),
        ensures
            final(self).wf(),
            final(self).ext() == old(self).ext(),
            final(self).taken() == old(self).taken(),
            final(self).buffered() == old(self).buffered(),
            final(self).delivered() == old(self).delivered(),
            r is Ok ==> final(self).sent() == old(self).sent() + seq![
                crate::codec::spec_lo8(value),
                crate::codec::spec_hi8(value),
            ],
            r is Err ==> final(self).sent() == old(self).sent(),
            r matches Err(e) ==> (e matches Error::Transport(_) || e is Encoding),
    {
        let lo = (value % 0x100) as u8;
        let hi = (value / 0x100) as u8;
        let r = self.write_all(&[lo, hi]);
        proof {
            if r is Ok {
                assert(self.sent() =~= old(self).sent() + seq![
                    crate::codec::spec_lo8(value),
                    crate::codec::spec_hi8(value),
                ]);
            }
        }
        r
    }

    /// Write a `u32`, little-endian.
    pub fn send_u32(&mut self, value: u32) -> (r: Result<(), Error>)
        requires
            old(self).wf(),
        ensures
            final(self).wf(),
            final(self).ext() == old(self).ext(),
            final(self).taken() == old(self).taken(),
            final(self).buffered() == old(self).buffered(),
            final(self).delivered() == old(self).delivered(),
            r is Ok ==> final(self).sent() == old(self).sent()
                + crate::protocol::spec_u32_le_bytes(value),
            r is Err ==> final(self).sent() == old(self).sent(),
            r matches Err(e) ==> (e matches Error::Transport(_) || e is Encoding),
    {
        let b0 = (value % 0x100) as u8;
        let b1 = ((value / 0x100) % 0x100) as u8;
        let b2 = ((value / 0x10000) % 0x100) as u8;
        let b3 = (value / 0x1000000) as u8;
        let r = self.write_all(&[b0, b1, b2, b3]);
        proof {
            if r is Ok {
                assert(self.sent() =~= old(self).sent() + crate::protocol::spec_u32_le_bytes(
                    value,
                ));
            }
        }
        r
    }

    /// Write one whole command frame — the extended character, then the
    /// opcode and operands — as a single transport write, so a frame is
    /// on the wire whole or not at all.
    fn send_frame(&mut self, body: &[u8]) -> (r: Result<(), Error>)
        requires
            old(self).wf(),
        ensures
            final(self).wf(),
            final(self).ext() == old(self).ext(),
            final(self).taken() == old(self).taken(),
            final(self).buffered() == old(self).buffered(),
            final(self).delivered() == old(self).delivered(),
            r is Ok ==> final(self).sent() == old(self).sent() + seq![old(self).ext()] + body@,
            r is Err ==> final(self).sent() == old(self).sent(),
            r matches Err(e) ==> (e matches Error::Transport(_) || e is Encoding),
    {
        let mut frame: Vec<u8> = Vec::new();
        frame.push(self.extended_character);
        frame.extend_from_slice(body);
        let r = self.write_all(frame.as_slice());
        proof {
            if r is Ok {
                assert(self.sent() =~= old(self).sent() + seq![old(self).ext()] + body@);
            }
        }
        r
    }

    /// Read exactly `length` bytes: the read-ahead buffer is drained
    /// first, and any surplus the transport delivers is retained in the
    /// buffer for the next call.  When the buffer already holds enough,
    /// the transport is not touched and the call cannot fail.
    pub fn recv(&mut self, length: usize) -> (r: Result<Vec<u8>, Error>)
        requires
            old(self).wf(),
        ensures
            final(self).wf(),
            final(self).ext() == old(self).ext(),
            final(self).sent() == old(self).sent(),
            r matches Ok(data) ==> data@.len() == length && final(self).taken() == old(self).taken() + data@,
            r matches Ok(data) ==> old(self).delivered().is_prefix_of(final(self).delivered())
                && data@ == (old(self).buffered() + final(self).delivered().skip(
                old(self).delivered().len() as int,
            )).take(length as int) && final(self).buffered() == (old(self).buffered() + final(self).delivered().skip(old(self).delivered().len() as int)).skip(length as int),
            final(self).delivered() == final(self).taken() + final(self).buffered(),
            r matches Err(e) ==> final(self).taken() == old(self).taken() && final(self).buffered() == old(self).buffered() && (e matches Error::Transport(_) || e
                is Encoding),
            old(self).buffered().len() >= length ==> (r matches Ok(data) && data@ == old(self).buffered().take(length as int) && final(self).delivered() == old(self).delivered()),
    {
        proof {
            assert(old(self).buffered().len() <= old(self).delivered().len());
        }
        if self.read_buffer.len() >= length {
            let mut rest = self.read_buffer.split_off(length);
            core::mem::swap(&mut self.read_buffer, &mut rest);
            let data = rest;
            proof {
                assert(self.buffered() =~= old(self).delivered().skip(
                    old(self).delivered().len() - self.buffered().len(),
                ));
                assert(self.taken() =~= old(self).taken() + data@);
            }
            Ok(data)
        } else {
            let needed = length - self.read_buffer.len();
            let mut more = match self.transport.read_at_least(needed) {
                Ok(d) => d,
                Err(e) => {
                    proof {
                        assert(self.taken() =~= old(self).taken());
                    }
                    return Err(e);
                },
            };
            self.read_buffer.append(&mut more);
            proof {
                assert(self.buffered() =~= self.delivered().skip(
                    self.delivered().len() - self.buffered().len(),
                ));
            }
            let mut rest = self.read_buffer.split_off(length);
            core::mem::swap(&mut self.read_buffer, &mut rest);
            let data = rest;
            proof {
                assert(self.buffered() =~= self.delivered().skip(
                    self.delivered().len() - self.buffered().len(),
                ));
                assert(self.taken() =~= old(self).taken() + data@);
            }
            Ok(data)
        }
    }

    /// Read one byte.
    pub fn recv_u8(&mut self) -> (r: Result<u8, Error>)
        requires
            old(self).wf(),
        ensures
            final(self).wf(),
            final(self).ext() == old(self).ext(),
            final(self).sent() == old(self).sent(),
            r matches Ok(value) ==> final(self).taken() == old(self).taken() + seq![value],
            r is Err ==> final(self).taken() == old(self).taken(),
            r matches Err(e) ==> (e matches Error::Transport(_) || e is Encoding),
    {
        let data = match self.recv(1) {
            Ok(d) => d,
            Err(e) => { return Err(e) },
        };
        let value = data[0];
        proof {
            assert(data@ =~= seq![value]);
        }
        Ok(value)
    }

    /// Read a `u16`, little-endian.
    pub fn recv_u16(&mut self) -> (r: Result<u16, Error>)
        requires
            old(self).wf(),
        ensures
            final(self).wf(),
            final(self).ext() == old(self).ext(),
            final(self).sent() == old(self).sent(),
            r matches Ok(value) ==> exists|lo: u8, hi: u8|
                #![auto]
                final(self).taken() == old(self).taken() + seq![lo, hi] && value
                    == crate::protocol::spec_u16_le(lo, hi),
            r is Err ==> final(self).taken() == old(self).taken(),
            r matches Err(e) ==> (e matches Error::Transport(_) || e is Encoding),
    {
        let data = match self.recv(2) {
            Ok(d) => d,
            Err(e) => { return Err(e) },
        };
        let lo = data[0];
        let hi = data[1];
        let value = lo as u16 + hi as u16 * 0x100;
        proof {
            assert(data@ =~= seq![lo, hi]);
            assert(value == crate::protocol::spec_u16_le(lo, hi));
        }
        Ok(value)
    }

    /// Read one reply byte and classify it by the reply table.
    pub fn recv_reply(&mut self) -> (r: Result<P50XReply, Error>)
        requires
            old(self).wf(),
        ensures
            final(self).wf(),
            final(self).ext() == old(self).ext(),
            final(self).sent() == old(self).sent(),
            r matches Ok(reply) ==> exists|b: u8|
                #![auto]
                final(self).taken() == old(self).taken() + seq![b] && reply
                    == spec_reply_of_byte(b),
            r is Err ==> final(self).taken() == old(self).taken(),
            r matches Err(e) ==> (e matches Error::Transport(_) || e is Encoding),
    {
        let value = match self.recv_u8() {
            Ok(b) => b,
            Err(e) => { return Err(e) },
        };
        Ok(P50XReply::from_byte(value))
    }

    /// Read one reply byte and demand one of `valid` (a set that always
    /// holds the success sentinel): any other known reply comes back as
    /// `ProtocolReply`, a byte outside the table as `UnknownResponse`.
    fn xrecv(&mut self, valid: &[P50XReply]) -> (r: Result<P50XReply, Error>)
        requires
            old(self).wf(),
            valid@.contains(P50XReply::Okay),
        ensures
            final(self).wf(),
            final(self).ext() == old(self).ext(),
            final(self).sent() == old(self).sent(),
            r matches Ok(reply) ==> valid@.contains(reply) && exists|b: u8|
                #![auto]
                final(self).taken() == old(self).taken() + seq![b] && reply
                    == spec_reply_of_byte(b),
            r matches Err(Error::ProtocolReply(k)) ==> !valid@.contains(k)
                && crate::protocol::spec_protocol_reply_err(
                old(self).taken(),
                final(self).taken(),
                k,
            ),
            r matches Err(Error::UnknownResponse(bytes)) ==> bytes@.len() == 1
                && spec_reply_of_byte(bytes@[0]) == P50XReply::Unknown && final(self).taken()
                == old(self).taken() + bytes@,
            r matches Err(e) ==> ((e matches Error::Transport(_) || e is Encoding) ==> final(self).taken() == old(self).taken()),
            r is Err ==> old(self).taken().is_prefix_of(final(self).taken()) && final(self).taken().len() <= old(self).taken().len() + 1,
            r matches Err(e) ==> crate::protocol::spec_command_error(e),
    {
        let data = match self.recv(1) {
            Ok(d) => d,
            Err(e) => {
                proof {
                    assert(old(self).taken().is_prefix_of(self.taken()));
                }
                return Err(e);
            },
        };
        let byte = data[0];
        proof {
            assert(data@ =~= seq![byte]);
            assert(old(self).taken().is_prefix_of(self.taken()));
        }
        let reply = P50XReply::from_byte(byte);
        let mut i: usize = 0;
        while i < valid.len()
            invariant
                i <= valid@.len(),
                forall|j: int| 0 <= j < i ==> valid@[j] != reply,
                self.wf(),
                self.ext() == old(self).ext(),
                self.sent() == old(self).sent(),
                self.taken() == old(self).taken() + seq![byte],
                reply == spec_reply_of_byte(byte),
            decreases valid@.len() - i,
        {
            if valid[i] == reply {
                proof {
                    assert(valid@[i as int] == reply);
                    assert(valid@.contains(reply));
                }
                return Ok(reply);
            }
            i = i + 1;
        }
        proof {
            assert(!valid@.contains(reply));
            if reply == P50XReply::Okay {
                let j = choose|j: int|
                    0 <= j < valid@.len() && valid@[j] == P50XReply::Okay;
                assert(valid@[j] != reply);
                assert(false);
            }
        }
        if matches!(reply, P50XReply::Unknown) {
            Err(Error::UnknownResponse(data))
        } else {
            Err(Error::ProtocolReply(reply))
        }
    }

    /// Read one reply byte and demand the success sentinel.
    fn xrecv_ok(&mut self) -> (r: Result<(), Error>)
        requires
            old(self).wf(),
        ensures
            final(self).wf(),
            final(self).ext() == old(self).ext(),
            final(self).sent() == old(self).sent(),
            r is Ok ==> final(self).taken() == old(self).taken() + seq![0x00u8],
            r matches Err(Error::ProtocolReply(k)) ==> crate::protocol::spec_protocol_reply_err(
                old(self).taken(),
                final(self).taken(),
                k,
            ),
            r matches Err(Error::UnknownResponse(bytes)) ==> bytes@.len() == 1
                && spec_reply_of_byte(bytes@[0]) == P50XReply::Unknown && final(self).taken()
                == old(self).taken() + bytes@,
            r matches Err(e) ==> ((e matches Error::Transport(_) || e is Encoding) ==> final(self).taken() == old(self).taken()),
            r is Err ==> old(self).taken().is_prefix_of(final(self).taken()) && final(self).taken().len() <= old(self).taken().len() + 1,
            r matches Err(e) ==> crate::protocol::spec_command_error(e),
    {
        let valid = [P50XReply::Okay];
        proof {
            assert(valid@[0] == P50XReply::Okay);
            assert(valid@.contains(P50XReply::Okay));
        }
        match self.xrecv(&valid) {
            Ok(reply) => {
                proof {
                    let b = choose|b: u8|
                        final(self).taken() == old(self).taken() + seq![b] && reply
                            == spec_reply_of_byte(b);
                    assert(valid@.contains(reply));
                    assert(valid@[0] == P50XReply::Okay);
                    assert(reply == P50XReply::Okay);
                    lemma_only_zero_is_ok(b);
                }
                Ok(())
            },
            Err(e) => Err(e),
        }
    }
}

impl<T: Transport> P50XBinary for Device<T> {
    closed spec fn wf(&self) -> bool {
        self.transport.inv() && self.read_buffer@.is_suffix_of(self.transport.rx())
    }

    closed spec fn sent(&self) -> Seq<u8> {
        self.transport.tx()
    }

    closed spec fn taken(&self) -> Seq<u8> {
        self.transport.rx().take(self.transport.rx().len() - self.read_buffer@.len())
    }

    closed spec fn delivered(&self) -> Seq<u8> {
        self.transport.rx()
    }

    closed spec fn buffered(&self) -> Seq<u8> {
        self.read_buffer@
    }

    closed spec fn ext(&self) -> u8 {
        self.extended_character
    }

    proof fn lemma_history_split(&self) {
        assert(self.delivered() =~= self.taken() + self.buffered());
    }

    fn xpower_off(&mut self) -> (r: Result<(), Error>) {
        match self.send_frame(&[0xa6]) {
            Ok(_) => {},
            Err(e) => { return Err(e) },
        }
        proof {
            assert(self.sent() =~= old(self).sent() + seq![old(self).ext()] + seq![0xa6u8]);
        }
        match self.xrecv_ok() {
            Ok(_) => {},
            Err(e) => { return Err(e) },
        }
        Ok(())
    }

    fn xpower_on(&mut self) -> (r: Result<bool, Error>) {
        match self.send_frame(&[0xa7]) {
            Ok(_) => {},
            Err(e) => { return Err(e) },
        }
        proof {
            assert(self.sent() =~= old(self).sent() + seq![old(self).ext()] + seq![0xa7u8]);
        }
        let valid = [P50XReply::Okay, P50XReply::PowerOff];
        let reply = match self.xrecv(&valid) {
            Ok(rep) => rep,
            Err(e) => { return Err(e) },
        };
        proof {
            let b = choose|b: u8|
                #![auto]
                self.taken() == old(self).taken() + seq![b] && reply == spec_reply_of_byte(b);
            lemma_only_zero_is_ok(b);
            assert(reply == P50XReply::Okay || reply == P50XReply::PowerOff);
            if reply == P50XReply::PowerOff {
                assert(b == 0x06);
            }
        }
        if matches!(reply, P50XReply::Okay) {
            Ok(true)
        } else {
            Ok(false)
        }
    }

    fn xhalt(&mut self) -> (r: Result<(), Error>) {
        match self.send_frame(&[0xa5]) {
            Ok(_) => {},
            Err(e) => { return Err(e) },
        }
        proof {
            assert(self.sent() =~= old(self).sent() + seq![old(self).ext()] + seq![0xa5u8]);
        }
        match self.xrecv_ok() {
            Ok(_) => {},
            Err(e) => { return Err(e) },
        }
        Ok(())
    }

    fn xso_set(&mut self, special_option: u16, value: u8) -> (r: Result<(), Error>) {
        let lo = (special_option % 0x100) as u8;
        let hi = (special_option / 0x100) as u8;
        match self.send_frame(&[0xa3, lo, hi, value]) {
            Ok(_) => {},
            Err(e) => { return Err(e) },
        }
        proof {
            assert(self.sent() =~= old(self).sent() + seq![old(self).ext()] + seq![0xa3u8, crate::codec::spec_lo8(special_option), crate::codec::spec_hi8(special_option), value]);
        }
        match self.xrecv_ok() {
            Ok(_) => {},
            Err(e) => { return Err(e) },
        }
        Ok(())
    }

    fn xso_get(&mut self, special_option: u16) -> (r: Result<Option<u8>, Error>) {
        let lo = (special_option % 0x100) as u8;
        let hi = (special_option / 0x100) as u8;
        match self.send_frame(&[0xa4, lo, hi]) {
            Ok(_) => {},
            Err(e) => { return Err(e) },
        }
        proof {
            assert(self.sent() =~= old(self).sent() + seq![old(self).ext()] + seq![0xa4u8, crate::codec::spec_lo8(special_option), crate::codec::spec_hi8(special_option)]);
        }
        let valid = [P50XReply::Okay, P50XReply::BadParameter];
        let ghost taken_after_send = self.taken();
        let reply = match self.xrecv(&valid) {
            Ok(rep) => rep,
            Err(e) => { return Err(e) },
        };
        proof {
            let b = choose|b: u8|
                #![auto]
                self.taken() == taken_after_send + seq![b] && reply == spec_reply_of_byte(b);
            lemma_only_zero_is_ok(b);
            if reply == P50XReply::BadParameter {
                assert(b == 0x02);
            }
        }
        if matches!(reply, P50XReply::Okay) {
            let value = match self.recv_u8() {
                Ok(v) => v,
                Err(e) => { return Err(e) },
            };
            proof {
                assert(self.taken() =~= taken_after_send + seq![0x00u8, value]);
            }
            Ok(Some(value))
        } else {
            Ok(None)
        }
    }

    fn xversion(&mut self) -> (r: Result<Vec<u8>, Error>) {
        match self.send_frame(&[0xa0]) {
            Ok(_) => {},
            Err(e) => { return Err(e) },
        }
        proof {
            assert(self.sent() =~= old(self).sent() + seq![old(self).ext()] + seq![0xa0u8]);
        }
        let ghost taken_after_send = self.taken();
        let ghost sent_frame = self.sent();
        let mut data: Vec<u8> = Vec::new();
        // A sane unit sends a handful of chunks; a stream that never
        // terminates is treated as an unrecognisable response.
        let mut chunks_read: usize = 0;
        loop
            invariant_except_break
                spec_version_chunks(data@),
            invariant
                self.wf(),
                self.ext() == old(self).ext(),
                self.sent() == sent_frame,
                sent_frame == old(self).sent() + seq![old(self).ext()] + seq![0xa0u8],
                taken_after_send == old(self).taken(),
                self.taken() == taken_after_send + data@,
                chunks_read < 0x100,
                data@.len() >= 2 * chunks_read,
            ensures
                self.wf(),
                self.ext() == old(self).ext(),
                self.sent() == sent_frame,
                self.taken() == taken_after_send + data@,
                crate::protocol::spec_version_stream(data@),
            decreases 0x100 - chunks_read,
        {
            let ghost chunks_so_far = data@;
            let length = match self.recv_u8() {
                Ok(b) => b,
                Err(e) => {
                    proof {
                        lemma_chunks_not_stream(chunks_so_far);
                        assert(self.taken().skip(old(self).taken().len() as int)
                            =~= chunks_so_far);
                    }
                    return Err(e);
                },
            };
            data.push(length);
            if length == 0 {
                proof {
                    lemma_version_chunks_terminated(chunks_so_far);
                    assert(data@ =~= chunks_so_far + seq![0u8]);
                    assert(self.taken() =~= taken_after_send + data@);
                }
                break ;
            }
            let mut chunk = match self.recv(length as usize) {
                Ok(c) => c,
                Err(e) => {
                    proof {
                        lemma_chunks_dangling_not_stream(chunks_so_far, length);
                        assert(self.taken().skip(old(self).taken().len() as int)
                            =~= chunks_so_far + seq![length]);
                    }
                    return Err(e);
                },
            };
            let ghost chunk_bytes = chunk@;
            data.append(&mut chunk);
            proof {
                lemma_version_chunks_append(chunks_so_far, length, chunk_bytes);
                assert(data@ =~= chunks_so_far + seq![length] + chunk_bytes);
                assert(self.taken() =~= taken_after_send + data@);
            }
            chunks_read = chunks_read + 1;
            if chunks_read == 0x100 {
                return Err(Error::UnknownResponse(data));
            }
            proof {
                assert(data@.len() >= 2 * chunks_read);
            }
        }
        Ok(data)
    }

    fn xp50xch(&mut self, extended_character: u8) -> (r: Result<(), Error>) {
        match self.send_frame(&[0xa1, extended_character]) {
            Ok(_) => {},
            Err(e) => { return Err(e) },
        }
        proof {
            assert(self.sent() =~= old(self).sent() + seq![old(self).ext()] + seq![0xa1u8, extended_character]);
        }
        match self.xrecv_ok() {
            Ok(_) => {},
            Err(e) => { return Err(e) },
        }
        self.extended_character = extended_character;
        Ok(())
    }

    fn xstatus(&mut self) -> (r: Result<DeviceStatus, Error>) {
        match self.send_frame(&[0xa2]) {
            Ok(_) => {},
            Err(e) => { return Err(e) },
        }
        proof {
            assert(self.sent() =~= old(self).sent() + seq![old(self).ext()] + seq![0xa2u8]);
        }
        let value = match self.recv_u8() {
            Ok(b) => b,
            Err(e) => { return Err(e) },
        };
        Ok(device_status_from_byte(value))
    }

    fn xnop(&mut self) -> (r: Result<(), Error>) {
        match self.send_frame(&[0xc4]) {
            Ok(_) => {},
            Err(e) => { return Err(e) },
        }
        proof {
            assert(self.sent() =~= old(self).sent() + seq![old(self).ext()] + seq![0xc4u8]);
        }
        match self.xrecv_ok() {
            Ok(_) => {},
            Err(e) => { return Err(e) },
        }
        Ok(())
    }

    fn xsensor(&mut self, module: u8) -> (r: Result<[bool; 16], Error>) {
        match self.send_frame(&[0x98, module]) {
            Ok(_) => {},
            Err(e) => { return Err(e) },
        }
        proof {
            assert(self.sent() =~= old(self).sent() + seq![old(self).ext()] + seq![0x98u8, module]);
        }
        match self.xrecv_ok() {
            Ok(_) => {},
            Err(e) => { return Err(e) },
        }
        let ghost taken_after_ok = self.taken();
        let bitmap = match self.recv_u16() {
            Ok(v) => v,
            Err(e) => { return Err(e) },
        };
        let contacts = sensor_decode(bitmap);
        proof {
            let (lo, hi) = choose|lo: u8, hi: u8|
                #![auto]
                self.taken() == taken_after_ok + seq![lo, hi] && bitmap
                    == crate::protocol::spec_u16_le(lo, hi);
            assert(self.taken() =~= old(self).taken() + seq![0x00u8, lo, hi]);
        }
        Ok(contacts)
    }

    fn xsens_off(&mut self) -> (r: Result<(), Error>) {
        match self.send_frame(&[0x99]) {
            Ok(_) => {},
            Err(e) => { return Err(e) },
        }
        proof {
            assert(self.sent() =~= old(self).sent() + seq![old(self).ext()] + seq![0x99u8]);
        }
        match self.xrecv_ok() {
            Ok(_) => {},
            Err(e) => { return Err(e) },
        }
        Ok(())
    }

    fn x88p_get(&mut self, parameter: u8) -> (r: Result<u8, Error>) {
        match self.send_frame(&[0x9c, parameter]) {
            Ok(_) => {},
            Err(e) => { return Err(e) },
        }
        proof {
            assert(self.sent() =~= old(self).sent() + seq![old(self).ext()] + seq![0x9cu8, parameter]);
        }
        match self.xrecv_ok() {
            Ok(_) => {},
            Err(e) => { return Err(e) },
        }
        let value = match self.recv_u8() {
            Ok(v) => v,
            Err(e) => { return Err(e) },
        };
        proof {
            assert(self.taken() =~= old(self).taken() + seq![0x00u8, value]);
        }
        Ok(value)
    }

    fn x88p_set(&mut self, parameter: u8, value: u8) -> (r: Result<(), Error>) {
        match self.send_frame(&[0x9d, parameter, value]) {
            Ok(_) => {},
            Err(e) => { return Err(e) },
        }
        proof {
            assert(self.sent() =~= old(self).sent() + seq![old(self).ext()] + seq![0x9du8, parameter, value]);
        }
        match self.xrecv_ok() {
            Ok(_) => {},
            Err(e) => { return Err(e) },
        }
        Ok(())
    }

    fn xs88_timer(&mut self, timer: u8, reset: bool) -> (r: Result<u16, Error>) {
        match self.send_frame(&[0x9e, s88_param_encode(timer, reset)]) {
            Ok(_) => {},
            Err(e) => { return Err(e) },
        }
        proof {
            assert(self.sent() =~= old(self).sent() + seq![old(self).ext()] + seq![0x9eu8, crate::codec::spec_s88_param(timer, reset)]);
        }
        match self.xrecv_ok() {
            Ok(_) => {},
            Err(e) => { return Err(e) },
        }
        let ghost taken_after_ok = self.taken();
        let value = match self.recv_u16() {
            Ok(v) => v,
            Err(e) => { return Err(e) },
        };
        proof {
            let (lo, hi) = choose|lo: u8, hi: u8|
                #![auto]
                self.taken() == taken_after_ok + seq![lo, hi] && value
                    == crate::protocol::spec_u16_le(lo, hi);
            assert(self.taken() =~= old(self).taken() + seq![0x00u8, lo, hi]);
        }
        Ok(value)
    }

    fn xs88_count(&mut self, timer: u8, reset: bool) -> (r: Result<u16, Error>) {
        match self.send_frame(&[0x9f, s88_param_encode(timer, reset)]) {
            Ok(_) => {},
            Err(e) => { return Err(e) },
        }
        proof {
            assert(self.sent() =~= old(self).sent() + seq![old(self).ext()] + seq![0x9fu8, crate::codec::spec_s88_param(timer, reset)]);
        }
        match self.xrecv_ok() {
            Ok(_) => {},
            Err(e) => { return Err(e) },
        }
        let ghost taken_after_ok = self.taken();
        let value = match self.recv_u16() {
            Ok(v) => v,
            Err(e) => { return Err(e) },
        };
        proof {
            let (lo, hi) = choose|lo: u8, hi: u8|
                #![auto]
                self.taken() == taken_after_ok + seq![lo, hi] && value
                    == crate::protocol::spec_u16_le(lo, hi);
            assert(self.taken() =~= old(self).taken() + seq![0x00u8, lo, hi]);
        }
        Ok(value)
    }

    fn xlok(&mut self, address: u16, speed: i8, options: XLokOptions) -> (r: Result<(), Error>) {
        let (speed_byte, config) = lok_command_bytes(speed, &options);
        let lo = (address % 0x100) as u8;
        let hi = (address / 0x100) as u8;
        match self.send_frame(&[0x80, lo, hi, speed_byte, config]) {
            Ok(_) => {},
            Err(e) => { return Err(e) },
        }
        proof {
            assert(self.sent() =~= old(self).sent() + seq![old(self).ext()] + seq![0x80u8, crate::codec::spec_lo8(address), crate::codec::spec_hi8(address), crate::codec::spec_lok_speed_byte(speed, options), crate::codec::spec_lok_config_byte(speed, options)]);
        }
        match self.xrecv_ok() {
            Ok(_) => {},
            Err(e) => { return Err(e) },
        }
        Ok(())
    }

    fn xlok_status(&mut self, address: u16) -> (r: Result<XLokStatus, Error>) {
        let lo = (address % 0x100) as u8;
        let hi = (address / 0x100) as u8;
        match self.send_frame(&[0x84, lo, hi]) {
            Ok(_) => {},
            Err(e) => { return Err(e) },
        }
        proof {
            assert(self.sent() =~= old(self).sent() + seq![old(self).ext()] + seq![0x84u8, crate::codec::spec_lo8(address), crate::codec::spec_hi8(address)]);
        }
        match self.xrecv_ok() {
            Ok(_) => {},
            Err(e) => { return Err(e) },
        }
        let speed_byte = match self.recv_u8() {
            Ok(b) => b,
            Err(e) => { return Err(e) },
        };
        let config = match self.recv_u8() {
            Ok(b) => b,
            Err(e) => { return Err(e) },
        };
        let real_speed_byte = match self.recv_u8() {
            Ok(b) => b,
            Err(e) => { return Err(e) },
        };
        let status = lok_status_decode(speed_byte, config, real_speed_byte);
        proof {
            assert(self.taken() =~= old(self).taken() + seq![
                0x00u8,
                speed_byte,
                config,
                real_speed_byte,
            ]);
        }
        Ok(status)
    }

    fn xlok_config(&mut self, address: u16) -> (r: Result<XLokConfig, Error>) {
        let lo = (address % 0x100) as u8;
        let hi = (address / 0x100) as u8;
        match self.send_frame(&[0x85, lo, hi]) {
            Ok(_) => {},
            Err(e) => { return Err(e) },
        }
        proof {
            assert(self.sent() =~= old(self).sent() + seq![old(self).ext()] + seq![0x85u8, crate::codec::spec_lo8(address), crate::codec::spec_hi8(address)]);
        }
        match self.xrecv_ok() {
            Ok(_) => {},
            Err(e) => { return Err(e) },
        }
        let protocol_byte = match self.recv_u8() {
            Ok(b) => b,
            Err(e) => { return Err(e) },
        };
        let speed_steps = match self.recv_u8() {
            Ok(b) => b,
            Err(e) => { return Err(e) },
        };
        let ghost taken_before_addr = self.taken();
        let virtual_address_value = match self.recv_u16() {
            Ok(v) => v,
            Err(e) => { return Err(e) },
        };
        let config = lok_config_decode(protocol_byte, speed_steps, virtual_address_value);
        proof {
            let (lo, hi) = choose|lo: u8, hi: u8|
                #![auto]
                self.taken() == taken_before_addr + seq![lo, hi] && virtual_address_value
                    == crate::protocol::spec_u16_le(lo, hi);
            assert(self.taken() =~= old(self).taken() + seq![
                0x00u8,
                protocol_byte,
                speed_steps,
                lo,
                hi,
            ]);
        }
        Ok(config)
    }

    fn xlok_dispatch(&mut self, address: u16) -> (r: Result<Option<u8>, Error>) {
        let lo = (address % 0x100) as u8;
        let hi = (address / 0x100) as u8;
        match self.send_frame(&[0x83, lo, hi]) {
            Ok(_) => {},
            Err(e) => { return Err(e) },
        }
        proof {
            assert(self.sent() =~= old(self).sent() + seq![old(self).ext()] + seq![0x83u8, crate::codec::spec_lo8(address), crate::codec::spec_hi8(address)]);
        }
        if address >= 0x100 {
            let value = match self.recv_u8() {
                Ok(b) => b,
                Err(e) => { return Err(e) },
            };
            Ok(Some(value))
        } else {
            match self.xrecv_ok() {
                Ok(_) => {},
                Err(e) => { return Err(e) },
            }
            Ok(None)
        }
    }

    fn xfunc(&mut self, address: u16, functions: [bool; 8]) -> (r: Result<(), Error>) {
        let mask = functions_encode(&functions);
        let lo = (address % 0x100) as u8;
        let hi = (address / 0x100) as u8;
        match self.send_frame(&[0x88, lo, hi, mask]) {
            Ok(_) => {},
            Err(e) => { return Err(e) },
        }
        proof {
            assert(self.sent() =~= old(self).sent() + seq![old(self).ext()] + seq![0x88u8, crate::codec::spec_lo8(address), crate::codec::spec_hi8(address), mask]);
        }
        match self.xrecv_ok() {
            Ok(_) => {},
            Err(e) => { return Err(e) },
        }
        Ok(())
    }

    fn xfunc_status(&mut self, address: u16) -> (r: Result<[bool; 8], Error>) {
        let lo = (address % 0x100) as u8;
        let hi = (address / 0x100) as u8;
        match self.send_frame(&[0x8c, lo, hi]) {
            Ok(_) => {},
            Err(e) => { return Err(e) },
        }
        proof {
            assert(self.sent() =~= old(self).sent() + seq![old(self).ext()] + seq![0x8cu8, crate::codec::spec_lo8(address), crate::codec::spec_hi8(address)]);
        }
        match self.xrecv_ok() {
            Ok(_) => {},
            Err(e) => { return Err(e) },
        }
        let mask = match self.recv_u8() {
            Ok(b) => b,
            Err(e) => { return Err(e) },
        };
        let functions = functions_decode(mask);
        proof {
            assert(self.taken() =~= old(self).taken() + seq![0x00u8, mask]);
        }
        Ok(functions)
    }

    fn xfuncx(&mut self, address: u16, functions: [bool; 8]) -> (r: Result<(), Error>) {
        let mask = functions_encode(&functions);
        let lo = (address % 0x100) as u8;
        let hi = (address / 0x100) as u8;
        match self.send_frame(&[0x89, lo, hi, mask]) {
            Ok(_) => {},
            Err(e) => { return Err(e) },
        }
        proof {
            assert(self.sent() =~= old(self).sent() + seq![old(self).ext()] + seq![0x89u8, crate::codec::spec_lo8(address), crate::codec::spec_hi8(address), mask]);
        }
        match self.xrecv_ok() {
            Ok(_) => {},
            Err(e) => { return Err(e) },
        }
        Ok(())
    }

    fn xfuncx_status(&mut self, address: u16) -> (r: Result<[bool; 8], Error>) {
        let lo = (address % 0x100) as u8;
        let hi = (address / 0x100) as u8;
        match self.send_frame(&[0x8d, lo, hi]) {
            Ok(_) => {},
            Err(e) => { return Err(e) },
        }
        proof {
            assert(self.sent() =~= old(self).sent() + seq![old(self).ext()] + seq![0x8du8, crate::codec::spec_lo8(address), crate::codec::spec_hi8(address)]);
        }
        match self.xrecv_ok() {
            Ok(_) => {},
            Err(e) => { return Err(e) },
        }
        let mask = match self.recv_u8() {
            Ok(b) => b,
            Err(e) => { return Err(e) },
        };
        let functions = functions_decode(mask);
        proof {
            assert(self.taken() =~= old(self).taken() + seq![0x00u8, mask]);
        }
        Ok(functions)
    }

    fn xturnout(&mut self, address: u16, state: bool, options: XTurnoutOptions) -> (r: Result<
        (),
        Error,
    >) {
        let (lo, packed) = turnout_command_bytes(address, state, &options);
        match self.send_frame(&[0x90, lo, packed]) {
            Ok(_) => {},
            Err(e) => { return Err(e) },
        }
        proof {
            assert(self.sent() =~= old(self).sent() + seq![old(self).ext()] + seq![0x90u8, crate::codec::spec_lo8(address), crate::codec::spec_turnout_packed(address, state, options)]);
        }
        match self.xrecv_ok() {
            Ok(_) => {},
            Err(e) => { return Err(e) },
        }
        Ok(())
    }

    fn xturnout_free(&mut self) -> (r: Result<(), Error>) {
        match self.send_frame(&[0x93]) {
            Ok(_) => {},
            Err(e) => { return Err(e) },
        }
        proof {
            assert(self.sent() =~= old(self).sent() + seq![old(self).ext()] + seq![0x93u8]);
        }
        match self.xrecv_ok() {
            Ok(_) => {},
            Err(e) => { return Err(e) },
        }
        Ok(())
    }

    fn xturnout_status(&mut self, address: u16) -> (r: Result<XTurnoutStatus, Error>) {
        let lo = (address % 0x100) as u8;
        let hi = (address / 0x100) as u8;
        match self.send_frame(&[0x94, lo, hi]) {
            Ok(_) => {},
            Err(e) => { return Err(e) },
        }
        proof {
            assert(self.sent() =~= old(self).sent() + seq![old(self).ext()] + seq![0x94u8, crate::codec::spec_lo8(address), crate::codec::spec_hi8(address)]);
        }
        match self.xrecv_ok() {
            Ok(_) => {},
            Err(e) => { return Err(e) },
        }
        let value = match self.recv_u8() {
            Ok(b) => b,
            Err(e) => { return Err(e) },
        };
        let status = turnout_status_decode(value);
        proof {
            assert(self.taken() =~= old(self).taken() + seq![0x00u8, value]);
        }
        Ok(status)
    }

    fn xturnout_group(&mut self, group_address: u8) -> (r: Result<[(bool, bool); 8], Error>) {
        match self.send_frame(&[0x95, group_address]) {
            Ok(_) => {},
            Err(e) => { return Err(e) },
        }
        proof {
            assert(self.sent() =~= old(self).sent() + seq![old(self).ext()] + seq![0x95u8, group_address]);
        }
        match self.xrecv_ok() {
            Ok(_) => {},
            Err(e) => { return Err(e) },
        }
        let state_mask = match self.recv_u8() {
            Ok(b) => b,
            Err(e) => { return Err(e) },
        };
        let reserved_mask = match self.recv_u8() {
            Ok(b) => b,
            Err(e) => { return Err(e) },
        };
        let group = turnout_group_decode(state_mask, reserved_mask);
        proof {
            assert(self.taken() =~= old(self).taken() + seq![0x00u8, state_mask, reserved_mask]);
        }
        Ok(group)
    }
}

} // verus!
