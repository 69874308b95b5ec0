//! The P50X command surface, one method per protocol operation, with the
//! exact wire traffic of every command as its contract.
//!
//! Every command writes the extended-character prefix, the opcode and the
//! operand bytes, then reads one reply byte and, for some opcodes, a
//! trailing payload.  [`spec_exchange`] states one such exchange: what
//! the handle sent and what it consumed from the reply stream.

use vstd::prelude::*;

use crate::codec::{
    spec_device_status_of_byte, spec_hi8, spec_lo8, spec_lok_config_byte, spec_lok_speed_byte,
    spec_lok_status_matches, spec_protocol_of_byte, spec_s88_param, spec_turnout_packed,
    spec_turnout_protocol_byte, DeviceStatus, XLokConfig, XLokOptions, XLokStatus,
    XTurnoutOptions, XTurnoutStatus,
};
use crate::reply::{spec_reply_of_byte, P50XReply};
use crate::transport::Error;

verus! {

/// The `u16` carried little-endian by two wire bytes.
pub open spec fn spec_u16_le(lo: u8, hi: u8) -> u16 {
    (lo + hi * 0x100) as u16
}

/// Splitting a `u16` into its little-endian bytes and reassembling them
/// gives the value back.
pub proof fn lemma_u16_le_round_trip(value: u16)
    ensures
        spec_u16_le(spec_lo8(value), spec_hi8(value)) == value,
{
    vstd::arithmetic::div_mod::lemma_fundamental_div_mod(value as int, 0x100);
}

/// The four little-endian wire bytes of a `u32`.
pub open spec fn spec_u32_le_bytes(value: u32) -> Seq<u8> {
    seq![
        (value % 0x100) as u8,
        ((value / 0x100) % 0x100) as u8,
        ((value / 0x10000) % 0x100) as u8,
        (value / 0x1000000) as u8,
    ]
}

/// One completed command exchange: the handle sent its extended
/// character, then `body` (opcode and operands), and consumed exactly
/// `resp` from the reply stream.  The first five arguments are the
/// handle's histories and extended character before and after the call.
pub open spec fn spec_exchange(
    pre_sent: Seq<u8>,
    pre_taken: Seq<u8>,
    pre_ext: u8,
    post_sent: Seq<u8>,
    post_taken: Seq<u8>,
    body: Seq<u8>,
    resp: Seq<u8>,
) -> bool {
    &&& post_sent == pre_sent + seq![pre_ext] + body
    &&& post_taken == pre_taken + resp
}

/// The errors a command on an open handle can surface: a transport or
/// text-encoding failure, an unacceptable known reply, or bytes that fit
/// no expected shape.  `UnknownDevice` is reserved for the handshake.
pub open spec fn spec_command_error(e: Error) -> bool {
    ||| e matches Error::Transport(_)
    ||| e is Encoding
    ||| e matches Error::ProtocolReply(_)
    ||| e matches Error::UnknownResponse(_)
}

/// On failure the frame of a command is written whole, at most once:
/// either nothing was sent, or exactly the extended character followed by
/// `body` — never a retry, never a partial frame.
pub open spec fn spec_frame_once(
    pre_sent: Seq<u8>,
    post_sent: Seq<u8>,
    pre_ext: u8,
    body: Seq<u8>,
) -> bool {
    ||| post_sent == pre_sent
    ||| post_sent == pre_sent + seq![pre_ext] + body
}

/// The reply stream was consumed in order and grew by at most `limit`
/// bytes: what an aborted command may take without disturbing the bytes
/// that belong to the next one.
pub open spec fn spec_consumed_at_most(pre_taken: Seq<u8>, post_taken: Seq<u8>, limit: int) -> bool {
    pre_taken.is_prefix_of(post_taken) && post_taken.len() <= pre_taken.len() + limit
}

/// A failed command classified a known reply byte the command does not
/// accept: the error carries its kind, and exactly that byte was
/// consumed.
pub open spec fn spec_protocol_reply_err(
    pre_taken: Seq<u8>,
    post_taken: Seq<u8>,
    kind: P50XReply,
) -> bool {
    &&& kind != P50XReply::Okay
    &&& kind != P50XReply::Unknown
    &&& exists|b: u8| #![auto] post_taken == pre_taken + seq![b] && kind == spec_reply_of_byte(b)
}

/// A transport or text-encoding failure never consumes a complete reply:
/// either nothing was consumed, or a strictly incomplete payload that
/// opens with the success byte (`full_len` is the length of the complete
/// successful reply).
pub open spec fn spec_partial_response(
    pre_taken: Seq<u8>,
    post_taken: Seq<u8>,
    full_len: int,
) -> bool {
    ||| post_taken == pre_taken
    ||| (pre_taken.len() < post_taken.len() < pre_taken.len() + full_len && post_taken[
        pre_taken.len() as int
    ] == 0x00 && pre_taken.is_prefix_of(post_taken))
}

/// A well-formed `xversion` payload: length-prefixed chunks, closed by a
/// zero length byte that is part of the payload.
pub open spec fn spec_version_stream(s: Seq<u8>) -> bool
    decreases s.len(),
{
    if s.len() == 0 {
        false
    } else {
        let l = s[0] as int;
        if l == 0 {
            s.len() == 1
        } else if s.len() < l + 2 {
            false
        } else {
            spec_version_stream(s.skip(l + 1))
        }
    }
}

/// Zero or more complete nonempty length-prefixed chunks, with no
/// terminator yet.
pub open spec fn spec_version_chunks(s: Seq<u8>) -> bool
    decreases s.len(),
{
    if s.len() == 0 {
        true
    } else {
        let l = s[0] as int;
        l > 0 && s.len() >= l + 1 && spec_version_chunks(s.skip(l + 1))
    }
}

/// Appending one more complete chunk keeps a chunk sequence well formed.
pub proof fn lemma_version_chunks_append(s: Seq<u8>, l: u8, c: Seq<u8>)
    requires
        spec_version_chunks(s),
        l > 0,
        c.len() == l,
    ensures
        spec_version_chunks(s + seq![l] + c),
    decreases s.len(),
{
    let whole = s + seq![l] + c;
    if s.len() == 0 {
        assert(whole.len() == l + 1);
        assert(whole[0] == l);
        assert(whole.skip(l + 1) =~= Seq::<u8>::empty());
        assert(spec_version_chunks(Seq::<u8>::empty()));
        assert(spec_version_chunks(whole));
    } else {
        let l0 = s[0] as int;
        lemma_version_chunks_append(s.skip(l0 + 1), l, c);
        assert(whole[0] == s[0]);
        assert(whole.len() >= l0 + 1);
        assert(whole.skip(l0 + 1) =~= s.skip(l0 + 1) + seq![l] + c);
        assert(spec_version_chunks(whole));
    }
}

/// A chunk sequence followed by the zero terminator is a well-formed
/// `xversion` payload.
pub proof fn lemma_version_chunks_terminated(s: Seq<u8>)
    requires
        spec_version_chunks(s),
    ensures
        spec_version_stream(s + seq![0u8]),
    decreases s.len(),
{
    let whole = s + seq![0u8];
    if s.len() == 0 {
        assert(whole =~= seq![0u8]);
    } else {
        let l0 = s[0] as int;
        lemma_version_chunks_terminated(s.skip(l0 + 1));
        assert(whole.skip(l0 + 1) =~= s.skip(l0 + 1) + seq![0u8]);
    }
}

/// A chunk sequence without its terminator is not a complete `xversion`
/// payload.
pub proof fn lemma_chunks_not_stream(s: Seq<u8>)
    requires
        spec_version_chunks(s),
    ensures
        !spec_version_stream(s),
    decreases s.len(),
{
    if s.len() > 0 {
        let l0 = s[0] as int;
        lemma_chunks_not_stream(s.skip(l0 + 1));
    }
}

/// A chunk sequence followed by a dangling nonzero length byte is not a
/// complete `xversion` payload either.
pub proof fn lemma_chunks_dangling_not_stream(s: Seq<u8>, l: u8)
    requires
        spec_version_chunks(s),
        l > 0,
    ensures
        !spec_version_stream(s + seq![l]),
    decreases s.len(),
{
    let whole = s + seq![l];
    if s.len() == 0 {
        assert(whole =~= seq![l]);
    } else {
        let l0 = s[0] as int;
        lemma_chunks_dangling_not_stream(s.skip(l0 + 1), l);
        assert(whole.skip(l0 + 1) =~= s.skip(l0 + 1) + seq![l]);
    }
}

/// The aggregate P50X command surface of a connected device handle.
///
/// `sent()` and `taken()` are the handle's histories: every byte handed
/// to the transport, and every byte of the reply stream the engine has
/// consumed (bytes the transport delivered early sit in the read-ahead
/// buffer and are not yet `taken`).  `ext()` is the current
/// extended-character prefix and `wf()` the handle invariant.
pub trait P50XBinary: Sized {
    /// The handle invariant: the read-ahead buffer is consistent with
    /// the transport history.
    spec fn wf(&self) -> bool;

    /// Every byte handed to the transport so far.
    spec fn sent(&self) -> Seq<u8>;

    /// Every reply-stream byte the engine has consumed so far.
    spec fn taken(&self) -> Seq<u8>;

    /// Every byte the transport has delivered so far, consumed or not.
    spec fn delivered(&self) -> Seq<u8>;

    /// The delivered bytes not yet consumed: the read-ahead buffer,
    /// oldest first.
    spec fn buffered(&self) -> Seq<u8>;

    /// The current extended-character prefix (initially `0x58`).
    spec fn ext(&self) -> u8;

    /// On a well-formed handle the delivery history splits into the
    /// consumed bytes followed by the read-ahead buffer, so the buffer
    /// is determined by `delivered()` and `taken()`.
    proof fn lemma_history_split(&self)
        requires
            self.wf(),
        ensures
            self.delivered() == self.taken() + self.buffered(),
    ;

    /// Turn track power off (opcode `0xA6`).
    fn xpower_off(&mut self) -> (r: Result<(), Error>)
        requires
            old(self).wf(),
        ensures
            final(self).wf(),
            final(self).ext() == old(self).ext(),
            r matches Err(e) ==> spec_command_error(e),
            r is Err ==> spec_frame_once(old(self).sent(), final(self).sent(), old(self).ext(), seq![0xa6u8]),
            r is Err ==> spec_consumed_at_most(old(self).taken(), final(self).taken(), 1),
            r matches Err(Error::ProtocolReply(kind)) ==> spec_protocol_reply_err(
                old(self).taken(),
                final(self).taken(),
                kind,
            ),
            r matches Err(Error::UnknownResponse(bytes)) ==> bytes@.len() == 1
                && spec_reply_of_byte(bytes@[0]) == P50XReply::Unknown && final(self).taken()
                == old(self).taken() + bytes@,
            r matches Err(e) ==> ((e matches Error::Transport(_) || e is Encoding)
                ==> spec_partial_response(old(self).taken(), final(self).taken(), 1)),
            r is Ok ==> spec_exchange(old(self).sent(), old(self).taken(), old(self).ext(), final(self).sent(), final(self).taken(), seq![0xa6u8], seq![0x00u8]),
    ;

    /// Turn track power on (opcode `0xA7`).  Returns `false`, not an
    /// error, when the unit answers `PowerOff` (power could not be
    /// turned on).
    fn xpower_on(&mut self) -> (r: Result<bool, Error>)
        requires
            old(self).wf(),
        ensures
            final(self).wf(),
            final(self).ext() == old(self).ext(),
            r matches Err(e) ==> spec_command_error(e),
            r is Err ==> spec_frame_once(old(self).sent(), final(self).sent(), old(self).ext(), seq![0xa7u8]),
            r is Err ==> spec_consumed_at_most(old(self).taken(), final(self).taken(), 1),
            r matches Err(Error::ProtocolReply(kind)) ==> spec_protocol_reply_err(
                old(self).taken(),
                final(self).taken(),
                kind,
            ),
            r matches Err(Error::UnknownResponse(bytes)) ==> bytes@.len() == 1
                && spec_reply_of_byte(bytes@[0]) == P50XReply::Unknown && final(self).taken()
                == old(self).taken() + bytes@,
            r matches Err(e) ==> ((e matches Error::Transport(_) || e is Encoding)
                ==> spec_partial_response(old(self).taken(), final(self).taken(), 1)),
            r matches Err(Error::ProtocolReply(kind)) ==> kind != P50XReply::PowerOff,
            r matches Ok(true) ==> spec_exchange(old(self).sent(), old(self).taken(), old(self).ext(), final(self).sent(), final(self).taken(), seq![0xa7u8], seq![
                0x00u8,
            ]),
            r matches Ok(false) ==> spec_exchange(old(self).sent(), old(self).taken(), old(self).ext(), final(self).sent(), final(self).taken(), seq![0xa7u8], seq![
                0x06u8,
            ]),
    ;

    /// Stop all locomotives but keep power on (opcode `0xA5`).
    fn xhalt(&mut self) -> (r: Result<(), Error>)
        requires
            old(self).wf(),
        ensures
            final(self).wf(),
            final(self).ext() == old(self).ext(),
            r matches Err(e) ==> spec_command_error(e),
            r is Err ==> spec_frame_once(old(self).sent(), final(self).sent(), old(self).ext(), seq![0xa5u8]),
            r is Err ==> spec_consumed_at_most(old(self).taken(), final(self).taken(), 1),
            r matches Err(Error::ProtocolReply(kind)) ==> spec_protocol_reply_err(
                old(self).taken(),
                final(self).taken(),
                kind,
            ),
            r matches Err(Error::UnknownResponse(bytes)) ==> bytes@.len() == 1
                && spec_reply_of_byte(bytes@[0]) == P50XReply::Unknown && final(self).taken()
                == old(self).taken() + bytes@,
            r matches Err(e) ==> ((e matches Error::Transport(_) || e is Encoding)
                ==> spec_partial_response(old(self).taken(), final(self).taken(), 1)),
            r is Ok ==> spec_exchange(old(self).sent(), old(self).taken(), old(self).ext(), final(self).sent(), final(self).taken(), seq![0xa5u8], seq![0x00u8]),
    ;

    /// Set a special option register (opcode `0xA3`).
    fn xso_set(&mut self, special_option: u16, value: u8) -> (r: Result<(), Error>)
        requires
            old(self).wf(),
        ensures
            final(self).wf(),
            final(self).ext() == old(self).ext(),
            r matches Err(e) ==> spec_command_error(e),
            r is Err ==> spec_frame_once(old(self).sent(), final(self).sent(), old(self).ext(), seq![0xa3u8, spec_lo8(special_option), spec_hi8(special_option), value]),
            r is Err ==> spec_consumed_at_most(old(self).taken(), final(self).taken(), 1),
            r matches Err(Error::ProtocolReply(kind)) ==> spec_protocol_reply_err(
                old(self).taken(),
                final(self).taken(),
                kind,
            ),
            r matches Err(Error::UnknownResponse(bytes)) ==> bytes@.len() == 1
                && spec_reply_of_byte(bytes@[0]) == P50XReply::Unknown && final(self).taken()
                == old(self).taken() + bytes@,
            r matches Err(e) ==> ((e matches Error::Transport(_) || e is Encoding)
                ==> spec_partial_response(old(self).taken(), final(self).taken(), 1)),
            r is Ok ==> spec_exchange(
                old(self).sent(),
                old(self).taken(),
                old(self).ext(),
                final(self).sent(),
                final(self).taken(),
                seq![0xa3u8, spec_lo8(special_option), spec_hi8(special_option), value],
                seq![0x00u8],
            ),
    ;

    /// Read a special option register (opcode `0xA4`).  Returns `None`,
    /// not an error, when the unit answers `BadParameter` (no such
    /// option).
    fn xso_get(&mut self, special_option: u16) -> (r: Result<Option<u8>, Error>)
        requires
            old(self).wf(),
        ensures
            final(self).wf(),
            final(self).ext() == old(self).ext(),
            r matches Err(e) ==> spec_command_error(e),
            r is Err ==> spec_frame_once(old(self).sent(), final(self).sent(), old(self).ext(), seq![0xa4u8, spec_lo8(special_option), spec_hi8(special_option)]),
            r is Err ==> spec_consumed_at_most(old(self).taken(), final(self).taken(), 2),
            r matches Err(Error::ProtocolReply(kind)) ==> spec_protocol_reply_err(
                old(self).taken(),
                final(self).taken(),
                kind,
            ),
            r matches Err(Error::UnknownResponse(bytes)) ==> bytes@.len() == 1
                && spec_reply_of_byte(bytes@[0]) == P50XReply::Unknown && final(self).taken()
                == old(self).taken() + bytes@,
            r matches Err(e) ==> ((e matches Error::Transport(_) || e is Encoding)
                ==> spec_partial_response(old(self).taken(), final(self).taken(), 2)),
            r matches Err(Error::ProtocolReply(kind)) ==> kind != P50XReply::BadParameter,
            r matches Ok(Some(value)) ==> spec_exchange(
                old(self).sent(),
                old(self).taken(),
                old(self).ext(),
                final(self).sent(),
                final(self).taken(),
                seq![0xa4u8, spec_lo8(special_option), spec_hi8(special_option)],
                seq![0x00u8, value],
            ),
            r matches Ok(None) ==> spec_exchange(
                old(self).sent(),
                old(self).taken(),
                old(self).ext(),
                final(self).sent(),
                final(self).taken(),
                seq![0xa4u8, spec_lo8(special_option), spec_hi8(special_option)],
                seq![0x02u8],
            ),
    ;

    /// Read the firmware version blob (opcode `0xA0`): length-prefixed
    /// chunks up to and including the zero terminator byte.
    fn xversion(&mut self) -> (r: Result<Vec<u8>, Error>)
        requires
            old(self).wf(),
        ensures
            final(self).wf(),
            final(self).ext() == old(self).ext(),
            r matches Err(e) ==> spec_command_error(e),
            r is Err ==> spec_frame_once(old(self).sent(), final(self).sent(), old(self).ext(), seq![0xa0u8]),
            r is Err ==> old(self).taken().is_prefix_of(final(self).taken()),
            r matches Err(Error::ProtocolReply(kind)) ==> spec_protocol_reply_err(
                old(self).taken(),
                final(self).taken(),
                kind,
            ),
            r matches Err(Error::UnknownResponse(bytes)) ==> final(self).taken()
                == old(self).taken() + bytes@ && spec_version_chunks(bytes@) && bytes@.len()
                >= 0x200,
            r matches Err(e) ==> ((e matches Error::Transport(_) || e is Encoding)
                ==> !spec_version_stream(
                final(self).taken().skip(old(self).taken().len() as int),
            )),
            r matches Ok(data) ==> spec_exchange(old(self).sent(), old(self).taken(), old(self).ext(), final(self).sent(), final(self).taken(), seq![0xa0u8], data@)
                && spec_version_stream(data@),
    ;

    /// Change the extended-character prefix (opcode `0xA1`).  On success
    /// every later command is prefixed with the new byte.
    fn xp50xch(&mut self, extended_character: u8) -> (r: Result<(), Error>)
        requires
            old(self).wf(),
        ensures
            final(self).wf(),
            r matches Err(e) ==> spec_command_error(e),
            r is Err ==> spec_frame_once(old(self).sent(), final(self).sent(), old(self).ext(), seq![0xa1u8, extended_character]),
            r is Err ==> spec_consumed_at_most(old(self).taken(), final(self).taken(), 1),
            r matches Err(Error::ProtocolReply(kind)) ==> spec_protocol_reply_err(
                old(self).taken(),
                final(self).taken(),
                kind,
            ),
            r matches Err(Error::UnknownResponse(bytes)) ==> bytes@.len() == 1
                && spec_reply_of_byte(bytes@[0]) == P50XReply::Unknown && final(self).taken()
                == old(self).taken() + bytes@,
            r matches Err(e) ==> ((e matches Error::Transport(_) || e is Encoding)
                ==> spec_partial_response(old(self).taken(), final(self).taken(), 1)),
            r is Ok ==> final(self).ext() == extended_character && spec_exchange(
                old(self).sent(),
                old(self).taken(),
                old(self).ext(),
                final(self).sent(),
                final(self).taken(),
                seq![0xa1u8, extended_character],
                seq![0x00u8],
            ),
            r is Err ==> final(self).ext() == old(self).ext(),
    ;

    /// Read the unit's status byte (opcode `0xA2`).  The reply is the
    /// bit-packed status byte itself, with no leading reply code.
    fn xstatus(&mut self) -> (r: Result<DeviceStatus, Error>)
        requires
            old(self).wf(),
        ensures
            final(self).wf(),
            final(self).ext() == old(self).ext(),
            r matches Err(e) ==> (e matches Error::Transport(_) || e is Encoding),
            r matches Err(e) ==> spec_command_error(e),
            r is Err ==> spec_frame_once(old(self).sent(), final(self).sent(), old(self).ext(), seq![0xa2u8]),
            r is Err ==> spec_consumed_at_most(old(self).taken(), final(self).taken(), 1),
            r matches Err(Error::ProtocolReply(kind)) ==> spec_protocol_reply_err(
                old(self).taken(),
                final(self).taken(),
                kind,
            ),
            r matches Err(Error::UnknownResponse(bytes)) ==> bytes@.len() == 1
                && spec_reply_of_byte(bytes@[0]) == P50XReply::Unknown && final(self).taken()
                == old(self).taken() + bytes@,
            r matches Err(e) ==> ((e matches Error::Transport(_) || e is Encoding)
                ==> spec_partial_response(old(self).taken(), final(self).taken(), 1)),
            r matches Ok(status) ==> exists|b: u8|
                #![auto]
                spec_exchange(old(self).sent(), old(self).taken(), old(self).ext(), final(self).sent(), final(self).taken(), seq![0xa2u8], seq![b]) && status
                    == spec_device_status_of_byte(b),
    ;

    /// Do nothing (opcode `0xC4`); the unit still answers a reply byte.
    fn xnop(&mut self) -> (r: Result<(), Error>)
        requires
            old(self).wf(),
        ensures
            final(self).wf(),
            final(self).ext() == old(self).ext(),
            r matches Err(e) ==> spec_command_error(e),
            r is Err ==> spec_frame_once(old(self).sent(), final(self).sent(), old(self).ext(), seq![0xc4u8]),
            r is Err ==> spec_consumed_at_most(old(self).taken(), final(self).taken(), 1),
            r matches Err(Error::ProtocolReply(kind)) ==> spec_protocol_reply_err(
                old(self).taken(),
                final(self).taken(),
                kind,
            ),
            r matches Err(Error::UnknownResponse(bytes)) ==> bytes@.len() == 1
                && spec_reply_of_byte(bytes@[0]) == P50XReply::Unknown && final(self).taken()
                == old(self).taken() + bytes@,
            r matches Err(e) ==> ((e matches Error::Transport(_) || e is Encoding)
                ==> spec_partial_response(old(self).taken(), final(self).taken(), 1)),
            r is Ok ==> spec_exchange(old(self).sent(), old(self).taken(), old(self).ext(), final(self).sent(), final(self).taken(), seq![0xc4u8], seq![0x00u8]),
    ;

    /// Read a feedback module's 16 contact bits (opcode `0x98`); bit `i`
    /// of the little-endian bitmap becomes element `i`.
    fn xsensor(&mut self, module: u8) -> (r: Result<[bool; 16], Error>)
        requires
            old(self).wf(),
        ensures
            final(self).wf(),
            final(self).ext() == old(self).ext(),
            r matches Err(e) ==> spec_command_error(e),
            r is Err ==> spec_frame_once(old(self).sent(), final(self).sent(), old(self).ext(), seq![0x98u8, module]),
            r is Err ==> spec_consumed_at_most(old(self).taken(), final(self).taken(), 3),
            r matches Err(Error::ProtocolReply(kind)) ==> spec_protocol_reply_err(
                old(self).taken(),
                final(self).taken(),
                kind,
            ),
            r matches Err(Error::UnknownResponse(bytes)) ==> bytes@.len() == 1
                && spec_reply_of_byte(bytes@[0]) == P50XReply::Unknown && final(self).taken()
                == old(self).taken() + bytes@,
            r matches Err(e) ==> ((e matches Error::Transport(_) || e is Encoding)
                ==> spec_partial_response(old(self).taken(), final(self).taken(), 3)),
            r matches Ok(contacts) ==> exists|lo: u8, hi: u8|
                #![auto]
                spec_exchange(old(self).sent(), old(self).taken(), old(self).ext(), final(self).sent(), final(self).taken(), seq![0x98u8, module], seq![0x00u8, lo, hi])
                    && forall|i: int|
                    0 <= i < 16 ==> contacts[i] == ((spec_u16_le(lo, hi) >> (i as u16)) & 1 != 0),
    ;

    /// Stop unsolicited sensor reports (opcode `0x99`).
    fn xsens_off(&mut self) -> (r: Result<(), Error>)
        requires
            old(self).wf(),
        ensures
            final(self).wf(),
            final(self).ext() == old(self).ext(),
            r matches Err(e) ==> spec_command_error(e),
            r is Err ==> spec_frame_once(old(self).sent(), final(self).sent(), old(self).ext(), seq![0x99u8]),
            r is Err ==> spec_consumed_at_most(old(self).taken(), final(self).taken(), 1),
            r matches Err(Error::ProtocolReply(kind)) ==> spec_protocol_reply_err(
                old(self).taken(),
                final(self).taken(),
                kind,
            ),
            r matches Err(Error::UnknownResponse(bytes)) ==> bytes@.len() == 1
                && spec_reply_of_byte(bytes@[0]) == P50XReply::Unknown && final(self).taken()
                == old(self).taken() + bytes@,
            r matches Err(e) ==> ((e matches Error::Transport(_) || e is Encoding)
                ==> spec_partial_response(old(self).taken(), final(self).taken(), 1)),
            r is Ok ==> spec_exchange(old(self).sent(), old(self).taken(), old(self).ext(), final(self).sent(), final(self).taken(), seq![0x99u8], seq![0x00u8]),
    ;

    /// Read an s88 bus parameter (opcode `0x9C`).
    fn x88p_get(&mut self, parameter: u8) -> (r: Result<u8, Error>)
        requires
            old(self).wf(),
        ensures
            final(self).wf(),
            final(self).ext() == old(self).ext(),
            r matches Err(e) ==> spec_command_error(e),
            r is Err ==> spec_frame_once(old(self).sent(), final(self).sent(), old(self).ext(), seq![0x9cu8, parameter]),
            r is Err ==> spec_consumed_at_most(old(self).taken(), final(self).taken(), 2),
            r matches Err(Error::ProtocolReply(kind)) ==> spec_protocol_reply_err(
                old(self).taken(),
                final(self).taken(),
                kind,
            ),
            r matches Err(Error::UnknownResponse(bytes)) ==> bytes@.len() == 1
                && spec_reply_of_byte(bytes@[0]) == P50XReply::Unknown && final(self).taken()
                == old(self).taken() + bytes@,
            r matches Err(e) ==> ((e matches Error::Transport(_) || e is Encoding)
                ==> spec_partial_response(old(self).taken(), final(self).taken(), 2)),
            r matches Ok(value) ==> spec_exchange(
                old(self).sent(),
                old(self).taken(),
                old(self).ext(),
                final(self).sent(),
                final(self).taken(),
                seq![0x9cu8, parameter],
                seq![0x00u8, value],
            ),
    ;

    /// Set an s88 bus parameter (opcode `0x9D`).
    fn x88p_set(&mut self, parameter: u8, value: u8) -> (r: Result<(), Error>)
        requires
            old(self).wf(),
        ensures
            final(self).wf(),
            final(self).ext() == old(self).ext(),
            r matches Err(e) ==> spec_command_error(e),
            r is Err ==> spec_frame_once(old(self).sent(), final(self).sent(), old(self).ext(), seq![0x9du8, parameter, value]),
            r is Err ==> spec_consumed_at_most(old(self).taken(), final(self).taken(), 1),
            r matches Err(Error::ProtocolReply(kind)) ==> spec_protocol_reply_err(
                old(self).taken(),
                final(self).taken(),
                kind,
            ),
            r matches Err(Error::UnknownResponse(bytes)) ==> bytes@.len() == 1
                && spec_reply_of_byte(bytes@[0]) == P50XReply::Unknown && final(self).taken()
                == old(self).taken() + bytes@,
            r matches Err(e) ==> ((e matches Error::Transport(_) || e is Encoding)
                ==> spec_partial_response(old(self).taken(), final(self).taken(), 1)),
            r is Ok ==> spec_exchange(
                old(self).sent(),
                old(self).taken(),
                old(self).ext(),
                final(self).sent(),
                final(self).taken(),
                seq![0x9du8, parameter, value],
                seq![0x00u8],
            ),
    ;

    /// Read an s88 timer value (opcode `0x9E`); the operand packs the
    /// timer nibble with the reset flag in bit 7.
    fn xs88_timer(&mut self, timer: u8, reset: bool) -> (r: Result<u16, Error>)
        requires
            old(self).wf(),
        ensures
            final(self).wf(),
            final(self).ext() == old(self).ext(),
            r matches Err(e) ==> spec_command_error(e),
            r is Err ==> spec_frame_once(old(self).sent(), final(self).sent(), old(self).ext(), seq![0x9eu8, spec_s88_param(timer, reset)]),
            r is Err ==> spec_consumed_at_most(old(self).taken(), final(self).taken(), 3),
            r matches Err(Error::ProtocolReply(kind)) ==> spec_protocol_reply_err(
                old(self).taken(),
                final(self).taken(),
                kind,
            ),
            r matches Err(Error::UnknownResponse(bytes)) ==> bytes@.len() == 1
                && spec_reply_of_byte(bytes@[0]) == P50XReply::Unknown && final(self).taken()
                == old(self).taken() + bytes@,
            r matches Err(e) ==> ((e matches Error::Transport(_) || e is Encoding)
                ==> spec_partial_response(old(self).taken(), final(self).taken(), 3)),
            r matches Ok(value) ==> exists|lo: u8, hi: u8|
                #![auto]
                spec_exchange(
                    old(self).sent(),
                    old(self).taken(),
                    old(self).ext(),
                    final(self).sent(),
                    final(self).taken(),
                    seq![0x9eu8, spec_s88_param(timer, reset)],
                    seq![0x00u8, lo, hi],
                ) && value == spec_u16_le(lo, hi),
    ;

    /// Read an s88 event counter (opcode `0x9F`); operand as for the
    /// timer.
    fn xs88_count(&mut self, timer: u8, reset: bool) -> (r: Result<u16, Error>)
        requires
            old(self).wf(),
        ensures
            final(self).wf(),
            final(self).ext() == old(self).ext(),
            r matches Err(e) ==> spec_command_error(e),
            r is Err ==> spec_frame_once(old(self).sent(), final(self).sent(), old(self).ext(), seq![0x9fu8, spec_s88_param(timer, reset)]),
            r is Err ==> spec_consumed_at_most(old(self).taken(), final(self).taken(), 3),
            r matches Err(Error::ProtocolReply(kind)) ==> spec_protocol_reply_err(
                old(self).taken(),
                final(self).taken(),
                kind,
            ),
            r matches Err(Error::UnknownResponse(bytes)) ==> bytes@.len() == 1
                && spec_reply_of_byte(bytes@[0]) == P50XReply::Unknown && final(self).taken()
                == old(self).taken() + bytes@,
            r matches Err(e) ==> ((e matches Error::Transport(_) || e is Encoding)
                ==> spec_partial_response(old(self).taken(), final(self).taken(), 3)),
            r matches Ok(value) ==> exists|lo: u8, hi: u8|
                #![auto]
                spec_exchange(
                    old(self).sent(),
                    old(self).taken(),
                    old(self).ext(),
                    final(self).sent(),
                    final(self).taken(),
                    seq![0x9fu8, spec_s88_param(timer, reset)],
                    seq![0x00u8, lo, hi],
                ) && value == spec_u16_le(lo, hi),
    ;

    /// Drive a locomotive (opcode `0x80`): address, the transmitted
    /// speed byte and the packed config byte.  The protocol has no
    /// encoding for a speed of `-128`.
    fn xlok(&mut self, address: u16, speed: i8, options: XLokOptions) -> (r: Result<(), Error>)
        requires
            old(self).wf(),
            speed != -0x80,
        ensures
            final(self).wf(),
            final(self).ext() == old(self).ext(),
            r matches Err(e) ==> spec_command_error(e),
            r is Err ==> spec_frame_once(old(self).sent(), final(self).sent(), old(self).ext(), seq![0x80u8, spec_lo8(address), spec_hi8(address), spec_lok_speed_byte(speed, options), spec_lok_config_byte(speed, options)]),
            r is Err ==> spec_consumed_at_most(old(self).taken(), final(self).taken(), 1),
            r matches Err(Error::ProtocolReply(kind)) ==> spec_protocol_reply_err(
                old(self).taken(),
                final(self).taken(),
                kind,
            ),
            r matches Err(Error::UnknownResponse(bytes)) ==> bytes@.len() == 1
                && spec_reply_of_byte(bytes@[0]) == P50XReply::Unknown && final(self).taken()
                == old(self).taken() + bytes@,
            r matches Err(e) ==> ((e matches Error::Transport(_) || e is Encoding)
                ==> spec_partial_response(old(self).taken(), final(self).taken(), 1)),
            r is Ok ==> spec_exchange(
                old(self).sent(),
                old(self).taken(),
                old(self).ext(),
                final(self).sent(),
                final(self).taken(),
                seq![
                    0x80u8,
                    spec_lo8(address),
                    spec_hi8(address),
                    spec_lok_speed_byte(speed, options),
                    spec_lok_config_byte(speed, options),
                ],
                seq![0x00u8],
            ),
    ;

    /// Read a locomotive's state (opcode `0x84`): speed, config and real
    /// speed bytes, decoded per the lok status rules.
    fn xlok_status(&mut self, address: u16) -> (r: Result<XLokStatus, Error>)
        requires
            old(self).wf(),
        ensures
            final(self).wf(),
            final(self).ext() == old(self).ext(),
            r matches Err(e) ==> spec_command_error(e),
            r is Err ==> spec_frame_once(old(self).sent(), final(self).sent(), old(self).ext(), seq![0x84u8, spec_lo8(address), spec_hi8(address)]),
            r is Err ==> spec_consumed_at_most(old(self).taken(), final(self).taken(), 4),
            r matches Err(Error::ProtocolReply(kind)) ==> spec_protocol_reply_err(
                old(self).taken(),
                final(self).taken(),
                kind,
            ),
            r matches Err(Error::UnknownResponse(bytes)) ==> bytes@.len() == 1
                && spec_reply_of_byte(bytes@[0]) == P50XReply::Unknown && final(self).taken()
                == old(self).taken() + bytes@,
            r matches Err(e) ==> ((e matches Error::Transport(_) || e is Encoding)
                ==> spec_partial_response(old(self).taken(), final(self).taken(), 4)),
            r matches Ok(status) ==> exists|speed_byte: u8, config: u8, real_speed_byte: u8|
                #![auto]
                spec_exchange(
                    old(self).sent(),
                    old(self).taken(),
                    old(self).ext(),
                    final(self).sent(),
                    final(self).taken(),
                    seq![0x84u8, spec_lo8(address), spec_hi8(address)],
                    seq![0x00u8, speed_byte, config, real_speed_byte],
                ) && spec_lok_status_matches(speed_byte, config, real_speed_byte, status),
    ;

    /// Read a locomotive's decoder configuration (opcode `0x85`); the
    /// virtual address is absent when the wire carries `0xFFFF`.
    fn xlok_config(&mut self, address: u16) -> (r: Result<XLokConfig, Error>)
        requires
            old(self).wf(),
        ensures
            final(self).wf(),
            final(self).ext() == old(self).ext(),
            r matches Err(e) ==> spec_command_error(e),
            r is Err ==> spec_frame_once(old(self).sent(), final(self).sent(), old(self).ext(), seq![0x85u8, spec_lo8(address), spec_hi8(address)]),
            r is Err ==> spec_consumed_at_most(old(self).taken(), final(self).taken(), 5),
            r matches Err(Error::ProtocolReply(kind)) ==> spec_protocol_reply_err(
                old(self).taken(),
                final(self).taken(),
                kind,
            ),
            r matches Err(Error::UnknownResponse(bytes)) ==> bytes@.len() == 1
                && spec_reply_of_byte(bytes@[0]) == P50XReply::Unknown && final(self).taken()
                == old(self).taken() + bytes@,
            r matches Err(e) ==> ((e matches Error::Transport(_) || e is Encoding)
                ==> spec_partial_response(old(self).taken(), final(self).taken(), 5)),
            r matches Ok(config) ==> exists|protocol_byte: u8, steps: u8, lo: u8, hi: u8|
                #![auto]
                spec_exchange(
                    old(self).sent(),
                    old(self).taken(),
                    old(self).ext(),
                    final(self).sent(),
                    final(self).taken(),
                    seq![0x85u8, spec_lo8(address), spec_hi8(address)],
                    seq![0x00u8, protocol_byte, steps, lo, hi],
                ) && config.protocol == spec_protocol_of_byte(protocol_byte) && config.speed_steps
                    == steps && config.virtual_address == (if spec_u16_le(lo, hi) == 0xffff {
                    Option::<u16>::None
                } else {
                    Some(spec_u16_le(lo, hi))
                }),
    ;

    /// Hand a locomotive slot to another controller (opcode `0x83`).
    /// When the high address byte is zero the first read byte is the
    /// reply code and nothing follows; otherwise the first read byte is
    /// the dispatch result itself.
    fn xlok_dispatch(&mut self, address: u16) -> (r: Result<Option<u8>, Error>)
        requires
            old(self).wf(),
        ensures
            final(self).wf(),
            final(self).ext() == old(self).ext(),
            spec_hi8(address) != 0 ==> (r matches Err(e) ==> (e matches Error::Transport(
                _,
            ) || e is Encoding)),
            r matches Err(e) ==> spec_command_error(e),
            r is Err ==> spec_frame_once(old(self).sent(), final(self).sent(), old(self).ext(), seq![0x83u8, spec_lo8(address), spec_hi8(address)]),
            r is Err ==> spec_consumed_at_most(old(self).taken(), final(self).taken(), 1),
            r matches Err(Error::ProtocolReply(kind)) ==> spec_protocol_reply_err(
                old(self).taken(),
                final(self).taken(),
                kind,
            ),
            r matches Err(Error::UnknownResponse(bytes)) ==> bytes@.len() == 1
                && spec_reply_of_byte(bytes@[0]) == P50XReply::Unknown && final(self).taken()
                == old(self).taken() + bytes@,
            r matches Err(e) ==> ((e matches Error::Transport(_) || e is Encoding)
                ==> spec_partial_response(old(self).taken(), final(self).taken(), 1)),
            r matches Ok(Some(value)) ==> spec_hi8(address) != 0 && spec_exchange(
                old(self).sent(),
                old(self).taken(),
                old(self).ext(),
                final(self).sent(),
                final(self).taken(),
                seq![0x83u8, spec_lo8(address), spec_hi8(address)],
                seq![value],
            ),
            r matches Ok(None) ==> spec_hi8(address) == 0 && spec_exchange(
                old(self).sent(),
                old(self).taken(),
                old(self).ext(),
                final(self).sent(),
                final(self).taken(),
                seq![0x83u8, spec_lo8(address), spec_hi8(address)],
                seq![0x00u8],
            ),
    ;

    /// Set functions F1..F8 (opcode `0x88`), F(i+1) at bit i.
    fn xfunc(&mut self, address: u16, functions: [bool; 8]) -> (r: Result<(), Error>)
        requires
            old(self).wf(),
        ensures
            final(self).wf(),
            final(self).ext() == old(self).ext(),
            r matches Err(e) ==> spec_command_error(e),
            r is Err ==> (final(self).sent() == old(self).sent() || (exists|mask: u8|
                #![auto]
                final(self).sent() == old(self).sent() + seq![old(self).ext()] + seq![
                    0x88u8,
                    spec_lo8(address),
                    spec_hi8(address),
                    mask,
                ] && forall|i: int|
                    0 <= i < 8 ==> functions[i] == ((mask >> (i as u8)) & 1 != 0))),
            r is Err ==> spec_consumed_at_most(old(self).taken(), final(self).taken(), 1),
            r matches Err(Error::ProtocolReply(kind)) ==> spec_protocol_reply_err(
                old(self).taken(),
                final(self).taken(),
                kind,
            ),
            r matches Err(Error::UnknownResponse(bytes)) ==> bytes@.len() == 1
                && spec_reply_of_byte(bytes@[0]) == P50XReply::Unknown && final(self).taken()
                == old(self).taken() + bytes@,
            r matches Err(e) ==> ((e matches Error::Transport(_) || e is Encoding)
                ==> spec_partial_response(old(self).taken(), final(self).taken(), 1)),
            r is Ok ==> exists|mask: u8|
                #![auto]
                spec_exchange(
                    old(self).sent(),
                    old(self).taken(),
                    old(self).ext(),
                    final(self).sent(),
                    final(self).taken(),
                    seq![0x88u8, spec_lo8(address), spec_hi8(address), mask],
                    seq![0x00u8],
                ) && forall|i: int| 0 <= i < 8 ==> functions[i] == ((mask >> (i as u8)) & 1 != 0),
    ;

    /// Read functions F1..F8 (opcode `0x8C`).
    fn xfunc_status(&mut self, address: u16) -> (r: Result<[bool; 8], Error>)
        requires
            old(self).wf(),
        ensures
            final(self).wf(),
            final(self).ext() == old(self).ext(),
            r matches Err(e) ==> spec_command_error(e),
            r is Err ==> spec_frame_once(old(self).sent(), final(self).sent(), old(self).ext(), seq![0x8cu8, spec_lo8(address), spec_hi8(address)]),
            r is Err ==> spec_consumed_at_most(old(self).taken(), final(self).taken(), 2),
            r matches Err(Error::ProtocolReply(kind)) ==> spec_protocol_reply_err(
                old(self).taken(),
                final(self).taken(),
                kind,
            ),
            r matches Err(Error::UnknownResponse(bytes)) ==> bytes@.len() == 1
                && spec_reply_of_byte(bytes@[0]) == P50XReply::Unknown && final(self).taken()
                == old(self).taken() + bytes@,
            r matches Err(e) ==> ((e matches Error::Transport(_) || e is Encoding)
                ==> spec_partial_response(old(self).taken(), final(self).taken(), 2)),
            r matches Ok(functions) ==> exists|mask: u8|
                #![auto]
                spec_exchange(
                    old(self).sent(),
                    old(self).taken(),
                    old(self).ext(),
                    final(self).sent(),
                    final(self).taken(),
                    seq![0x8cu8, spec_lo8(address), spec_hi8(address)],
                    seq![0x00u8, mask],
                ) && forall|i: int| 0 <= i < 8 ==> functions[i] == ((mask >> (i as u8)) & 1 != 0),
    ;

    /// Set functions F9..F16 (opcode `0x89`), F(i+9) at bit i.
    fn xfuncx(&mut self, address: u16, functions: [bool; 8]) -> (r: Result<(), Error>)
        requires
            old(self).wf(),
        ensures
            final(self).wf(),
            final(self).ext() == old(self).ext(),
            r matches Err(e) ==> spec_command_error(e),
            r is Err ==> (final(self).sent() == old(self).sent() || (exists|mask: u8|
                #![auto]
                final(self).sent() == old(self).sent() + seq![old(self).ext()] + seq![
                    0x89u8,
                    spec_lo8(address),
                    spec_hi8(address),
                    mask,
                ] && forall|i: int|
                    0 <= i < 8 ==> functions[i] == ((mask >> (i as u8)) & 1 != 0))),
            r is Err ==> spec_consumed_at_most(old(self).taken(), final(self).taken(), 1),
            r matches Err(Error::ProtocolReply(kind)) ==> spec_protocol_reply_err(
                old(self).taken(),
                final(self).taken(),
                kind,
            ),
            r matches Err(Error::UnknownResponse(bytes)) ==> bytes@.len() == 1
                && spec_reply_of_byte(bytes@[0]) == P50XReply::Unknown && final(self).taken()
                == old(self).taken() + bytes@,
            r matches Err(e) ==> ((e matches Error::Transport(_) || e is Encoding)
                ==> spec_partial_response(old(self).taken(), final(self).taken(), 1)),
            r is Ok ==> exists|mask: u8|
                #![auto]
                spec_exchange(
                    old(self).sent(),
                    old(self).taken(),
                    old(self).ext(),
                    final(self).sent(),
                    final(self).taken(),
                    seq![0x89u8, spec_lo8(address), spec_hi8(address), mask],
                    seq![0x00u8],
                ) && forall|i: int| 0 <= i < 8 ==> functions[i] == ((mask >> (i as u8)) & 1 != 0),
    ;

    /// Read functions F9..F16 (opcode `0x8D`).
    fn xfuncx_status(&mut self, address: u16) -> (r: Result<[bool; 8], Error>)
        requires
            old(self).wf(),
        ensures
            final(self).wf(),
            final(self).ext() == old(self).ext(),
            r matches Err(e) ==> spec_command_error(e),
            r is Err ==> spec_frame_once(old(self).sent(), final(self).sent(), old(self).ext(), seq![0x8du8, spec_lo8(address), spec_hi8(address)]),
            r is Err ==> spec_consumed_at_most(old(self).taken(), final(self).taken(), 2),
            r matches Err(Error::ProtocolReply(kind)) ==> spec_protocol_reply_err(
                old(self).taken(),
                final(self).taken(),
                kind,
            ),
            r matches Err(Error::UnknownResponse(bytes)) ==> bytes@.len() == 1
                && spec_reply_of_byte(bytes@[0]) == P50XReply::Unknown && final(self).taken()
                == old(self).taken() + bytes@,
            r matches Err(e) ==> ((e matches Error::Transport(_) || e is Encoding)
                ==> spec_partial_response(old(self).taken(), final(self).taken(), 2)),
            r matches Ok(functions) ==> exists|mask: u8|
                #![auto]
                spec_exchange(
                    old(self).sent(),
                    old(self).taken(),
                    old(self).ext(),
                    final(self).sent(),
                    final(self).taken(),
                    seq![0x8du8, spec_lo8(address), spec_hi8(address)],
                    seq![0x00u8, mask],
                ) && forall|i: int| 0 <= i < 8 ==> functions[i] == ((mask >> (i as u8)) & 1 != 0),
    ;

    /// Switch a turnout (opcode `0x90`): the low address byte, then the
    /// packed byte with the high address bits and the option flags.
    fn xturnout(&mut self, address: u16, state: bool, options: XTurnoutOptions) -> (r: Result<
        (),
        Error,
    >)
        requires
            old(self).wf(),
        ensures
            final(self).wf(),
            final(self).ext() == old(self).ext(),
            r matches Err(e) ==> spec_command_error(e),
            r is Err ==> spec_frame_once(old(self).sent(), final(self).sent(), old(self).ext(), seq![0x90u8, spec_lo8(address), spec_turnout_packed(address, state, options)]),
            r is Err ==> spec_consumed_at_most(old(self).taken(), final(self).taken(), 1),
            r matches Err(Error::ProtocolReply(kind)) ==> spec_protocol_reply_err(
                old(self).taken(),
                final(self).taken(),
                kind,
            ),
            r matches Err(Error::UnknownResponse(bytes)) ==> bytes@.len() == 1
                && spec_reply_of_byte(bytes@[0]) == P50XReply::Unknown && final(self).taken()
                == old(self).taken() + bytes@,
            r matches Err(e) ==> ((e matches Error::Transport(_) || e is Encoding)
                ==> spec_partial_response(old(self).taken(), final(self).taken(), 1)),
            r is Ok ==> spec_exchange(
                old(self).sent(),
                old(self).taken(),
                old(self).ext(),
                final(self).sent(),
                final(self).taken(),
                seq![0x90u8, spec_lo8(address), spec_turnout_packed(address, state, options)],
                seq![0x00u8],
            ),
    ;

    /// Release every turnout reservation (opcode `0x93`).
    fn xturnout_free(&mut self) -> (r: Result<(), Error>)
        requires
            old(self).wf(),
        ensures
            final(self).wf(),
            final(self).ext() == old(self).ext(),
            r matches Err(e) ==> spec_command_error(e),
            r is Err ==> spec_frame_once(old(self).sent(), final(self).sent(), old(self).ext(), seq![0x93u8]),
            r is Err ==> spec_consumed_at_most(old(self).taken(), final(self).taken(), 1),
            r matches Err(Error::ProtocolReply(kind)) ==> spec_protocol_reply_err(
                old(self).taken(),
                final(self).taken(),
                kind,
            ),
            r matches Err(Error::UnknownResponse(bytes)) ==> bytes@.len() == 1
                && spec_reply_of_byte(bytes@[0]) == P50XReply::Unknown && final(self).taken()
                == old(self).taken() + bytes@,
            r matches Err(e) ==> ((e matches Error::Transport(_) || e is Encoding)
                ==> spec_partial_response(old(self).taken(), final(self).taken(), 1)),
            r is Ok ==> spec_exchange(old(self).sent(), old(self).taken(), old(self).ext(), final(self).sent(), final(self).taken(), seq![0x93u8], seq![0x00u8]),
    ;

    /// Read one turnout's state (opcode `0x94`): reserved is bit 1,
    /// state is bit 2, the protocol sits in bits 0 and 3.
    fn xturnout_status(&mut self, address: u16) -> (r: Result<XTurnoutStatus, Error>)
        requires
            old(self).wf(),
        ensures
            final(self).wf(),
            final(self).ext() == old(self).ext(),
            r matches Err(e) ==> spec_command_error(e),
            r is Err ==> spec_frame_once(old(self).sent(), final(self).sent(), old(self).ext(), seq![0x94u8, spec_lo8(address), spec_hi8(address)]),
            r is Err ==> spec_consumed_at_most(old(self).taken(), final(self).taken(), 2),
            r matches Err(Error::ProtocolReply(kind)) ==> spec_protocol_reply_err(
                old(self).taken(),
                final(self).taken(),
                kind,
            ),
            r matches Err(Error::UnknownResponse(bytes)) ==> bytes@.len() == 1
                && spec_reply_of_byte(bytes@[0]) == P50XReply::Unknown && final(self).taken()
                == old(self).taken() + bytes@,
            r matches Err(e) ==> ((e matches Error::Transport(_) || e is Encoding)
                ==> spec_partial_response(old(self).taken(), final(self).taken(), 2)),
            r matches Ok(status) ==> exists|b: u8|
                #![auto]
                spec_exchange(
                    old(self).sent(),
                    old(self).taken(),
                    old(self).ext(),
                    final(self).sent(),
                    final(self).taken(),
                    seq![0x94u8, spec_lo8(address), spec_hi8(address)],
                    seq![0x00u8, b],
                ) && status.protocol == spec_protocol_of_byte(spec_turnout_protocol_byte(b))
                    && status.reserved == (b & 0x02 != 0) && status.state == (b & 0x04 != 0),
    ;

    /// Read a group of eight turnouts (opcode `0x95`): a state mask and
    /// a reserved mask, bit `i` for turnout `i` of the group.
    fn xturnout_group(&mut self, group_address: u8) -> (r: Result<[(bool, bool); 8], Error>)
        requires
            old(self).wf(),
        ensures
            final(self).wf(),
            final(self).ext() == old(self).ext(),
            r matches Err(e) ==> spec_command_error(e),
            r is Err ==> spec_frame_once(old(self).sent(), final(self).sent(), old(self).ext(), seq![0x95u8, group_address]),
            r is Err ==> spec_consumed_at_most(old(self).taken(), final(self).taken(), 3),
            r matches Err(Error::ProtocolReply(kind)) ==> spec_protocol_reply_err(
                old(self).taken(),
                final(self).taken(),
                kind,
            ),
            r matches Err(Error::UnknownResponse(bytes)) ==> bytes@.len() == 1
                && spec_reply_of_byte(bytes@[0]) == P50XReply::Unknown && final(self).taken()
                == old(self).taken() + bytes@,
            r matches Err(e) ==> ((e matches Error::Transport(_) || e is Encoding)
                ==> spec_partial_response(old(self).taken(), final(self).taken(), 3)),
            r matches Ok(group) ==> exists|state_mask: u8, reserved_mask: u8|
                #![auto]
                spec_exchange(
                    old(self).sent(),
                    old(self).taken(),
                    old(self).ext(),
                    final(self).sent(),
                    final(self).taken(),
                    seq![0x95u8, group_address],
                    seq![0x00u8, state_mask, reserved_mask],
                ) && forall|i: int|
                    0 <= i < 8 ==> group[i].0 == ((state_mask >> (i as u8)) & 1 != 0)
                        && group[i].1 == ((reserved_mask >> (i as u8)) & 1 != 0),
    ;
}

} // verus!
