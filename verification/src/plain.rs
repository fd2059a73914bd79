//! Packets sent in the clear, as they are before the first key exchange
//! has ended: nothing is compressed, nothing encrypted, and no
//! authentication code follows the packet.
//!
//! The two functions here drive the machines of [`crate::packet`] the way
//! any driver does, with a cipher that leaves every byte as it is.

use vstd::arithmetic::div_mod::lemma_small_mod;
use vstd::prelude::*;
use vstd::slice::{slice_subrange, slice_to_vec};

use crate::error::{Error, ErrorKind};
use crate::framing::{
    frame, frame_fits, lemma_frame_roundtrip, lemma_padding_for, next_seq, padding_for, unframe,
};
use crate::packet::{OpenAction, OpenReply, Opener, Packet, SealAction, Sealer, Suite};
use crate::wire::{from_be32, lemma_be32_roundtrip};
use crate::MAX_SIZE;

verus! {

/// Whether the suite sends packets without an authentication code.
pub open spec fn is_plain(suite: Suite) -> bool {
    suite.wf() && suite.mac.size == 0
}

/// The number of bytes that the packet at the front of `stream` takes,
/// or the reason why there is no packet.
pub open spec fn plain_len(suite: Suite, stream: Seq<u8>) -> Result<nat, ErrorKind> {
    if stream.len() < suite.block_size {
        Err(ErrorKind::TruncatedInput)
    } else if from_be32(stream) > MAX_SIZE {
        Err(ErrorKind::OversizedPacket)
    } else if from_be32(stream) + 4 < suite.block_size {
        Err(ErrorKind::TruncatedInput)
    } else if stream.len() < from_be32(stream) + 4 {
        Err(ErrorKind::TruncatedInput)
    } else {
        Ok((from_be32(stream) + 4) as nat)
    }
}

/// The payload of the packet at the front of `stream`, or the reason
/// why there is none.
pub open spec fn plain_payload(suite: Suite, stream: Seq<u8>) -> Result<Seq<u8>, ErrorKind> {
    match plain_len(suite, stream) {
        Err(kind) => Err(kind),
        Ok(len) => unframe(stream.take(len as int)),
    }
}

/// A packet that is written in the clear and read back carries the
/// payload it was given, whichever of the two orders of authentication
/// the suite names and whatever follows the packet in the stream.
pub proof fn lemma_plain_roundtrip(suite: Suite, payload: Seq<u8>, padding: Seq<u8>, rest: Seq<u8>)
    requires
        is_plain(suite),
        padding.len() == padding_for(payload.len() as int, suite.block_size as int),
        padding.len() <= 0xff,
        1 + payload.len() + padding.len() <= MAX_SIZE,
    ensures
        plain_len(suite, frame(payload, padding) + rest) == Ok::<nat, ErrorKind>(
            frame(payload, padding).len(),
        ),
        plain_payload(suite, frame(payload, padding) + rest) == Ok::<Seq<u8>, ErrorKind>(payload),
{
    let block = suite.block_size as int;
    let plain = frame(payload, padding);
    let stream = plain + rest;
    lemma_padding_for(payload.len() as int, block);
    lemma_frame_roundtrip(payload, padding);
    let total = plain.len();
    if total < block {
        lemma_small_mod(total, block as nat);
    }
    let len = (1 + payload.len() + padding.len()) as u32;
    let tail = seq![padding.len() as u8] + payload + padding;
    assert(stream =~= crate::wire::be32(len) + (tail + rest));
    lemma_be32_roundtrip(len, tail + rest);
    assert(stream.take(total as int) =~= plain);
}

/// Writes `packet` in the clear: the bytes to send and the sequence
/// number of the next packet.
///
/// The padding is taken from the front of `noise`, which the caller
/// fills with random bytes; 255 of them are always enough. A payload too
/// long for the length field, a block size too large for the padding
/// length, or too little noise is refused with
/// [`ErrorKind::EncodingOverflow`].
pub fn seal_plain(suite: Suite, seq: u32, packet: &Packet, noise: &[u8]) -> (r: Result<
    (Vec<u8>, u32),
    Error,
>)
    requires
        is_plain(suite),
    ensures
        ({
            let padding = padding_for(packet@.len() as int, suite.block_size as int);
            if frame_fits(packet@.len() as int, padding) && padding <= noise@.len() {
                &&& r is Ok
                &&& r->Ok_0.0@ == frame(packet@, noise@.take(padding))
                &&& r->Ok_0.1 == next_seq(seq)
            } else {
                r is Err && r->Err_0.spec_kind() == ErrorKind::EncodingOverflow
            }
        }),
{
    let (sealer, action) = Sealer::start(suite, seq, packet);
    let compressed = match action {
        SealAction::Compress { data } => data,
        _ => {
            return Err(Error::EncodingOverflow);
        },
    };
    let (sealer, action) = sealer.step(compressed);
    let count = match action {
        SealAction::Random { count } => count,
        SealAction::Fail { error } => {
            return Err(error);
        },
        _ => {
            return Err(Error::EncodingOverflow);
        },
    };
    if count > noise.len() {
        return Err(Error::EncodingOverflow);
    }
    let padding = slice_to_vec(slice_subrange(noise, 0, count));
    assert(padding@ =~= noise@.take(count as int));
    let (sealer, action) = sealer.step(padding);
    if suite.mac.etm {
        let data = match action {
            SealAction::Encrypt { data } => data,
            _ => {
                return Err(Error::EncodingOverflow);
            },
        };
        let ghost plain = sealer.buf();
        assert(plain.take(4) + data@ =~= plain);
        let (sealer, action) = sealer.step(data);
        match action {
            SealAction::Seal { .. } => {},
            _ => {
                return Err(Error::EncodingOverflow);
            },
        }
        let (_, action) = sealer.step(Vec::new());
        match action {
            SealAction::Write { data, seq } => {
                assert(data@ =~= plain);
                Ok((data, seq))
            },
            _ => Err(Error::EncodingOverflow),
        }
    } else {
        match action {
            SealAction::Seal { .. } => {},
            _ => {
                return Err(Error::EncodingOverflow);
            },
        }
        let ghost plain = sealer.buf();
        let (sealer, action) = sealer.step(Vec::new());
        let data = match action {
            SealAction::Encrypt { data } => data,
            _ => {
                return Err(Error::EncodingOverflow);
            },
        };
        let (_, action) = sealer.step(data);
        match action {
            SealAction::Write { data, seq } => {
                assert(data@ =~= plain);
                Ok((data, seq))
            },
            _ => Err(Error::EncodingOverflow),
        }
    }
}

/// Reads the packet that stands in the clear at the front of `stream`:
/// the packet, the number of bytes it took, and the sequence number of
/// the next packet.
pub fn open_plain(suite: Suite, seq: u32, stream: &[u8]) -> (r: Result<
    (Packet, usize, u32),
    Error,
>)
    requires
        is_plain(suite),
    ensures
        match r {
            Ok((packet, taken, next)) => {
                &&& plain_payload(suite, stream@) == Ok::<Seq<u8>, ErrorKind>(packet@)
                &&& plain_len(suite, stream@) == Ok::<nat, ErrorKind>(taken as nat)
                &&& next == next_seq(seq)
            },
            Err(e) => plain_payload(suite, stream@) == Err::<Seq<u8>, ErrorKind>(e.spec_kind()),
        },
{
    let block = suite.block_size;
    let (opener, action) = Opener::start(suite, seq);
    if stream.len() < block {
        return Err(Error::TruncatedInput);
    }
    let first = slice_to_vec(slice_subrange(stream, 0, block));
    proof {
        assert(from_be32(first@) == from_be32(stream@)) by {
            assert(first@[0] == stream@[0]);
            assert(first@[1] == stream@[1]);
            assert(first@[2] == stream@[2]);
            assert(first@[3] == stream@[3]);
        }
    }
    let (opener, action) = opener.step(OpenReply::Bytes(first));
    let (opener, action) = if suite.mac.etm {
        (opener, action)
    } else {
        match action {
            OpenAction::Decrypt { data } => opener.step(OpenReply::Bytes(data)),
            _ => {
                return Err(Error::TruncatedInput);
            },
        }
    };
    let count = match action {
        OpenAction::Read { count } => count,
        OpenAction::Fail { error } => {
            return Err(error);
        },
        _ => {
            return Err(Error::TruncatedInput);
        },
    };
    if stream.len() - block < count {
        return Err(Error::TruncatedInput);
    }
    let total: usize = block + count;
    let rest = slice_to_vec(slice_subrange(stream, block, total));
    let ghost whole = stream@.take(total as int);
    assert(opener.buf() + rest@ =~= whole);
    let (opener, action) = opener.step(OpenReply::Bytes(rest));
    match action {
        OpenAction::Read { .. } => {},
        _ => {
            return Err(Error::TruncatedInput);
        },
    }
    let (opener, action) = opener.step(OpenReply::Bytes(Vec::new()));
    let (opener, action) = if suite.mac.etm {
        match action {
            OpenAction::Verify { .. } => {},
            _ => {
                return Err(Error::TruncatedInput);
            },
        }
        let (opener, action) = opener.step(OpenReply::Verified(true));
        match action {
            OpenAction::Decrypt { data } => {
                assert(whole.take(4) + data@ =~= whole);
                opener.step(OpenReply::Bytes(data))
            },
            _ => {
                return Err(Error::TruncatedInput);
            },
        }
    } else {
        let (opener, action) = match action {
            OpenAction::Decrypt { data } => {
                assert(whole.take(block as int) + data@ =~= whole);
                opener.step(OpenReply::Bytes(data))
            },
            _ => {
                return Err(Error::TruncatedInput);
            },
        };
        match action {
            OpenAction::Verify { .. } => {},
            _ => {
                return Err(Error::TruncatedInput);
            },
        }
        opener.step(OpenReply::Verified(true))
    };
    let payload = match action {
        OpenAction::Decompress { data } => data,
        OpenAction::Fail { error } => {
            return Err(error);
        },
        _ => {
            return Err(Error::TruncatedInput);
        },
    };
    let (_, action) = opener.step(OpenReply::Bytes(payload));
    match action {
        OpenAction::Done { packet, seq } => Ok((packet, total, seq)),
        _ => Err(Error::TruncatedInput),
    }
}

} // verus!
