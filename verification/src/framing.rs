//! The layout of a packet before encryption:
//! `length || padding length || payload || padding`.

use vstd::arithmetic::div_mod::{lemma_fundamental_div_mod, lemma_fundamental_div_mod_converse};
use vstd::prelude::*;
use vstd::slice::{slice_subrange, slice_to_vec};

use crate::error::{Error, ErrorKind};
use crate::wire::{be32, from_be32, lemma_be32_roundtrip, Decode, Encode};
use crate::{MAX_SIZE, MIN_SIZE};

verus! {

/// The packet that carries `payload` followed by `padding`, as it stands
/// before encryption. The length field counts everything behind itself.
pub open spec fn frame(payload: Seq<u8>, padding: Seq<u8>) -> Seq<u8> {
    be32((1 + payload.len() + padding.len()) as u32) + seq![padding.len() as u8] + payload
        + padding
}

/// Whether a payload and a padding of these lengths make a packet whose
/// two length fields can say what they have to.
pub open spec fn frame_fits(payload_len: int, padding_len: int) -> bool {
    padding_len <= 0xff && 1 + payload_len + padding_len <= 0xffff_ffff
}

/// The payload of the packet `plain`, or the reason why it has none.
///
/// `plain` is a whole packet, decrypted: its length field and what the
/// field counts. A packet that is not as long as its length field says
/// is truncated, and so is one without a padding length. A padding
/// that would not leave room for itself is too large.
pub open spec fn unframe(plain: Seq<u8>) -> Result<Seq<u8>, ErrorKind> {
    if plain.len() < 4 {
        Err(ErrorKind::TruncatedInput)
    } else if from_be32(plain) > MAX_SIZE {
        Err(ErrorKind::OversizedPacket)
    } else if plain.len() != 4 + from_be32(plain) || from_be32(plain) == 0 {
        Err(ErrorKind::TruncatedInput)
    } else if plain[4] > from_be32(plain) - 1 {
        Err(ErrorKind::PaddingTooLarge)
    } else {
        Ok(plain.subrange(5, 5 + from_be32(plain) - plain[4] - 1))
    }
}

/// The number of padding bytes that a payload of `payload_len` bytes
/// gets with a cipher of block size `block`: the least number that is at
/// least 4, brings the packet to at least the minimum size, and makes
/// the packet's length a multiple of the block size.
pub open spec fn padding_for(payload_len: int, block: int) -> int {
    let base = 5 + payload_len;
    let need = if base + 4 >= MIN_SIZE {
        4
    } else {
        MIN_SIZE - base
    };
    let over = (base + need) % block;
    if over == 0 {
        need
    } else {
        need + block - over
    }
}

/// The padding that the policy picks meets the three demands on it, and
/// no smaller padding does.
pub proof fn lemma_padding_for(payload_len: int, block: int)
    requires
        payload_len >= 0,
        block >= 1,
    ensures
        padding_for(payload_len, block) >= 4,
        5 + payload_len + padding_for(payload_len, block) >= MIN_SIZE,
        (5 + payload_len + padding_for(payload_len, block)) % block == 0,
        padding_for(payload_len, block) < 12 + block,
        forall|other: int|
            other >= 4 && 5 + payload_len + other >= MIN_SIZE && #[trigger] ((5 + payload_len
                + other) % block) == 0 ==> other >= padding_for(payload_len, block),
{
    let base = 5 + payload_len;
    let need = if base + 4 >= MIN_SIZE {
        4
    } else {
        MIN_SIZE - base
    };
    let x = base + need;
    let over = x % block;
    let k = x / block;
    lemma_fundamental_div_mod(x, block);
    assert(x == block * k + over);
    assert(block * k == k * block) by (nonlinear_arith);
    let p = padding_for(payload_len, block);
    if over != 0 {
        assert(0 < over < block);
        assert((k + 1) * block == k * block + block) by (nonlinear_arith);
        lemma_fundamental_div_mod_converse(x + block - over, block, k + 1, 0);
    }
    assert forall|other: int|
        other >= 4 && 5 + payload_len + other >= MIN_SIZE && #[trigger] ((5 + payload_len + other)
            % block) == 0 implies other >= p by {
        if other < p {
            assert(other >= need);
            assert(over != 0);
            let r = over + (other - need);
            assert(0 < r < block);
            assert(base + other == k * block + r);
            lemma_fundamental_div_mod_converse(base + other, block, k, r);
            assert(false);
        }
    }
}

/// The payload that is framed and taken out of its frame is the same
/// payload, whatever the padding holds.
pub proof fn lemma_frame_roundtrip(payload: Seq<u8>, padding: Seq<u8>)
    requires
        padding.len() <= 0xff,
        1 + payload.len() + padding.len() <= MAX_SIZE,
    ensures
        unframe(frame(payload, padding)) == Ok::<Seq<u8>, ErrorKind>(payload),
        frame(payload, padding).len() == 5 + payload.len() + padding.len(),
{
    let len = (1 + payload.len() + padding.len()) as u32;
    let plain = frame(payload, padding);
    let tail = seq![padding.len() as u8] + payload + padding;
    assert(plain =~= be32(len) + tail);
    lemma_be32_roundtrip(len, tail);
    assert(plain[4] == padding.len() as u8);
    assert(plain.subrange(5, 5 + len - plain[4] - 1) =~= payload);
}

/// The sequence number that follows `seq`; the counter wraps around.
pub open spec fn next_seq(seq: u32) -> u32 {
    if seq == u32::MAX {
        0
    } else {
        (seq + 1) as u32
    }
}

/// The sequence number that follows `seq`; the counter wraps around.
pub fn advance(seq: u32) -> (next: u32)
    ensures
        next == next_seq(seq),
{
    if seq == u32::MAX {
        0
    } else {
        seq + 1
    }
}

/// The number of padding bytes for a payload of `payload_len` bytes and a
/// cipher of block size `block`.
///
/// A payload too long for the length field, or a block size so large
/// that the padding length does not fit its byte, is refused with
/// [`ErrorKind::EncodingOverflow`].
pub fn padding_len(payload_len: usize, block: usize) -> (r: Result<u8, Error>)
    requires
        block >= 1,
    ensures
        frame_fits(payload_len as int, padding_for(payload_len as int, block as int)) ==> r is Ok
            && r->Ok_0 == padding_for(payload_len as int, block as int),
        !frame_fits(payload_len as int, padding_for(payload_len as int, block as int)) ==> r is Err
            && r->Err_0.spec_kind() == ErrorKind::EncodingOverflow,
{
    if payload_len > 0xffff_fffa {
        proof {
            lemma_padding_for(payload_len as int, block as int);
        }
        return Err(Error::EncodingOverflow);
    }
    let base: u64 = 5 + payload_len as u64;
    let need: u64 = if base + 4 >= MIN_SIZE as u64 {
        4
    } else {
        MIN_SIZE as u64 - base
    };
    let over: u64 = (base + need) % (block as u64);
    let extra: u64 = if over == 0 {
        0
    } else {
        block as u64 - over
    };
    if extra > 0xff - need {
        return Err(Error::EncodingOverflow);
    }
    let padding: u64 = need + extra;
    if 1 + payload_len as u64 + padding > 0xffff_ffff {
        return Err(Error::EncodingOverflow);
    }
    Ok(padding as u8)
}

/// Builds the packet that carries `payload` followed by `padding`, as it
/// stands before encryption.
pub fn build_frame(payload: &[u8], padding: &[u8]) -> (r: Result<Vec<u8>, Error>)
    ensures
        frame_fits(payload@.len() as int, padding@.len() as int) ==> r is Ok && r->Ok_0@ == frame(
            payload@,
            padding@,
        ),
        !frame_fits(payload@.len() as int, padding@.len() as int) ==> r is Err
            && r->Err_0.spec_kind() == ErrorKind::EncodingOverflow,
{
    if padding.len() > 0xff || payload.len() > 0xffff_ffff - 1 - padding.len() {
        return Err(Error::EncodingOverflow);
    }
    let len: u32 = (1 + payload.len() + padding.len()) as u32;
    let mut plain: Vec<u8> = Vec::new();
    let _ = len.encode(&mut plain);
    plain.push(padding.len() as u8);
    plain.extend_from_slice(payload);
    plain.extend_from_slice(padding);
    assert(plain@ =~= frame(payload@, padding@));
    Ok(plain)
}

/// Takes the payload out of the decrypted packet `plain`; the padding is
/// dropped without a look at it.
pub fn take_payload(plain: &[u8]) -> (r: Result<Vec<u8>, Error>)
    ensures
        match r {
            Ok(payload) => unframe(plain@) == Ok::<Seq<u8>, ErrorKind>(payload@),
            Err(e) => unframe(plain@) == Err::<Seq<u8>, ErrorKind>(e.spec_kind()),
        },
{
    if plain.len() < 4 {
        return Err(Error::TruncatedInput);
    }
    let (declared, _) = u32::decode(plain)?;
    let len: usize = declared as usize;
    if len > MAX_SIZE {
        return Err(Error::OversizedPacket);
    }
    if plain.len() - 4 != len || len == 0 {
        return Err(Error::TruncatedInput);
    }
    let padding: usize = plain[4] as usize;
    if padding > len - 1 {
        return Err(Error::PaddingTooLarge);
    }
    Ok(slice_to_vec(slice_subrange(plain, 5, 5 + len - padding - 1)))
}

} // verus!
