//! A value sent behind the number of bytes it takes.

use vstd::prelude::*;
use vstd::slice::slice_subrange;

use crate::error::{Error, ErrorKind};
use crate::wire::{be32, from_be32, lemma_be32_roundtrip, Decode, Encode, Roundtrip};
use crate::MAX_SIZE;

verus! {

/// The wire form of a value with the wire form `inner`, behind its size.
pub open spec fn lengthed_wire(inner: Seq<u8>) -> Seq<u8> {
    be32(inner.len() as u32) + inner
}

/// What reading a value behind its size from the front of `buf` gives,
/// where `inner` is what reading the value from the bytes that the size
/// announces gives. The value has to take all of those bytes.
pub open spec fn lengthed_outcome(
    buf: Seq<u8>,
    inner: Result<nat, ErrorKind>,
) -> Result<nat, ErrorKind> {
    if buf.len() < 4 {
        Err(ErrorKind::TruncatedInput)
    } else if from_be32(buf) > MAX_SIZE {
        Err(ErrorKind::OversizedPacket)
    } else if buf.len() - 4 < from_be32(buf) {
        Err(ErrorKind::TruncatedInput)
    } else {
        match inner {
            Err(e) => Err(e),
            Ok(n) => if n == from_be32(buf) {
                Ok(n + 4)
            } else {
                Err(ErrorKind::ConstraintViolation)
            },
        }
    }
}

/// The bytes that the size at the front of `buf` announces.
pub open spec fn lengthed_region(buf: Seq<u8>) -> Seq<u8> {
    buf.subrange(4, 4 + from_be32(buf))
}

/// The bytes that follow a size are the bytes that the size announces.
pub proof fn lemma_lengthed_region(inner: Seq<u8>, rest: Seq<u8>)
    requires
        inner.len() <= MAX_SIZE,
    ensures
        lengthed_region(lengthed_wire(inner) + rest) == inner,
        from_be32(lengthed_wire(inner) + rest) == inner.len(),
        (lengthed_wire(inner) + rest).len() == 4 + inner.len() + rest.len(),
{
    let n = inner.len() as u32;
    let buf = lengthed_wire(inner) + rest;
    lemma_be32_roundtrip(n, inner + rest);
    assert(buf =~= be32(n) + (inner + rest));
    assert(lengthed_region(buf) =~= inner);
}

/// An helper to prefix a serializable value with it's `size`.
#[derive(Debug, Default, Clone, Copy, PartialEq, Eq)]
pub struct Lengthed<T>(pub T);

impl<T> Lengthed<T> {
    /// The value behind the size.
    pub fn get(&self) -> (inner: &T)
        ensures
            *inner == self.0,
    {
        &self.0
    }

    /// Takes the value out.
    pub fn into_inner(self) -> (inner: T)
        ensures
            inner == self.0,
    {
        self.0
    }
}

impl<T: Encode> Encode for Lengthed<T> {
    open spec fn wire(&self) -> Seq<u8> {
        lengthed_wire(self.0.wire())
    }

    open spec fn fits(&self) -> bool {
        self.0.fits() && self.0.wire().len() <= MAX_SIZE
    }

    fn encode(&self, out: &mut Vec<u8>) -> (r: Result<(), Error>) {
        let mut scratch: Vec<u8> = Vec::new();
        match self.0.encode(&mut scratch) {
            Err(_) => {
                return Err(Error::EncodingOverflow);
            },
            Ok(()) => {},
        }
        assert(scratch@ =~= self.0.wire());
        if scratch.len() > MAX_SIZE {
            return Err(Error::EncodingOverflow);
        }
        let size: u32 = scratch.len() as u32;
        let _ = size.encode(out);
        out.extend_from_slice(scratch.as_slice());
        assert(out@ =~= old(out)@ + lengthed_wire(self.0.wire()));
        Ok(())
    }
}

impl<'b, T: Decode<'b>> Decode<'b> for Lengthed<T> {
    open spec fn outcome(buf: Seq<u8>) -> Result<nat, ErrorKind> {
        lengthed_outcome(buf, T::outcome(lengthed_region(buf)))
    }

    open spec fn decoded_from(&self, buf: Seq<u8>) -> bool {
        self.0.decoded_from(lengthed_region(buf))
    }

    open spec fn sound(&self) -> bool {
        self.0.sound()
    }

    fn decode(buf: &'b [u8]) -> (r: Result<(Self, usize), Error>) {
        if buf.len() < 4 {
            return Err(Error::TruncatedInput);
        }
        let (size, _) = u32::decode(buf)?;
        let len: usize = size as usize;
        if len > MAX_SIZE {
            return Err(Error::OversizedPacket);
        }
        if buf.len() - 4 < len {
            return Err(Error::TruncatedInput);
        }
        let region = slice_subrange(buf, 4, 4 + len);
        let (inner, n) = T::decode(region)?;
        if n != len {
            return Err(Error::ConstraintViolation);
        }
        Ok((Lengthed(inner), 4 + len))
    }
}

impl<'b, T: Roundtrip<'b>> Roundtrip<'b> for Lengthed<T> {
    proof fn lemma_reads_back(&self, rest: Seq<u8>) {
        lemma_lengthed_region(self.0.wire(), rest);
        self.0.lemma_reads_back(Seq::empty());
        assert(self.0.wire() + Seq::<u8>::empty() =~= self.0.wire());
    }
}

} // verus!
