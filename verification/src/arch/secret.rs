//! Buffers that hold key material.

use vstd::prelude::*;

use crate::arch::bytes::zeroize_vec;

verus! {

/// A buffer that is erased when it is let go: its bytes are overwritten
/// with zeros before the memory is given back.
#[derive(Debug)]
pub struct Secret {
    bytes: Vec<u8>,
}

impl View for Secret {
    type V = Seq<u8>;

    closed spec fn view(&self) -> Seq<u8> {
        self.bytes@
    }
}

impl Secret {
    /// Takes the bytes into a buffer that will be erased.
    pub fn new(bytes: Vec<u8>) -> (secret: Self)
        ensures
            secret@ == bytes@,
    {
        Secret { bytes }
    }

    /// The bytes held.
    pub fn expose(&self) -> (bytes: &[u8])
        ensures
            bytes@ == self@,
    {
        self.bytes.as_slice()
    }

    /// Erases the buffer now: afterwards it holds nothing.
    pub fn erase(&mut self)
        ensures
            final(self)@ == Seq::<u8>::empty(),
        opens_invariants none
        no_unwind
    {
        zeroize_vec(&mut self.bytes);
    }
}

impl Drop for Secret {
    fn drop(&mut self)
        ensures
            final(self)@ == Seq::<u8>::empty(),
        opens_invariants none
        no_unwind
    {
        self.erase();
    }
}

} // verus!
