//! The `boolean` of the SSH protocol.

use vstd::prelude::*;
use vstd::std_specs::convert::FromSpecImpl;

use crate::error::{Error, ErrorKind};
use crate::wire::{Decode, Encode, Roundtrip};

verus! {

/// The wire form of a `boolean`: one byte, `1` for true and `0` for false.
pub open spec fn bool_wire(value: bool) -> Seq<u8> {
    seq![if value { 1u8 } else { 0u8 }]
}

/// What reading a `boolean` from the front of `buf` gives.
pub open spec fn bool_outcome(buf: Seq<u8>) -> Result<nat, ErrorKind> {
    if buf.len() >= 1 {
        Ok(1)
    } else {
        Err(ErrorKind::TruncatedInput)
    }
}

/// The `boolean` at the front of `buf`: any byte but zero stands for true.
pub open spec fn bool_content(buf: Seq<u8>) -> bool
    recommends
        buf.len() >= 1,
{
    buf[0] != 0
}

/// A `boolean` that is written and read back is the same `boolean`.
pub proof fn lemma_bool_roundtrip(value: bool, rest: Seq<u8>)
    ensures
        bool_outcome(bool_wire(value) + rest) == Ok::<nat, ErrorKind>(1),
        bool_content(bool_wire(value) + rest) == value,
        bool_wire(value).len() == 1,
{
    assert((bool_wire(value) + rest)[0] == bool_wire(value)[0]);
}

/// A `boolean` as defined in the SSH protocol.
///
/// see <https://datatracker.ietf.org/doc/html/rfc4251#section-5>.
#[derive(Debug, Default, Clone, Copy, PartialEq, Eq, Structural)]
pub struct Bool(pub bool);

impl View for Bool {
    type V = bool;

    open spec fn view(&self) -> bool {
        self.0
    }
}

impl From<bool> for Bool {
    fn from(value: bool) -> (b: Self)
        ensures
            b@ == value,
    {
        Bool(value)
    }
}

impl FromSpecImpl<bool> for Bool {
    open spec fn obeys_from_spec() -> bool {
        true
    }

    open spec fn from_spec(value: bool) -> Self {
        Bool(value)
    }
}

impl Bool {
    /// The truth value held.
    pub fn get(&self) -> (value: bool)
        ensures
            value == self@,
    {
        self.0
    }
}

impl Encode for Bool {
    open spec fn wire(&self) -> Seq<u8> {
        bool_wire(self@)
    }

    open spec fn fits(&self) -> bool {
        true
    }

    fn encode(&self, out: &mut Vec<u8>) -> (r: Result<(), Error>) {
        let byte: u8 = if self.0 {
            1
        } else {
            0
        };
        out.push(byte);
        assert(out@ =~= old(out)@ + bool_wire(self@));
        Ok(())
    }
}

impl<'b> Decode<'b> for Bool {
    open spec fn outcome(buf: Seq<u8>) -> Result<nat, ErrorKind> {
        bool_outcome(buf)
    }

    open spec fn decoded_from(&self, buf: Seq<u8>) -> bool {
        self@ == bool_content(buf)
    }

    open spec fn sound(&self) -> bool {
        true
    }

    fn decode(buf: &'b [u8]) -> (r: Result<(Self, usize), Error>) {
        if buf.len() < 1 {
            return Err(Error::TruncatedInput);
        }
        Ok((Bool(buf[0] != 0), 1))
    }
}

impl<'b> Roundtrip<'b> for Bool {
    proof fn lemma_reads_back(&self, rest: Seq<u8>) {
        lemma_bool_roundtrip(self@, rest);
    }
}

} // verus!
