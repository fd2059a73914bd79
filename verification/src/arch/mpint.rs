//! The `mpint` of the SSH protocol: an integer of any size, sent in two's
//! complement with as few bytes as possible.

use vstd::prelude::*;
use vstd::slice::{slice_subrange, slice_to_vec};

use crate::arch::bytes::{bytes_content, bytes_outcome, bytes_wire, lemma_bytes_roundtrip, Bytes};
use crate::error::{Error, ErrorKind};
use crate::wire::{Decode, Encode, Roundtrip};

verus! {

/// The number that one byte stands for in two's complement.
pub open spec fn signed_byte(byte: u8) -> int {
    if byte >= 0x80 {
        byte as int - 0x100
    } else {
        byte as int
    }
}

/// The integer that the bytes stand for in two's complement, most
/// significant byte first. No byte at all stands for zero.
pub open spec fn value_of(bytes: Seq<u8>) -> int
    decreases bytes.len(),
{
    if bytes.len() == 0 {
        0
    } else if bytes.len() == 1 {
        signed_byte(bytes[0])
    } else {
        value_of(bytes.drop_last()) * 0x100 + bytes.last() as int
    }
}

/// The natural number that the bytes spell, most significant byte first.
pub open spec fn unsigned_of(bytes: Seq<u8>) -> nat
    decreases bytes.len(),
{
    if bytes.len() == 0 {
        0
    } else {
        unsigned_of(bytes.drop_last()) * 0x100 + bytes.last() as nat
    }
}

/// The distance of an integer from zero.
pub open spec fn magnitude(i: int) -> nat {
    if i < 0 {
        (-i) as nat
    } else {
        i as nat
    }
}

/// The shortest two's complement form of `i` that has at least one byte.
pub open spec fn twos(i: int) -> Seq<u8>
    decreases magnitude(i),
{
    if -0x80 <= i < 0x80 {
        seq![(i % 0x100) as u8]
    } else {
        twos(i / 0x100).push((i % 0x100) as u8)
    }
}

/// The bytes of `i` as an `mpint`: none for zero, else the shortest two's
/// complement form.
pub open spec fn mpint_bytes(i: int) -> Seq<u8> {
    if i == 0 {
        Seq::empty()
    } else {
        twos(i)
    }
}

/// Whether the first byte only repeats the sign that the second byte
/// already shows.
pub open spec fn has_spare_lead(bytes: Seq<u8>) -> bool {
    bytes.len() >= 2 && ((bytes[0] == 0 && bytes[1] < 0x80) || (bytes[0] == 0xff && bytes[1]
        >= 0x80))
}

/// Whether the bytes are the form in which an `mpint` is sent: no byte
/// that only repeats the sign, and no byte at all for zero.
pub open spec fn is_minimal(bytes: Seq<u8>) -> bool {
    !has_spare_lead(bytes) && !(bytes.len() == 1 && bytes[0] == 0)
}

/// The wire form of the integer `i`.
pub open spec fn mpint_wire(i: int) -> Seq<u8> {
    bytes_wire(mpint_bytes(i))
}

/// What reading an `mpint` from the front of `buf` gives.
pub open spec fn mpint_outcome(buf: Seq<u8>) -> Result<nat, ErrorKind> {
    bytes_outcome(buf)
}

/// The integer at the front of `buf`.
pub open spec fn mpint_content(buf: Seq<u8>) -> int
    recommends
        mpint_outcome(buf) is Ok,
{
    value_of(bytes_content(buf))
}

/// The shortest form of an integer stands for that integer.
pub proof fn lemma_value_of_twos(i: int)
    ensures
        value_of(twos(i)) == i,
        twos(i).len() >= 1,
        twos(i).len() == 1 <==> -0x80 <= i < 0x80,
        !has_spare_lead(twos(i)),
    decreases magnitude(i),
{
    if -0x80 <= i < 0x80 {
    } else {
        let q = i / 0x100;
        let r = (i % 0x100) as u8;
        lemma_value_of_twos(q);
        let bytes = twos(q).push(r);
        assert(bytes.drop_last() =~= twos(q));
        assert(bytes.last() == r);
        assert(bytes[0] == twos(q)[0]);
        if twos(q).len() >= 2 {
            assert(bytes[1] == twos(q)[1]);
        } else {
            assert(bytes[1] == r);
            assert(twos(q)[0] == (q % 0x100) as u8);
        }
    }
}

/// A form without a spare leading byte is the shortest form of the
/// integer it stands for.
pub proof fn lemma_twos_of_value(bytes: Seq<u8>)
    requires
        bytes.len() >= 1,
        !has_spare_lead(bytes),
    ensures
        twos(value_of(bytes)) == bytes,
    decreases bytes.len(),
{
    if bytes.len() == 1 {
        assert(twos(value_of(bytes)) =~= bytes);
    } else {
        let front = bytes.drop_last();
        assert(front[0] == bytes[0]);
        if front.len() >= 2 {
            assert(front[1] == bytes[1]);
        }
        lemma_twos_of_value(front);
        let q = value_of(front);
        let v = value_of(bytes);
        assert(v == q * 0x100 + bytes.last() as int);
        assert(v / 0x100 == q);
        assert(v % 0x100 == bytes.last() as int);
        if -0x80 <= v < 0x80 {
            assert(q == 0 || q == -1);
            assert(twos(q).len() == 1);
            assert(front[0] == twos(q)[0]);
            assert(bytes[1] == bytes.last());
            assert(false);
        }
        assert(twos(v) =~= front.push(bytes.last()));
        assert(front.push(bytes.last()) =~= bytes);
    }
}

/// The bytes of an integer as an `mpint` stand for that integer, and no
/// byte of them is spare.
pub proof fn lemma_mpint_bytes(i: int)
    ensures
        value_of(mpint_bytes(i)) == i,
        is_minimal(mpint_bytes(i)),
{
    lemma_value_of_twos(i);
    if i != 0 && twos(i).len() == 1 {
        assert(twos(i)[0] == (i % 0x100) as u8);
    }
}

/// Bytes in the form in which an `mpint` is sent are the bytes of the
/// integer they stand for: every integer has one such form only.
pub proof fn lemma_minimal_is_canonical(bytes: Seq<u8>)
    requires
        is_minimal(bytes),
    ensures
        mpint_bytes(value_of(bytes)) == bytes,
{
    if bytes.len() == 0 {
        assert(mpint_bytes(value_of(bytes)) =~= bytes);
    } else {
        lemma_twos_of_value(bytes);
        lemma_value_of_twos(value_of(bytes));
        if value_of(bytes) == 0 {
            assert(twos(0).len() == 1);
            assert(twos(0)[0] == 0);
        }
    }
}

/// A spare leading byte can be left out: what is left stands for the
/// same integer.
pub proof fn lemma_drop_spare_lead(bytes: Seq<u8>)
    requires
        has_spare_lead(bytes),
    ensures
        value_of(bytes.drop_first()) == value_of(bytes),
    decreases bytes.len(),
{
    let tail = bytes.drop_first();
    if bytes.len() == 2 {
        assert(bytes.drop_last()[0] == bytes[0]);
        assert(value_of(bytes.drop_last()) == signed_byte(bytes[0]));
        assert(bytes.last() == bytes[1]);
        assert(tail[0] == bytes[1]);
    } else {
        let front = bytes.drop_last();
        assert(front[0] == bytes[0] && front[1] == bytes[1]);
        lemma_drop_spare_lead(front);
        assert(front.drop_first() =~= tail.drop_last());
        assert(tail.last() == bytes.last());
    }
}

/// A zero byte in front of a magnitude makes the form of a number that
/// is not negative.
pub proof fn lemma_value_of_positive(bytes: Seq<u8>)
    ensures
        value_of(seq![0u8] + bytes) == unsigned_of(bytes),
    decreases bytes.len(),
{
    let whole = seq![0u8] + bytes;
    if bytes.len() == 0 {
        assert(whole[0] == 0);
    } else {
        lemma_value_of_positive(bytes.drop_last());
        assert(whole.drop_last() =~= seq![0u8] + bytes.drop_last());
        assert(whole.last() == bytes.last());
    }
}

/// An integer that is written and read back is the same integer, and it
/// is written without a spare byte.
pub proof fn lemma_mpint_roundtrip(i: int, rest: Seq<u8>)
    requires
        mpint_bytes(i).len() < 0x1_0000_0000,
    ensures
        mpint_outcome(mpint_wire(i) + rest) == Ok::<nat, ErrorKind>(mpint_wire(i).len()),
        mpint_content(mpint_wire(i) + rest) == i,
        is_minimal(mpint_bytes(i)),
{
    lemma_bytes_roundtrip(mpint_bytes(i), rest);
    lemma_mpint_bytes(i);
}

/// A `mpint` as defined in the SSH protocol.
///
/// see <https://datatracker.ietf.org/doc/html/rfc4251#section-5>.
#[derive(Debug, PartialEq, Eq)]
pub struct MpInt {
    bytes: Vec<u8>,
}

impl View for MpInt {
    type V = int;

    closed spec fn view(&self) -> int {
        value_of(self.bytes@)
    }
}

impl Default for MpInt {
    fn default() -> (m: Self)
        ensures
            m@ == 0,
    {
        Self { bytes: Vec::new() }
    }
}

impl Clone for MpInt {
    fn clone(&self) -> (m: Self)
        ensures
            m@ == self@,
    {
        proof {
            use_type_invariant(self);
        }
        Self { bytes: slice_to_vec(self.bytes.as_slice()) }
    }
}

impl MpInt {
    #[verifier::type_invariant]
    spec fn minimal(&self) -> bool {
        is_minimal(self.bytes@)
    }

    /// Create the [`MpInt`] that the bytes stand for in two's complement,
    /// most significant byte first. Spare leading bytes are left out.
    pub fn from_bytes(bytes: &[u8]) -> (m: Self)
        ensures
            m@ == value_of(bytes@),
    {
        let mut start: usize = 0;
        assert(bytes@.skip(0) =~= bytes@);
        while bytes.len() - start >= 2 && ((bytes[start] == 0 && bytes[start + 1] < 0x80) || (
        bytes[start] == 0xff && bytes[start + 1] >= 0x80))
            invariant
                start <= bytes.len(),
                value_of(bytes@.skip(start as int)) == value_of(bytes@),
            decreases bytes.len() - start,
        {
            proof {
                let here = bytes@.skip(start as int);
                assert(here[0] == bytes@[start as int]);
                assert(here[1] == bytes@[start + 1]);
                lemma_drop_spare_lead(here);
                assert(here.drop_first() =~= bytes@.skip(start + 1));
            }
            start += 1;
        }
        let ghost left = bytes@.skip(start as int);
        proof {
            if left.len() >= 2 {
                assert(left[0] == bytes@[start as int]);
                assert(left[1] == bytes@[start + 1]);
            }
            assert(!has_spare_lead(left));
            assert(left =~= bytes@.subrange(start as int, bytes@.len() as int));
        }
        if bytes.len() - start == 1 && bytes[start] == 0 {
            assert(left[0] == 0);
            return Self { bytes: Vec::new() };
        }
        let kept = slice_to_vec(slice_subrange(bytes, start, bytes.len()));
        proof {
            if left.len() == 1 {
                assert(left[0] == bytes@[start as int]);
            }
        }
        Self { bytes: kept }
    }

    /// Create the [`MpInt`] of the natural number that the bytes spell,
    /// most significant byte first.
    pub fn positive(magnitude: &[u8]) -> (m: Self)
        ensures
            m@ == unsigned_of(magnitude@),
    {
        let mut bytes: Vec<u8> = Vec::new();
        bytes.push(0);
        bytes.extend_from_slice(magnitude);
        proof {
            assert(bytes@ =~= seq![0u8] + magnitude@);
            lemma_value_of_positive(magnitude@);
        }
        Self::from_bytes(bytes.as_slice())
    }

    /// Create the [`MpInt`] of a machine integer.
    pub fn from_i64(value: i64) -> (m: Self)
        ensures
            m@ == value,
    {
        proof {
            lemma_mpint_bytes(value as int);
        }
        if value == 0 {
            return Self { bytes: Vec::new() };
        }
        // The digits of `value`, least significant first.
        let mut digits: Vec<u8> = Vec::new();
        let mut left: i64 = value;
        let ghost mut tail: Seq<u8> = Seq::empty();
        assert(twos(left as int) + tail =~= twos(value as int));
        while left < -0x80 || left >= 0x80
            invariant
                twos(value as int) == twos(left as int) + tail,
                digits@.len() == tail.len(),
                forall|j: int| 0 <= j < tail.len() ==> digits@[j] == tail[tail.len() - 1 - j],
            decreases magnitude(left as int),
        {
            let digit: u8;
            let rest: i64;
            if left >= 0 {
                digit = (left % 0x100) as u8;
                rest = left / 0x100;
            } else {
                let below: i64 = -(left + 1);
                digit = (0xff - (below % 0x100)) as u8;
                rest = -(below / 0x100) - 1;
            }
            proof {
                assert(rest == left as int / 0x100);
                assert(digit == (left as int % 0x100) as u8);
                let grown = seq![digit] + tail;
                assert(twos(left as int) == twos(rest as int).push(digit));
                assert(twos(rest as int).push(digit) + tail =~= twos(rest as int) + grown);
                tail = grown;
            }
            digits.push(digit);
            left = rest;
        }
        let top: u8 = if left >= 0 {
            left as u8
        } else {
            (0x100 + left) as u8
        };
        digits.push(top);
        proof {
            assert(twos(left as int) =~= seq![top]);
            let grown = seq![top] + tail;
            assert(twos(left as int) + tail =~= grown);
            assert forall|j: int| 0 <= j < grown.len() implies digits@[j] == grown[grown.len() - 1
                - j] by {
                if j < tail.len() {
                    assert(grown[grown.len() - 1 - j] == tail[tail.len() - 1 - j]);
                }
            }
            tail = grown;
        }
        let mut bytes: Vec<u8> = Vec::new();
        let mut k: usize = digits.len();
        while k > 0
            invariant
                k <= digits.len(),
                digits@.len() == tail.len(),
                bytes@.len() == digits.len() - k,
                forall|j: int| 0 <= j < tail.len() ==> digits@[j] == tail[tail.len() - 1 - j],
                forall|j: int| 0 <= j < bytes@.len() ==> bytes@[j] == tail[j],
            decreases k,
        {
            k -= 1;
            bytes.push(digits[k]);
        }
        proof {
            assert(bytes@ =~= tail);
        }
        Self { bytes }
    }

    /// The bytes of this integer as they are sent: two's complement, most
    /// significant byte first, none of them spare.
    pub fn as_bytes(&self) -> (bytes: &[u8])
        ensures
            bytes@ == mpint_bytes(self@),
            is_minimal(bytes@),
            value_of(bytes@) == self@,
    {
        proof {
            use_type_invariant(self);
            lemma_minimal_is_canonical(self.bytes@);
        }
        self.bytes.as_slice()
    }

    /// Whether this integer is zero.
    pub fn is_zero(&self) -> (z: bool)
        ensures
            z == (self@ == 0),
    {
        proof {
            use_type_invariant(self);
            lemma_minimal_is_canonical(self.bytes@);
        }
        self.bytes.len() == 0
    }
}

impl Encode for MpInt {
    open spec fn wire(&self) -> Seq<u8> {
        mpint_wire(self@)
    }

    open spec fn fits(&self) -> bool {
        mpint_bytes(self@).len() < 0x1_0000_0000
    }

    fn encode(&self, out: &mut Vec<u8>) -> (r: Result<(), Error>) {
        Bytes::borrowed(self.as_bytes()).encode(out)
    }
}

impl<'b> Decode<'b> for MpInt {
    open spec fn outcome(buf: Seq<u8>) -> Result<nat, ErrorKind> {
        mpint_outcome(buf)
    }

    open spec fn decoded_from(&self, buf: Seq<u8>) -> bool {
        self@ == mpint_content(buf)
    }

    open spec fn sound(&self) -> bool {
        true
    }

    fn decode(buf: &'b [u8]) -> (r: Result<(Self, usize), Error>) {
        let (bytes, n) = Bytes::decode(buf)?;
        Ok((MpInt::from_bytes(bytes.as_ref()), n))
    }
}

impl<'b> Roundtrip<'b> for MpInt {
    proof fn lemma_reads_back(&self, rest: Seq<u8>) {
        lemma_mpint_roundtrip(self@, rest);
    }
}

} // verus!
