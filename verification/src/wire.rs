//! The fixed-width fields of the wire format, and the traits of the
//! values that are written to the wire and read from it.
//!
//! A value is written by [`Encode`] and read by [`Decode`]; what the two
//! do is said over sequences of bytes. [`Roundtrip`] is the law that ties
//! them: what was written is read back as it was. Pairs and lists of
//! such values are such values, and a message is a number followed by
//! its fields.

use vstd::prelude::*;

use crate::error::{Error, ErrorKind};

verus! {

/// The four bytes of `v`, most significant first.
pub open spec fn be32(v: u32) -> Seq<u8> {
    seq![
        (v / 0x100_0000) as u8,
        ((v / 0x1_0000) % 0x100) as u8,
        ((v / 0x100) % 0x100) as u8,
        (v % 0x100) as u8,
    ]
}

/// The number that the first four bytes of `s` spell, most significant
/// byte first.
pub open spec fn from_be32(s: Seq<u8>) -> u32
    recommends
        s.len() >= 4,
{
    (s[0] as int * 0x100_0000 + s[1] as int * 0x1_0000 + s[2] as int * 0x100 + s[3] as int) as u32
}

/// Reading back the four bytes of a number gives the number, whatever
/// follows them.
pub proof fn lemma_be32_roundtrip(v: u32, rest: Seq<u8>)
    ensures
        be32(v).len() == 4,
        from_be32(be32(v) + rest) == v,
{
    let s = be32(v) + rest;
    assert(s[0] == be32(v)[0]);
    assert(s[1] == be32(v)[1]);
    assert(s[2] == be32(v)[2]);
    assert(s[3] == be32(v)[3]);
}

/// A value with a wire representation.
pub trait Encode {
    /// The bytes that stand for this value on the wire.
    spec fn wire(&self) -> Seq<u8>;

    /// Whether every length that the wire form announces fits its field.
    spec fn fits(&self) -> bool;

    /// Appends the wire form of this value to `out`.
    ///
    /// A value that does not fit is refused with
    /// [`ErrorKind::EncodingOverflow`]; `out` then keeps what it held,
    /// possibly followed by a part of the wire form.
    fn encode(&self, out: &mut Vec<u8>) -> (r: Result<(), Error>)
        ensures
            self.fits() ==> r is Ok && final(out)@ == old(out)@ + self.wire(),
            !self.fits() ==> r is Err && r->Err_0.spec_kind() == ErrorKind::EncodingOverflow,
            r is Err ==> old(out)@.is_prefix_of(final(out)@),
    ;
}

/// A value that can be read from the front of a buffer.
pub trait Decode<'b>: Sized {
    /// What reading a value from the front of `buf` gives: the number of
    /// bytes that the value takes, or the reason why there is none.
    spec fn outcome(buf: Seq<u8>) -> Result<nat, ErrorKind>;

    /// Whether this value is the one that stands at the front of `buf`.
    spec fn decoded_from(&self, buf: Seq<u8>) -> bool;

    /// Whether whatever the type demands of its values holds of this
    /// one. It holds of every value that was read.
    spec fn sound(&self) -> bool;

    /// Reads a value from the front of `buf` and says how many bytes it
    /// took.
    fn decode(buf: &'b [u8]) -> (r: Result<(Self, usize), Error>)
        ensures
            match r {
                Ok((v, n)) => Self::outcome(buf@) == Ok::<nat, ErrorKind>(n as nat) && n
                    <= buf@.len() && v.decoded_from(buf@) && v.sound(),
                Err(e) => Self::outcome(buf@) == Err::<nat, ErrorKind>(e.spec_kind()),
            },
    ;
}

/// A value that is read back as it was written.
pub trait Roundtrip<'b>: Encode + Decode<'b> {
    /// A sound value that is written and read back is the same value,
    /// and reading takes the bytes that writing gave and no other,
    /// whatever follows them.
    proof fn lemma_reads_back(&self, rest: Seq<u8>)
        requires
            self.sound(),
            self.fits(),
        ensures
            Self::outcome(self.wire() + rest) == Ok::<nat, ErrorKind>(self.wire().len()),
            self.decoded_from(self.wire() + rest),
    ;
}

/// What reading a `u32` from the front of `buf` gives.
pub open spec fn u32_outcome(buf: Seq<u8>) -> Result<nat, ErrorKind> {
    if buf.len() >= 4 {
        Ok(4)
    } else {
        Err(ErrorKind::TruncatedInput)
    }
}

impl Encode for u32 {
    open spec fn wire(&self) -> Seq<u8> {
        be32(*self)
    }

    open spec fn fits(&self) -> bool {
        true
    }

    fn encode(&self, out: &mut Vec<u8>) -> (r: Result<(), Error>) {
        let v: u32 = *self;
        out.push((v / 0x100_0000) as u8);
        out.push(((v / 0x1_0000) % 0x100) as u8);
        out.push(((v / 0x100) % 0x100) as u8);
        out.push((v % 0x100) as u8);
        assert(out@ =~= old(out)@ + be32(v));
        Ok(())
    }
}

impl<'b> Decode<'b> for u32 {
    open spec fn outcome(buf: Seq<u8>) -> Result<nat, ErrorKind> {
        u32_outcome(buf)
    }

    open spec fn decoded_from(&self, buf: Seq<u8>) -> bool {
        *self == from_be32(buf)
    }

    open spec fn sound(&self) -> bool {
        true
    }

    fn decode(buf: &'b [u8]) -> (r: Result<(Self, usize), Error>) {
        if buf.len() < 4 {
            return Err(Error::TruncatedInput);
        }
        let v: u32 = (buf[0] as u32) * 0x100_0000 + (buf[1] as u32) * 0x1_0000 + (buf[2] as u32)
            * 0x100 + (buf[3] as u32);
        Ok((v, 4))
    }
}

impl<'b> Roundtrip<'b> for u32 {
    proof fn lemma_reads_back(&self, rest: Seq<u8>) {
        lemma_be32_roundtrip(*self, rest);
    }
}

impl Encode for u8 {
    open spec fn wire(&self) -> Seq<u8> {
        seq![*self]
    }

    open spec fn fits(&self) -> bool {
        true
    }

    fn encode(&self, out: &mut Vec<u8>) -> (r: Result<(), Error>) {
        out.push(*self);
        assert(out@ =~= old(out)@ + seq![*self]);
        Ok(())
    }
}

impl<'b> Decode<'b> for u8 {
    open spec fn outcome(buf: Seq<u8>) -> Result<nat, ErrorKind> {
        if buf.len() >= 1 {
            Ok(1)
        } else {
            Err(ErrorKind::TruncatedInput)
        }
    }

    open spec fn decoded_from(&self, buf: Seq<u8>) -> bool {
        *self == buf[0]
    }

    open spec fn sound(&self) -> bool {
        true
    }

    fn decode(buf: &'b [u8]) -> (r: Result<(Self, usize), Error>) {
        if buf.len() < 1 {
            return Err(Error::TruncatedInput);
        }
        Ok((buf[0], 1))
    }
}

impl<'b> Roundtrip<'b> for u8 {
    proof fn lemma_reads_back(&self, rest: Seq<u8>) {
        assert((seq![*self] + rest)[0] == *self);
    }
}

/// The number of bytes that a reading took; none where it failed.
pub open spec fn taken(outcome: Result<nat, ErrorKind>) -> nat {
    match outcome {
        Ok(n) => n,
        Err(_) => 0,
    }
}

/// What reading one value and then another gives: the bytes of both, or
/// the reason why the first of them that fails does.
pub open spec fn both(
    first: Result<nat, ErrorKind>,
    second: Result<nat, ErrorKind>,
) -> Result<nat, ErrorKind> {
    match first {
        Err(e) => Err(e),
        Ok(n) => match second {
            Err(e) => Err(e),
            Ok(m) => Ok(n + m),
        },
    }
}

impl<T: Encode> Encode for &T {
    open spec fn wire(&self) -> Seq<u8> {
        (**self).wire()
    }

    open spec fn fits(&self) -> bool {
        (**self).fits()
    }

    fn encode(&self, out: &mut Vec<u8>) -> (r: Result<(), Error>) {
        (**self).encode(out)
    }
}

/// Two values, one behind the other.
impl<A: Encode, B: Encode> Encode for (A, B) {
    open spec fn wire(&self) -> Seq<u8> {
        self.0.wire() + self.1.wire()
    }

    open spec fn fits(&self) -> bool {
        self.0.fits() && self.1.fits()
    }

    fn encode(&self, out: &mut Vec<u8>) -> (r: Result<(), Error>) {
        let ghost before = out@;
        match self.0.encode(out) {
            Err(_) => {
                return Err(Error::EncodingOverflow);
            },
            Ok(()) => {},
        }
        let ghost between = out@;
        match self.1.encode(out) {
            Err(_) => {
                assert(before.is_prefix_of(out@)) by {
                    assert(before.is_prefix_of(between));
                    assert(between.is_prefix_of(out@));
                    assert forall|i: int| 0 <= i < before.len() implies before[i] == out@[i] by {
                        assert(before[i] == between[i]);
                    }
                }
                return Err(Error::EncodingOverflow);
            },
            Ok(()) => {},
        }
        assert(out@ =~= before + (self.0.wire() + self.1.wire()));
        Ok(())
    }
}

impl<'b, A: Decode<'b>, B: Decode<'b>> Decode<'b> for (A, B) {
    open spec fn outcome(buf: Seq<u8>) -> Result<nat, ErrorKind> {
        both(A::outcome(buf), B::outcome(buf.skip(taken(A::outcome(buf)) as int)))
    }

    open spec fn decoded_from(&self, buf: Seq<u8>) -> bool {
        &&& self.0.decoded_from(buf)
        &&& self.1.decoded_from(buf.skip(taken(A::outcome(buf)) as int))
    }

    open spec fn sound(&self) -> bool {
        self.0.sound() && self.1.sound()
    }

    fn decode(buf: &'b [u8]) -> (r: Result<(Self, usize), Error>) {
        let (a, n) = A::decode(buf)?;
        let rest = vstd::slice::slice_subrange(buf, n, buf.len());
        assert(rest@ =~= buf@.skip(n as int));
        let (b, m) = B::decode(rest)?;
        Ok(((a, b), n + m))
    }
}

impl<'b, A: Roundtrip<'b>, B: Roundtrip<'b>> Roundtrip<'b> for (A, B) {
    proof fn lemma_reads_back(&self, rest: Seq<u8>) {
        let buf = self.wire() + rest;
        self.0.lemma_reads_back(self.1.wire() + rest);
        assert(buf =~= self.0.wire() + (self.1.wire() + rest));
        assert(buf.skip(self.0.wire().len() as int) =~= self.1.wire() + rest);
        self.1.lemma_reads_back(rest);
    }
}

/// The wire form of the message with the number `number` and the fields
/// `fields`.
pub open spec fn message_wire(number: u8, fields: Seq<u8>) -> Seq<u8> {
    seq![number] + fields
}

/// What reading the message with the number `number` from the front of
/// `buf` gives, where reading its fields gives `fields`: a buffer that
/// starts with another number holds another message.
pub open spec fn message_outcome(
    number: u8,
    buf: Seq<u8>,
    fields: Result<nat, ErrorKind>,
) -> Result<nat, ErrorKind> {
    if buf.len() < 1 {
        Err(ErrorKind::TruncatedInput)
    } else if buf[0] != number {
        Err(ErrorKind::UnknownVariant)
    } else {
        match fields {
            Err(e) => Err(e),
            Ok(n) => Ok(n + 1),
        }
    }
}

/// Appends the message with the number `number` and the fields `fields`
/// to `out`.
pub fn encode_message<T: Encode>(number: u8, fields: &T, out: &mut Vec<u8>) -> (r: Result<
    (),
    Error,
>)
    ensures
        fields.fits() ==> r is Ok && final(out)@ == old(out)@ + message_wire(number, fields.wire()),
        !fields.fits() ==> r is Err && r->Err_0.spec_kind() == ErrorKind::EncodingOverflow,
        r is Err ==> old(out)@.is_prefix_of(final(out)@),
{
    let ghost before = out@;
    out.push(number);
    let ghost between = out@;
    match fields.encode(out) {
        Err(_) => {
            assert forall|i: int| 0 <= i < before.len() implies before[i] == out@[i] by {
                assert(before[i] == between[i]);
            }
            Err(Error::EncodingOverflow)
        },
        Ok(()) => {
            assert(out@ =~= before + message_wire(number, fields.wire()));
            Ok(())
        },
    }
}

/// Reads the fields of the message with the number `number` from the
/// front of `buf`.
pub fn decode_message<'b, T: Decode<'b>>(number: u8, buf: &'b [u8]) -> (r: Result<
    (T, usize),
    Error,
>)
    ensures
        match r {
            Ok((v, n)) => message_outcome(number, buf@, T::outcome(buf@.skip(1))) == Ok::<
                nat,
                ErrorKind,
            >(n as nat) && n <= buf@.len() && v.decoded_from(buf@.skip(1)) && v.sound(),
            Err(e) => message_outcome(number, buf@, T::outcome(buf@.skip(1))) == Err::<
                nat,
                ErrorKind,
            >(e.spec_kind()),
        },
{
    if buf.len() < 1 {
        return Err(Error::TruncatedInput);
    }
    if buf[0] != number {
        let mut tag: Vec<u8> = Vec::new();
        tag.push(buf[0]);
        return Err(Error::UnknownVariant(tag));
    }
    let rest = vstd::slice::slice_subrange(buf, 1, buf.len());
    assert(rest@ =~= buf@.skip(1));
    let (fields, n) = T::decode(rest)?;
    Ok((fields, n + 1))
}

/// A message whose fields are read back as they were written is read
/// back as it was written.
pub proof fn lemma_message_reads_back<'b, T: Roundtrip<'b>>(number: u8, fields: T, rest: Seq<u8>)
    requires
        fields.sound(),
        fields.fits(),
    ensures
        message_outcome(
            number,
            message_wire(number, fields.wire()) + rest,
            T::outcome((message_wire(number, fields.wire()) + rest).skip(1)),
        ) == Ok::<nat, ErrorKind>(message_wire(number, fields.wire()).len()),
        fields.decoded_from((message_wire(number, fields.wire()) + rest).skip(1)),
{
    let buf = message_wire(number, fields.wire()) + rest;
    assert(buf[0] == number);
    assert(buf.skip(1) =~= fields.wire() + rest);
    fields.lemma_reads_back(rest);
}

/// No field at all.
impl Encode for () {
    open spec fn wire(&self) -> Seq<u8> {
        Seq::empty()
    }

    open spec fn fits(&self) -> bool {
        true
    }

    fn encode(&self, out: &mut Vec<u8>) -> (r: Result<(), Error>) {
        assert(out@ =~= old(out)@ + Seq::<u8>::empty());
        Ok(())
    }
}

impl<'b> Decode<'b> for () {
    open spec fn outcome(buf: Seq<u8>) -> Result<nat, ErrorKind> {
        Ok(0)
    }

    open spec fn decoded_from(&self, buf: Seq<u8>) -> bool {
        true
    }

    open spec fn sound(&self) -> bool {
        true
    }

    fn decode(buf: &'b [u8]) -> (r: Result<(Self, usize), Error>) {
        Ok(((), 0))
    }
}

impl<'b> Roundtrip<'b> for () {
    proof fn lemma_reads_back(&self, rest: Seq<u8>) {
    }
}

/// Four bytes kept for a later use: zero when written, and anything
/// when read.
#[derive(Debug, Default, Clone, Copy, PartialEq, Eq, Structural)]
pub struct Reserved;

impl Encode for Reserved {
    open spec fn wire(&self) -> Seq<u8> {
        be32(0)
    }

    open spec fn fits(&self) -> bool {
        true
    }

    fn encode(&self, out: &mut Vec<u8>) -> (r: Result<(), Error>) {
        0u32.encode(out)
    }
}

impl<'b> Decode<'b> for Reserved {
    open spec fn outcome(buf: Seq<u8>) -> Result<nat, ErrorKind> {
        u32_outcome(buf)
    }

    open spec fn decoded_from(&self, buf: Seq<u8>) -> bool {
        true
    }

    open spec fn sound(&self) -> bool {
        true
    }

    fn decode(buf: &'b [u8]) -> (r: Result<(Self, usize), Error>) {
        if buf.len() < 4 {
            return Err(Error::TruncatedInput);
        }
        Ok((Reserved, 4))
    }
}

impl<'b> Roundtrip<'b> for Reserved {
    proof fn lemma_reads_back(&self, rest: Seq<u8>) {
        lemma_be32_roundtrip(0, rest);
    }
}

/// Sixteen bytes sent as they are.
impl Encode for [u8; 16] {
    open spec fn wire(&self) -> Seq<u8> {
        self@
    }

    open spec fn fits(&self) -> bool {
        true
    }

    fn encode(&self, out: &mut Vec<u8>) -> (r: Result<(), Error>) {
        let mut i: usize = 0;
        while i < 16
            invariant
                i <= 16,
                out@ == old(out)@ + self@.take(i as int),
            decreases 16 - i,
        {
            out.push(self[i]);
            i += 1;
            assert(out@ =~= old(out)@ + self@.take(i as int));
        }
        assert(self@.take(16) =~= self@);
        Ok(())
    }
}

impl<'b> Decode<'b> for [u8; 16] {
    open spec fn outcome(buf: Seq<u8>) -> Result<nat, ErrorKind> {
        if buf.len() >= 16 {
            Ok(16)
        } else {
            Err(ErrorKind::TruncatedInput)
        }
    }

    open spec fn decoded_from(&self, buf: Seq<u8>) -> bool {
        self@ == buf.take(16)
    }

    open spec fn sound(&self) -> bool {
        true
    }

    fn decode(buf: &'b [u8]) -> (r: Result<(Self, usize), Error>) {
        if buf.len() < 16 {
            return Err(Error::TruncatedInput);
        }
        let mut bytes: [u8; 16] = [0u8; 16];
        let mut i: usize = 0;
        while i < 16
            invariant
                i <= 16,
                buf@.len() >= 16,
                forall|j: int| 0 <= j < i ==> bytes@[j] == buf@[j],
            decreases 16 - i,
        {
            bytes[i] = buf[i];
            i += 1;
        }
        assert(bytes@ =~= buf@.take(16));
        Ok((bytes, 16))
    }
}

impl<'b> Roundtrip<'b> for [u8; 16] {
    proof fn lemma_reads_back(&self, rest: Seq<u8>) {
        assert((self@ + rest).take(16) =~= self@);
    }
}

/// The wire forms of the items, one behind the other.
pub open spec fn items_wire<T: Encode>(items: Seq<T>) -> Seq<u8>
    decreases items.len(),
{
    if items.len() == 0 {
        Seq::empty()
    } else {
        items_wire(items.drop_last()) + items.last().wire()
    }
}

/// Whether every item can be written.
pub open spec fn items_fit<T: Encode>(items: Seq<T>) -> bool {
    forall|i: int| 0 <= i < items.len() ==> (#[trigger] items[i]).fits()
}

/// The number of bytes in front of the item with the index `index`,
/// where the items before it can be read.
pub open spec fn item_at<'b, T: Decode<'b>>(buf: Seq<u8>, index: nat) -> nat
    decreases index,
{
    if index == 0 {
        0
    } else {
        let before = item_at::<T>(buf, (index - 1) as nat);
        before + taken(T::outcome(buf.skip(before as int)))
    }
}

/// What reading `count` items from `buf` gives, the first `done` of which
/// were read.
pub open spec fn items_outcome<'b, T: Decode<'b>>(buf: Seq<u8>, done: nat, count: nat) -> Result<
    nat,
    ErrorKind,
>
    decreases count - done,
{
    if done >= count {
        Ok(item_at::<T>(buf, count))
    } else {
        match T::outcome(buf.skip(item_at::<T>(buf, done) as int)) {
            Err(e) => Err(e),
            Ok(_) => items_outcome::<T>(buf, done + 1, count),
        }
    }
}

/// Whether the items are the ones that stand at the front of `buf`.
pub open spec fn items_decoded_from<'b, T: Decode<'b>>(items: Seq<T>, buf: Seq<u8>) -> bool {
    forall|i: int|
        0 <= i < items.len() ==> (#[trigger] items[i]).decoded_from(
            buf.skip(item_at::<T>(buf, i as nat) as int),
        )
}

/// Items behind their number.
impl<T: Encode> Encode for Vec<T> {
    open spec fn wire(&self) -> Seq<u8> {
        be32(self@.len() as u32) + items_wire(self@)
    }

    open spec fn fits(&self) -> bool {
        self@.len() < 0x1_0000_0000 && items_fit(self@)
    }

    fn encode(&self, out: &mut Vec<u8>) -> (r: Result<(), Error>) {
        if self.len() > 0xffff_ffff {
            return Err(Error::EncodingOverflow);
        }
        let count: u32 = self.len() as u32;
        let _ = count.encode(out);
        let ghost head = out@;
        let mut i: usize = 0;
        assert(out@ =~= head + items_wire(self@.take(0)));
        while i < self.len()
            invariant
                i <= self.len(),
                head == old(out)@ + be32(count),
                out@ == head + items_wire(self@.take(i as int)),
                forall|j: int| 0 <= j < i ==> (#[trigger] self@[j]).fits(),
            decreases self.len() - i,
        {
            let ghost before = out@;
            proof {
                assert(self@.take(i + 1).drop_last() =~= self@.take(i as int));
                assert(self@.take(i + 1).last() == self@[i as int]);
            }
            match self[i].encode(out) {
                Err(_) => {
                    assert forall|k: int| 0 <= k < old(out)@.len() implies old(out)@[k]
                        == out@[k] by {
                        assert(old(out)@[k] == before[k]);
                    }
                    return Err(Error::EncodingOverflow);
                },
                Ok(()) => {},
            }
            i += 1;
            assert(out@ =~= head + items_wire(self@.take(i as int)));
        }
        assert(self@.take(self@.len() as int) =~= self@);
        assert(out@ =~= old(out)@ + (be32(count) + items_wire(self@)));
        Ok(())
    }
}

impl<'b, T: Decode<'b>> Decode<'b> for Vec<T> {
    open spec fn outcome(buf: Seq<u8>) -> Result<nat, ErrorKind> {
        both(u32_outcome(buf), items_outcome::<T>(buf.skip(4), 0, from_be32(buf) as nat))
    }

    open spec fn decoded_from(&self, buf: Seq<u8>) -> bool {
        self@.len() == from_be32(buf) && items_decoded_from(self@, buf.skip(4))
    }

    open spec fn sound(&self) -> bool {
        forall|i: int| 0 <= i < self@.len() ==> (#[trigger] self@[i]).sound()
    }

    fn decode(buf: &'b [u8]) -> (r: Result<(Self, usize), Error>) {
        let (count, _) = u32::decode(buf)?;
        let rest = vstd::slice::slice_subrange(buf, 4, buf.len());
        assert(rest@ =~= buf@.skip(4));
        let mut items: Vec<T> = Vec::new();
        let mut at: usize = 0;
        let mut i: u32 = 0;
        while i < count
            invariant
                i <= count,
                at <= rest@.len(),
                buf@.len() >= 4,
                rest@ == buf@.skip(4),
                count == from_be32(buf@),
                at == item_at::<T>(rest@, i as nat),
                items@.len() == i,
                items_outcome::<T>(rest@, 0, count as nat) == items_outcome::<T>(
                    rest@,
                    i as nat,
                    count as nat,
                ),
                forall|j: int|
                    0 <= j < i ==> (#[trigger] items@[j]).decoded_from(
                        rest@.skip(item_at::<T>(rest@, j as nat) as int),
                    ),
                forall|j: int| 0 <= j < i ==> (#[trigger] items@[j]).sound(),
            decreases count - i,
        {
            let here = vstd::slice::slice_subrange(rest, at, rest.len());
            assert(here@ =~= rest@.skip(at as int));
            let ghost before = items@;
            match T::decode(here) {
                Err(e) => {
                    return Err(e);
                },
                Ok((item, n)) => {
                    items.push(item);
                    at = at + n;
                    i = i + 1;
                    proof {
                        assert forall|j: int| 0 <= j < i implies (#[trigger] items@[j])
                            .decoded_from(rest@.skip(item_at::<T>(rest@, j as nat) as int)) by {
                            if j < i - 1 {
                                assert(items@[j] == before[j]);
                            }
                        }
                        assert forall|j: int| 0 <= j < i implies (#[trigger] items@[j]).sound() by {
                            if j < i - 1 {
                                assert(items@[j] == before[j]);
                            }
                        }
                    }
                },
            }
        }
        Ok((items, 4 + at))
    }
}

/// The wire forms of items listed one after the other follow in the
/// same way.
pub proof fn lemma_items_wire_concat<T: Encode>(front: Seq<T>, back: Seq<T>)
    ensures
        items_wire(front + back) == items_wire(front) + items_wire(back),
    decreases back.len(),
{
    if back.len() == 0 {
        assert(front + back =~= front);
        assert(items_wire(front + back) =~= items_wire(front) + items_wire(back));
    } else {
        let whole = front + back;
        assert(whole.drop_last() =~= front + back.drop_last());
        assert(whole.last() == back.last());
        lemma_items_wire_concat(front, back.drop_last());
        assert(items_wire(whole) =~= items_wire(front) + items_wire(back));
    }
}

/// The item with the index `index` stands behind the wire forms of the
/// items before it, and is read back there as it was written.
pub proof fn lemma_item_reads_back<'b, T: Roundtrip<'b>>(items: Seq<T>, rest: Seq<u8>, index: nat)
    requires
        index <= items.len(),
        forall|i: int| 0 <= i < items.len() ==> (#[trigger] items[i]).sound() && items[i].fits(),
    ensures
        item_at::<T>(items_wire(items) + rest, index) == items_wire(
            items.take(index as int),
        ).len(),
        index < items.len() ==> {
            let here = (items_wire(items) + rest).skip(
                item_at::<T>(items_wire(items) + rest, index) as int,
            );
            &&& T::outcome(here) == Ok::<nat, ErrorKind>(items[index as int].wire().len())
            &&& items[index as int].decoded_from(here)
        },
    decreases index,
{
    let buf = items_wire(items) + rest;
    if index > 0 {
        lemma_item_reads_back::<T>(items, rest, (index - 1) as nat);
        let before = items.take(index - 1);
        let upto = items.take(index as int);
        assert(upto.drop_last() =~= before);
        assert(upto.last() == items[index - 1]);
    }
    if index < items.len() {
        let upto = items.take(index as int);
        let after = items.skip(index as int + 1);
        let item = items[index as int];
        assert(items =~= upto.push(item) + after);
        lemma_items_wire_concat(upto.push(item), after);
        assert(upto.push(item).drop_last() =~= upto);
        assert(items_wire(upto.push(item)) == items_wire(upto) + item.wire());
        let tail = items_wire(after) + rest;
        assert(buf =~= items_wire(upto) + (item.wire() + tail));
        assert(buf.skip(items_wire(upto).len() as int) =~= item.wire() + tail);
        item.lemma_reads_back(tail);
    }
}

/// Reading the items that are left gives the bytes of all of them.
proof fn lemma_items_outcome<'b, T: Roundtrip<'b>>(items: Seq<T>, rest: Seq<u8>, done: nat)
    requires
        done <= items.len(),
        forall|i: int| 0 <= i < items.len() ==> (#[trigger] items[i]).sound() && items[i].fits(),
    ensures
        items_outcome::<T>(items_wire(items) + rest, done, items.len()) == Ok::<nat, ErrorKind>(
            items_wire(items).len(),
        ),
    decreases items.len() - done,
{
    lemma_item_reads_back::<T>(items, rest, done);
    if done < items.len() {
        lemma_items_outcome::<T>(items, rest, done + 1);
    } else {
        assert(items.take(items.len() as int) =~= items);
    }
}

impl<'b, T: Roundtrip<'b>> Roundtrip<'b> for Vec<T> {
    proof fn lemma_reads_back(&self, rest: Seq<u8>) {
        let count = self@.len() as u32;
        let tail = items_wire(self@) + rest;
        let buf = self.wire() + rest;
        assert(buf =~= be32(count) + tail);
        lemma_be32_roundtrip(count, tail);
        assert(buf.skip(4) =~= tail);
        lemma_items_outcome::<T>(self@, rest, 0);
        assert forall|i: int| 0 <= i < self@.len() implies (#[trigger] self@[i]).decoded_from(
            tail.skip(item_at::<T>(tail, i as nat) as int),
        ) by {
            lemma_item_reads_back::<T>(self@, rest, i as nat);
        }
    }
}

/// The wire form of a value as a vector of its own.
pub fn to_bytes<T: Encode>(value: &T) -> (r: Result<Vec<u8>, Error>)
    ensures
        value.fits() ==> r is Ok && r->Ok_0@ == value.wire(),
        !value.fits() ==> r is Err && r->Err_0.spec_kind() == ErrorKind::EncodingOverflow,
{
    let mut out: Vec<u8> = Vec::new();
    match value.encode(&mut out) {
        Err(e) => Err(e),
        Ok(()) => {
            assert(out@ =~= value.wire());
            Ok(out)
        },
    }
}

/// The value that stands at the front of `bytes`.
pub fn from_bytes<'b, T: Decode<'b>>(bytes: &'b [u8]) -> (r: Result<T, Error>)
    ensures
        match r {
            Ok(v) => T::outcome(bytes@) is Ok && v.decoded_from(bytes@) && v.sound(),
            Err(e) => T::outcome(bytes@) == Err::<nat, ErrorKind>(e.spec_kind()),
        },
{
    match T::decode(bytes) {
        Ok((v, _)) => Ok(v),
        Err(e) => Err(e),
    }
}

} // verus!
