//! Payloads whose shape is named by a tag that is sent ahead of them.
//!
//! A set of shapes is closed: each shape has one tag, an ASCII text, and
//! a tag that names none of them is an error. The tag is read first, as a
//! plain text; then the one shape that it names is read, and no other is
//! tried. When a value is written its tag is derived from its shape.

use vstd::prelude::*;
use vstd::slice::slice_subrange;
use vstd::utf8::{encode_utf8, is_ascii_chars};

use crate::arch::boolean::{bool_content, bool_outcome, bool_wire, Bool};
use crate::arch::string::{
    ascii_outcome, lemma_ascii_roundtrip, text_wire, utf8_content, StringAscii,
};
use crate::error::{Error, ErrorKind};
use crate::wire::{both, message_outcome, message_wire, taken, Decode, Encode, Roundtrip};

verus! {

/// A value of one of the shapes of a closed set.
pub trait Variant<'b>: Sized {
    /// The tag that names the shape of this value.
    spec fn tag(&self) -> Seq<char>;

    /// Whether `tag` names a shape of the set.
    spec fn known(tag: Seq<char>) -> bool;

    /// The bytes of the payload, tag excluded.
    spec fn payload(&self) -> Seq<u8>;

    /// Whether every length that the payload announces fits its field.
    spec fn payload_fits(&self) -> bool;

    /// What reading a payload of the shape that `tag` names from the
    /// front of `buf` gives.
    spec fn payload_outcome(tag: Seq<char>, buf: Seq<u8>) -> Result<nat, ErrorKind>;

    /// Whether this value is the payload that stands at the front of
    /// `buf`.
    spec fn payload_decoded_from(&self, buf: Seq<u8>) -> bool;

    /// Whether whatever the types of the fields of the payload demand of
    /// their values holds of them. It holds of every payload that was
    /// read.
    spec fn payload_sound(&self) -> bool;

    /// The tag of a value names its shape and no other, and a sound
    /// payload that is written and read back under that tag is the same
    /// payload.
    proof fn lemma_payload_reads_back(&self, rest: Seq<u8>)
        requires
            self.payload_sound(),
            self.payload_fits(),
        ensures
            Self::known(self.tag()),
            is_ascii_chars(self.tag()),
            self.tag().len() < 0x1_0000_0000,
            Self::payload_outcome(self.tag(), self.payload() + rest) == Ok::<nat, ErrorKind>(
                self.payload().len(),
            ),
            self.payload_decoded_from(self.payload() + rest),
    ;

    /// The tag that names the shape of this value.
    fn tag_of(&self) -> (tag: StringAscii)
        ensures
            tag@ == self.tag(),
            Self::known(self.tag()),
            is_ascii_chars(self.tag()),
    ;

    /// Appends the payload of this value to `out`.
    fn encode_payload(&self, out: &mut Vec<u8>) -> (r: Result<(), Error>)
        ensures
            self.payload_fits() ==> r is Ok && final(out)@ == old(out)@ + self.payload(),
            !self.payload_fits() ==> r is Err && r->Err_0.spec_kind()
                == ErrorKind::EncodingOverflow,
            r is Err ==> old(out)@.is_prefix_of(final(out)@),
    ;

    /// Reads a payload of the shape that `tag` names from the front of
    /// `buf`. A tag that names no shape of the set is refused before a
    /// byte of `buf` is looked at, and the error holds the tag.
    fn decode_payload(tag: &StringAscii, buf: &'b [u8]) -> (r: Result<(Self, usize), Error>)
        ensures
            !Self::known(tag@) ==> (r matches Err(Error::UnknownVariant(name)) && name@
                == encode_utf8(tag@)),
            Self::known(tag@) ==> match r {
                Ok((v, n)) => Self::payload_outcome(tag@, buf@) == Ok::<nat, ErrorKind>(n as nat)
                    && n <= buf@.len() && v.tag() == tag@ && v.payload_decoded_from(buf@)
                    && v.payload_sound(),
                Err(e) => Self::payload_outcome(tag@, buf@) == Err::<nat, ErrorKind>(
                    e.spec_kind(),
                ),
            },
    ;
}

/// The wire form of a tagged value: what stands before the tag, the tag,
/// what stands between the tag and the payload, and the payload.
pub open spec fn dispatch_wire(
    before: Seq<u8>,
    tag: Seq<char>,
    between: Seq<u8>,
    payload: Seq<u8>,
) -> Seq<u8> {
    before + text_wire(tag) + between + payload
}

/// The number of bytes in front of the tag, where they can be read.
pub open spec fn tag_at<'b, P: Decode<'b>>(buf: Seq<u8>) -> int {
    taken(P::outcome(buf)) as int
}

/// The number of bytes in front of what stands between the tag and the
/// payload, where they can be read.
pub open spec fn between_at<'b, P: Decode<'b>>(buf: Seq<u8>) -> int {
    tag_at::<P>(buf) + taken(ascii_outcome(buf.skip(tag_at::<P>(buf))))
}

/// The number of bytes in front of the payload, where they can be read.
pub open spec fn payload_at<'b, P: Decode<'b>, M: Decode<'b>>(buf: Seq<u8>) -> int {
    between_at::<P>(buf) + taken(M::outcome(buf.skip(between_at::<P>(buf))))
}

/// The tag that is read from `buf`.
pub open spec fn tag_in<'b, P: Decode<'b>>(buf: Seq<u8>) -> Seq<char> {
    utf8_content(buf.skip(tag_at::<P>(buf)))
}

/// What reading a tagged value from the front of `buf` gives: what stands
/// before the tag, the tag, what stands between the tag and the payload,
/// and then, if the tag names a shape, the payload of that shape. A tag
/// that names none is refused whatever follows it.
pub open spec fn dispatch_outcome<'b, P: Decode<'b>, M: Decode<'b>, V: Variant<'b>>(
    buf: Seq<u8>,
) -> Result<nat, ErrorKind> {
    let head = both(
        both(P::outcome(buf), ascii_outcome(buf.skip(tag_at::<P>(buf)))),
        M::outcome(buf.skip(between_at::<P>(buf))),
    );
    match head {
        Err(e) => Err(e),
        Ok(n) => if !V::known(tag_in::<P>(buf)) {
            Err(ErrorKind::UnknownVariant)
        } else {
            both(
                Ok(n),
                V::payload_outcome(tag_in::<P>(buf), buf.skip(payload_at::<P, M>(buf))),
            )
        },
    }
}

/// Whether the three values are what stands at the front of `buf`.
pub open spec fn dispatch_decoded_from<'b, P: Decode<'b>, M: Decode<'b>, V: Variant<'b>>(
    before: P,
    between: M,
    variant: V,
    buf: Seq<u8>,
) -> bool {
    &&& before.decoded_from(buf)
    &&& variant.tag() == tag_in::<P>(buf)
    &&& between.decoded_from(buf.skip(between_at::<P>(buf)))
    &&& variant.payload_decoded_from(buf.skip(payload_at::<P, M>(buf)))
}

/// Whether the three values are sound.
pub open spec fn dispatch_sound<'b, P: Decode<'b>, M: Decode<'b>, V: Variant<'b>>(
    before: P,
    between: M,
    variant: V,
) -> bool {
    before.sound() && between.sound() && variant.payload_sound()
}

/// Whether a tagged value can be written.
pub open spec fn dispatch_fits<'b, P: Encode, M: Encode, V: Variant<'b>>(
    before: P,
    between: M,
    variant: V,
) -> bool {
    before.fits() && between.fits() && variant.payload_fits() && variant.tag().len()
        < 0x1_0000_0000
}

/// Appends a tagged value to `out`: the tag is the one of the shape of
/// `variant`.
pub fn encode_dispatch<'b, P: Encode, M: Encode, V: Variant<'b>>(
    before: &P,
    between: &M,
    variant: &V,
    out: &mut Vec<u8>,
) -> (r: Result<(), Error>)
    ensures
        dispatch_fits(*before, *between, *variant) ==> r is Ok && final(out)@ == old(out)@
            + dispatch_wire(before.wire(), variant.tag(), between.wire(), variant.payload()),
        !dispatch_fits(*before, *between, *variant) ==> r is Err && r->Err_0.spec_kind()
            == ErrorKind::EncodingOverflow,
        r is Err ==> old(out)@.is_prefix_of(final(out)@),
{
    let ghost start = out@;
    match before.encode(out) {
        Err(_) => {
            return Err(Error::EncodingOverflow);
        },
        Ok(()) => {},
    }
    let ghost first = out@;
    let tag = variant.tag_of();
    proof {
        vstd::utf8::is_ascii_chars_encode_utf8(tag@);
    }
    match tag.encode(out) {
        Err(_) => {
            proof {
                lemma_prefix_chain(start, first, out@);
            }
            return Err(Error::EncodingOverflow);
        },
        Ok(()) => {},
    }
    let ghost second = out@;
    proof {
        lemma_prefix_chain(start, first, second);
    }
    match between.encode(out) {
        Err(_) => {
            proof {
                lemma_prefix_chain(start, second, out@);
            }
            return Err(Error::EncodingOverflow);
        },
        Ok(()) => {},
    }
    let ghost third = out@;
    proof {
        lemma_prefix_chain(start, second, third);
    }
    match variant.encode_payload(out) {
        Err(_) => {
            proof {
                lemma_prefix_chain(start, third, out@);
            }
            return Err(Error::EncodingOverflow);
        },
        Ok(()) => {},
    }
    assert(out@ =~= start + dispatch_wire(
        before.wire(),
        variant.tag(),
        between.wire(),
        variant.payload(),
    ));
    Ok(())
}

/// A prefix of a prefix is a prefix.
proof fn lemma_prefix_chain(a: Seq<u8>, b: Seq<u8>, c: Seq<u8>)
    requires
        a.is_prefix_of(b),
        b.is_prefix_of(c),
    ensures
        a.is_prefix_of(c),
{
    assert forall|i: int| 0 <= i < a.len() implies a[i] == c[i] by {
        assert(a[i] == b[i]);
    }
}

/// Reads a tagged value from the front of `buf`.
pub fn decode_dispatch<'b, P: Decode<'b>, M: Decode<'b>, V: Variant<'b>>(buf: &'b [u8]) -> (r:
    Result<((P, M, V), usize), Error>)
    ensures
        match r {
            Ok(((before, between, variant), n)) => dispatch_outcome::<P, M, V>(buf@) == Ok::<
                nat,
                ErrorKind,
            >(n as nat) && n <= buf@.len() && dispatch_decoded_from(
                before,
                between,
                variant,
                buf@,
            ) && dispatch_sound(before, between, variant),
            Err(e) => dispatch_outcome::<P, M, V>(buf@) == Err::<nat, ErrorKind>(e.spec_kind()),
        },
{
    let (before, n) = P::decode(buf)?;
    let rest = slice_subrange(buf, n, buf.len());
    assert(rest@ =~= buf@.skip(n as int));
    let (tag, t) = StringAscii::decode(rest)?;
    let rest = slice_subrange(buf, n + t, buf.len());
    assert(rest@ =~= buf@.skip(n + t));
    let (between, m) = M::decode(rest)?;
    let rest = slice_subrange(buf, n + t + m, buf.len());
    assert(rest@ =~= buf@.skip(n + t + m));
    let (variant, p) = V::decode_payload(&tag, rest)?;
    Ok(((before, between, variant), n + t + m + p))
}

/// A tagged value that is written and read back is the same value, under
/// the same tag.
pub proof fn lemma_dispatch_reads_back<'b, P: Roundtrip<'b>, M: Roundtrip<'b>, V: Variant<'b>>(
    before: P,
    between: M,
    variant: V,
    rest: Seq<u8>,
)
    requires
        dispatch_sound(before, between, variant),
        dispatch_fits(before, between, variant),
    ensures
        ({
            let wire = dispatch_wire(
                before.wire(),
                variant.tag(),
                between.wire(),
                variant.payload(),
            );
            &&& dispatch_outcome::<P, M, V>(wire + rest) == Ok::<nat, ErrorKind>(wire.len())
            &&& dispatch_decoded_from(before, between, variant, wire + rest)
        }),
{
    let tag = text_wire(variant.tag());
    let wire = dispatch_wire(before.wire(), variant.tag(), between.wire(), variant.payload());
    let buf = wire + rest;
    variant.lemma_payload_reads_back(rest);
    let behind_before = tag + between.wire() + variant.payload() + rest;
    before.lemma_reads_back(behind_before);
    assert(buf =~= before.wire() + behind_before);
    assert(buf.skip(before.wire().len() as int) =~= behind_before);
    let behind_tag = between.wire() + variant.payload() + rest;
    lemma_ascii_roundtrip(variant.tag(), behind_tag);
    assert(behind_before =~= tag + behind_tag);
    assert(buf.skip((before.wire().len() + tag.len()) as int) =~= behind_tag);
    let behind_between = variant.payload() + rest;
    between.lemma_reads_back(behind_between);
    assert(behind_tag =~= between.wire() + behind_between);
    assert(buf.skip((before.wire().len() + tag.len() + between.wire().len()) as int)
        =~= behind_between);
}

/// A message whose fields are a tagged value is read back as it was
/// written.
pub proof fn lemma_tagged_message_reads_back<
    'b,
    P: Roundtrip<'b>,
    M: Roundtrip<'b>,
    V: Variant<'b>,
>(number: u8, before: P, between: M, variant: V, rest: Seq<u8>)
    requires
        dispatch_sound(before, between, variant),
        dispatch_fits(before, between, variant),
    ensures
        ({
            let wire = message_wire(
                number,
                dispatch_wire(before.wire(), variant.tag(), between.wire(), variant.payload()),
            );
            &&& message_outcome(
                number,
                wire + rest,
                dispatch_outcome::<P, M, V>((wire + rest).skip(1)),
            ) == Ok::<nat, ErrorKind>(wire.len())
            &&& dispatch_decoded_from(before, between, variant, (wire + rest).skip(1))
        }),
{
    let fields = dispatch_wire(before.wire(), variant.tag(), between.wire(), variant.payload());
    let buf = message_wire(number, fields) + rest;
    assert(buf[0] == number);
    assert(buf.skip(1) =~= fields + rest);
    lemma_dispatch_reads_back(before, between, variant, rest);
}

/// A tag that names no shape is refused as an unknown variant, whatever
/// stands behind what is read before the payload: of the payload
/// nothing is read.
pub proof fn lemma_unknown_tag_is_refused<'b, P: Roundtrip<'b>, M: Roundtrip<'b>, V: Variant<'b>>(
    before: P,
    tag: Seq<char>,
    between: M,
    rest: Seq<u8>,
)
    requires
        before.sound(),
        before.fits(),
        between.sound(),
        between.fits(),
        is_ascii_chars(tag),
        tag.len() < 0x1_0000_0000,
        !V::known(tag),
    ensures
        dispatch_outcome::<P, M, V>(before.wire() + text_wire(tag) + between.wire() + rest)
            == Err::<nat, ErrorKind>(ErrorKind::UnknownVariant),
{
    let name = text_wire(tag);
    let buf = before.wire() + name + between.wire() + rest;
    let behind_before = name + between.wire() + rest;
    before.lemma_reads_back(behind_before);
    assert(buf =~= before.wire() + behind_before);
    assert(buf.skip(before.wire().len() as int) =~= behind_before);
    let behind_tag = between.wire() + rest;
    lemma_ascii_roundtrip(tag, behind_tag);
    assert(behind_before =~= name + behind_tag);
    assert(buf.skip((before.wire().len() + name.len()) as int) =~= behind_tag);
    between.lemma_reads_back(rest);
}

/// The wire form of a value that is there or not: a flag that says
/// whether it is, what stands between the flag and the value, and the
/// value if it is there.
pub open spec fn flagged_wire(between: Seq<u8>, value: Option<Seq<u8>>) -> Seq<u8> {
    match value {
        Some(bytes) => bool_wire(true) + between + bytes,
        None => bool_wire(false) + between,
    }
}

/// The number of bytes in front of the value that is there or not.
pub open spec fn flagged_at<'b, M: Decode<'b>>(buf: Seq<u8>) -> int {
    1 + taken(M::outcome(buf.skip(1))) as int
}

/// What reading a value that is there or not from the front of `buf`
/// gives.
pub open spec fn flagged_outcome<'b, M: Decode<'b>, T: Decode<'b>>(buf: Seq<u8>) -> Result<
    nat,
    ErrorKind,
> {
    let head = both(bool_outcome(buf), M::outcome(buf.skip(1)));
    match head {
        Err(e) => Err(e),
        Ok(n) => if bool_content(buf) {
            both(Ok(n), T::outcome(buf.skip(flagged_at::<M>(buf))))
        } else {
            Ok(n)
        },
    }
}

/// Whether the two values are what stands at the front of `buf`.
pub open spec fn flagged_decoded_from<'b, M: Decode<'b>, T: Decode<'b>>(
    between: M,
    value: Option<T>,
    buf: Seq<u8>,
) -> bool {
    &&& between.decoded_from(buf.skip(1))
    &&& (value is Some) == bool_content(buf)
    &&& value matches Some(v) ==> v.decoded_from(buf.skip(flagged_at::<M>(buf)))
}

/// A value that is there or not is read back as it was written, and so
/// is what stands between the flag and the value.
pub proof fn lemma_flagged_reads_back<'b, M: Roundtrip<'b>, T: Roundtrip<'b>>(
    between: M,
    value: Option<T>,
    rest: Seq<u8>,
)
    requires
        flagged_sound(between, value),
        flagged_fits(between, value),
    ensures
        ({
            let wire = flagged_wire(between.wire(), wire_of(value));
            &&& flagged_outcome::<M, T>(wire + rest) == Ok::<nat, ErrorKind>(wire.len())
            &&& flagged_decoded_from(between, value, wire + rest)
        }),
{
    let wire = flagged_wire(between.wire(), wire_of(value));
    let buf = wire + rest;
    match value {
        Some(v) => {
            let behind = v.wire() + rest;
            assert(buf =~= bool_wire(true) + (between.wire() + behind));
            assert(buf[0] == 1);
            assert(buf.skip(1) =~= between.wire() + behind);
            between.lemma_reads_back(behind);
            assert(buf.skip(1 + between.wire().len() as int) =~= behind);
            v.lemma_reads_back(rest);
        },
        None => {
            assert(buf =~= bool_wire(false) + (between.wire() + rest));
            assert(buf[0] == 0);
            assert(buf.skip(1) =~= between.wire() + rest);
            between.lemma_reads_back(rest);
        },
    }
}

/// Whether the two values are sound.
pub open spec fn flagged_sound<'b, M: Decode<'b>, T: Decode<'b>>(
    between: M,
    value: Option<T>,
) -> bool {
    &&& between.sound()
    &&& value matches Some(v) ==> v.sound()
}

/// The bytes of the value, if it is there.
pub open spec fn wire_of<T: Encode>(value: Option<T>) -> Option<Seq<u8>> {
    match value {
        Some(v) => Some(v.wire()),
        None => None,
    }
}

/// Whether the two values can be written.
pub open spec fn flagged_fits<M: Encode, T: Encode>(between: M, value: Option<T>) -> bool {
    &&& between.fits()
    &&& value matches Some(v) ==> v.fits()
}

/// Appends a value that is there or not to `out`, behind the flag that
/// says whether it is and what stands between the two.
pub fn encode_flagged<M: Encode, T: Encode>(
    between: &M,
    value: &Option<T>,
    out: &mut Vec<u8>,
) -> (r: Result<(), Error>)
    ensures
        flagged_fits(*between, *value) ==> r is Ok && final(out)@ == old(out)@ + flagged_wire(
            between.wire(),
            wire_of(*value),
        ),
        !flagged_fits(*between, *value) ==> r is Err && r->Err_0.spec_kind()
            == ErrorKind::EncodingOverflow,
        r is Err ==> old(out)@.is_prefix_of(final(out)@),
{
    let ghost start = out@;
    let flag = Bool(value.is_some());
    let _ = flag.encode(out);
    let ghost first = out@;
    match between.encode(out) {
        Err(_) => {
            proof {
                lemma_prefix_chain(start, first, out@);
            }
            return Err(Error::EncodingOverflow);
        },
        Ok(()) => {},
    }
    let ghost second = out@;
    proof {
        lemma_prefix_chain(start, first, second);
    }
    match value {
        None => {
            assert(out@ =~= start + flagged_wire(between.wire(), wire_of(*value)));
            Ok(())
        },
        Some(v) => match v.encode(out) {
            Err(_) => {
                proof {
                    lemma_prefix_chain(start, second, out@);
                }
                Err(Error::EncodingOverflow)
            },
            Ok(()) => {
                assert(out@ =~= start + flagged_wire(between.wire(), wire_of(*value)));
                Ok(())
            },
        },
    }
}

/// Reads a value that is there or not from the front of `buf`.
pub fn decode_flagged<'b, M: Decode<'b>, T: Decode<'b>>(buf: &'b [u8]) -> (r: Result<
    ((M, Option<T>), usize),
    Error,
>)
    ensures
        match r {
            Ok(((between, value), n)) => flagged_outcome::<M, T>(buf@) == Ok::<nat, ErrorKind>(
                n as nat,
            ) && n <= buf@.len() && flagged_decoded_from(between, value, buf@) && flagged_sound(
                between,
                value,
            ),
            Err(e) => flagged_outcome::<M, T>(buf@) == Err::<nat, ErrorKind>(e.spec_kind()),
        },
{
    let (flag, _) = Bool::decode(buf)?;
    let rest = slice_subrange(buf, 1, buf.len());
    assert(rest@ =~= buf@.skip(1));
    let (between, m) = M::decode(rest)?;
    if flag.get() {
        let rest = slice_subrange(buf, 1 + m, buf.len());
        assert(rest@ =~= buf@.skip(1 + m));
        let (value, n) = T::decode(rest)?;
        Ok(((between, Some(value)), 1 + m + n))
    } else {
        Ok(((between, None), 1 + m))
    }
}

/// Appends the message with the number `number` whose fields are a
/// tagged value to `out`.
pub fn encode_tagged_message<'b, P: Encode, M: Encode, V: Variant<'b>>(
    number: u8,
    before: &P,
    between: &M,
    variant: &V,
    out: &mut Vec<u8>,
) -> (r: Result<(), Error>)
    ensures
        dispatch_fits(*before, *between, *variant) ==> r is Ok && final(out)@ == old(out)@
            + message_wire(
            number,
            dispatch_wire(before.wire(), variant.tag(), between.wire(), variant.payload()),
        ),
        !dispatch_fits(*before, *between, *variant) ==> r is Err && r->Err_0.spec_kind()
            == ErrorKind::EncodingOverflow,
        r is Err ==> old(out)@.is_prefix_of(final(out)@),
{
    let ghost start = out@;
    out.push(number);
    let ghost first = out@;
    match encode_dispatch(before, between, variant, out) {
        Err(_) => {
            proof {
                lemma_prefix_chain(start, first, out@);
            }
            Err(Error::EncodingOverflow)
        },
        Ok(()) => {
            assert(out@ =~= start + message_wire(
                number,
                dispatch_wire(before.wire(), variant.tag(), between.wire(), variant.payload()),
            ));
            Ok(())
        },
    }
}

/// Reads the message with the number `number` whose fields are a tagged
/// value from the front of `buf`.
pub fn decode_tagged_message<'b, P: Decode<'b>, M: Decode<'b>, V: Variant<'b>>(
    number: u8,
    buf: &'b [u8],
) -> (r: Result<((P, M, V), usize), Error>)
    ensures
        match r {
            Ok(((before, between, variant), n)) => message_outcome(
                number,
                buf@,
                dispatch_outcome::<P, M, V>(buf@.skip(1)),
            ) == Ok::<nat, ErrorKind>(n as nat) && n <= buf@.len() && dispatch_decoded_from(
                before,
                between,
                variant,
                buf@.skip(1),
            ) && dispatch_sound(before, between, variant),
            Err(e) => message_outcome(number, buf@, dispatch_outcome::<P, M, V>(buf@.skip(1)))
                == Err::<nat, ErrorKind>(e.spec_kind()),
        },
{
    if buf.len() < 1 {
        return Err(Error::TruncatedInput);
    }
    if buf[0] != number {
        let mut tag: Vec<u8> = Vec::new();
        tag.push(buf[0]);
        return Err(Error::UnknownVariant(tag));
    }
    let rest = slice_subrange(buf, 1, buf.len());
    assert(rest@ =~= buf@.skip(1));
    let (fields, n) = decode_dispatch::<P, M, V>(rest)?;
    Ok((fields, n + 1))
}

} // verus!
