//! The `string` of the SSH protocol: a counted run of arbitrary bytes.

use vstd::prelude::*;
use vstd::slice::{slice_subrange, slice_to_vec};
use vstd::std_specs::convert::FromSpecImpl;

use crate::error::{Error, ErrorKind};
use crate::wire::{be32, from_be32, lemma_be32_roundtrip, Decode, Encode, Roundtrip};

verus! {

/// The wire form of a `string` that holds `content`.
pub open spec fn bytes_wire(content: Seq<u8>) -> Seq<u8> {
    be32(content.len() as u32) + content
}

/// What reading a `string` from the front of `buf` gives.
pub open spec fn bytes_outcome(buf: Seq<u8>) -> Result<nat, ErrorKind> {
    if buf.len() < 4 {
        Err(ErrorKind::TruncatedInput)
    } else if buf.len() - 4 < from_be32(buf) {
        Err(ErrorKind::TruncatedInput)
    } else {
        Ok((4 + from_be32(buf)) as nat)
    }
}

/// The content of the `string` at the front of `buf`.
pub open spec fn bytes_content(buf: Seq<u8>) -> Seq<u8>
    recommends
        bytes_outcome(buf) is Ok,
{
    buf.subrange(4, 4 + from_be32(buf))
}

/// A `string` that is written and read back is the same `string`, and the
/// bytes that follow it are left alone.
pub proof fn lemma_bytes_roundtrip(content: Seq<u8>, rest: Seq<u8>)
    requires
        content.len() < 0x1_0000_0000,
    ensures
        bytes_outcome(bytes_wire(content) + rest) == Ok::<nat, ErrorKind>(
            bytes_wire(content).len(),
        ),
        bytes_wire(content).len() == 4 + content.len(),
        bytes_content(bytes_wire(content) + rest) == content,
{
    let n = content.len() as u32;
    let buf = bytes_wire(content) + rest;
    lemma_be32_roundtrip(n, content + rest);
    assert(buf =~= be32(n) + (content + rest));
    assert(bytes_content(buf) =~= content);
}

/// Empties a byte vector after overwriting what it held.
///
/// Calls `zeroize::Zeroize::zeroize` on the vector. That function writes
/// zeros over the spare capacity and over the elements and then clears
/// the vector, so the vector is empty afterwards. Its only checks are
/// that the sizes it writes fit an `isize`, which holds of every vector,
/// so it does not panic.
#[verifier::external_body]
pub(crate) fn zeroize_vec(v: &mut Vec<u8>)
    ensures
        final(v)@ == Seq::<u8>::empty(),
    opens_invariants none
    no_unwind
{
    zeroize::Zeroize::zeroize(v);
}

#[derive(Debug)]
enum Inner<'b> {
    Owned(Vec<u8>),
    Borrowed(&'b [u8]),
}

/// A `string` as defined in the SSH protocol.
///
/// see <https://datatracker.ietf.org/doc/html/rfc4251#section-5>.
#[derive(Debug)]
pub struct Bytes<'b> {
    inner: Inner<'b>,
}

impl<'b> View for Bytes<'b> {
    type V = Seq<u8>;

    closed spec fn view(&self) -> Seq<u8> {
        match self.inner {
            Inner::Owned(vec) => vec@,
            Inner::Borrowed(slice) => slice@,
        }
    }
}

impl<'b> Default for Bytes<'b> {
    fn default() -> (b: Self)
        ensures
            b@ == Seq::<u8>::empty(),
            b.is_owned(),
    {
        Self { inner: Inner::Owned(Vec::new()) }
    }
}

impl<'b> Clone for Bytes<'b> {
    fn clone(&self) -> (b: Self)
        ensures
            b@ == self@,
            b.is_owned() == self.is_owned(),
    {
        match &self.inner {
            Inner::Owned(vec) => Self { inner: Inner::Owned(slice_to_vec(vec.as_slice())) },
            Inner::Borrowed(slice) => Self { inner: Inner::Borrowed(*slice) },
        }
    }
}

impl<'b> From<Vec<u8>> for Bytes<'b> {
    fn from(value: Vec<u8>) -> (b: Self)
        ensures
            b@ == value@,
            b.is_owned(),
    {
        Self { inner: Inner::Owned(value) }
    }
}

impl<'b> FromSpecImpl<Vec<u8>> for Bytes<'b> {
    open spec fn obeys_from_spec() -> bool {
        true
    }

    closed spec fn from_spec(value: Vec<u8>) -> Self {
        Bytes { inner: Inner::Owned(value) }
    }
}

impl<'b> From<&'b [u8]> for Bytes<'b> {
    fn from(value: &'b [u8]) -> (b: Self)
        ensures
            b@ == value@,
            !b.is_owned(),
    {
        Self { inner: Inner::Borrowed(value) }
    }
}

impl<'b> FromSpecImpl<&'b [u8]> for Bytes<'b> {
    open spec fn obeys_from_spec() -> bool {
        true
    }

    closed spec fn from_spec(value: &'b [u8]) -> Self {
        Bytes { inner: Inner::Borrowed(value) }
    }
}

impl<'b> Bytes<'b> {
    /// Whether this value owns its buffer.
    pub closed spec fn is_owned(&self) -> bool {
        self.inner is Owned
    }

    /// Create [`Bytes`] from a _vector_.
    pub fn owned(value: Vec<u8>) -> (b: Self)
        ensures
            b@ == value@,
            b.is_owned(),
    {
        Self { inner: Inner::Owned(value) }
    }

    /// Create [`Bytes`] from a _slice_.
    pub fn borrowed(value: &'b [u8]) -> (b: Self)
        ensures
            b@ == value@,
            !b.is_owned(),
    {
        Self { inner: Inner::Borrowed(value) }
    }

    /// Extract the buffer into a [`Vec`].
    pub fn into_vec(self) -> (v: Vec<u8>)
        ensures
            v@ == self@,
    {
        match self.inner {
            Inner::Owned(vec) => vec,
            Inner::Borrowed(slice) => slice_to_vec(slice),
        }
    }

    /// The bytes held, whichever way they are held.
    pub fn as_ref(&self) -> (s: &[u8])
        ensures
            s@ == self@,
    {
        match &self.inner {
            Inner::Owned(vec) => vec.as_slice(),
            Inner::Borrowed(slice) => slice,
        }
    }

    /// The number of bytes held.
    pub fn len(&self) -> (n: usize)
        ensures
            n == self@.len(),
    {
        self.as_ref().len()
    }

    /// Whether no byte is held.
    pub fn is_empty(&self) -> (e: bool)
        ensures
            e == (self@.len() == 0),
    {
        self.as_ref().len() == 0
    }

    /// A copy that owns its buffer.
    pub fn to_owned(&self) -> (b: Bytes<'static>)
        ensures
            b@ == self@,
            b.is_owned(),
    {
        Bytes { inner: Inner::Owned(slice_to_vec(self.as_ref())) }
    }

    /// Erases an owned buffer: its bytes are overwritten with zeros and the
    /// value is left empty. A borrowed buffer belongs to someone else and
    /// is left as it is.
    pub fn zeroize(&mut self)
        ensures
            old(self).is_owned() ==> final(self)@ == Seq::<u8>::empty(),
            !old(self).is_owned() ==> final(self)@ == old(self)@,
            final(self).is_owned() == old(self).is_owned(),
    {
        match &mut self.inner {
            Inner::Owned(vec) => {
                zeroize_vec(vec);
            },
            Inner::Borrowed(_) => {},
        }
    }
}

impl<'b> Encode for Bytes<'b> {
    open spec fn wire(&self) -> Seq<u8> {
        bytes_wire(self@)
    }

    open spec fn fits(&self) -> bool {
        self@.len() < 0x1_0000_0000
    }

    fn encode(&self, out: &mut Vec<u8>) -> (r: Result<(), Error>) {
        let buf = self.as_ref();
        if buf.len() > 0xffff_ffff {
            return Err(Error::EncodingOverflow);
        }
        let size: u32 = buf.len() as u32;
        let _ = size.encode(out);
        out.extend_from_slice(buf);
        assert(out@ =~= old(out)@ + bytes_wire(self@));
        Ok(())
    }
}

impl<'b> Decode<'b> for Bytes<'b> {
    open spec fn outcome(buf: Seq<u8>) -> Result<nat, ErrorKind> {
        bytes_outcome(buf)
    }

    open spec fn decoded_from(&self, buf: Seq<u8>) -> bool {
        self@ == bytes_content(buf)
    }

    open spec fn sound(&self) -> bool {
        true
    }

    fn decode(buf: &'b [u8]) -> (r: Result<(Self, usize), Error>) {
        if buf.len() < 4 {
            return Err(Error::TruncatedInput);
        }
        let (size, _) = u32::decode(buf)?;
        let len: usize = size as usize;
        if buf.len() - 4 < len {
            return Err(Error::TruncatedInput);
        }
        let content = slice_subrange(buf, 4, 4 + len);
        Ok((Bytes::borrowed(content), 4 + len))
    }
}

impl<'b> Roundtrip<'b> for Bytes<'b> {
    proof fn lemma_reads_back(&self, rest: Seq<u8>) {
        lemma_bytes_roundtrip(self@, rest);
    }
}

} // verus!
