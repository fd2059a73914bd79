//! The `string` of the SSH protocol restricted to text: UTF-8, and the
//! ASCII subset of it.

use vstd::prelude::*;
use vstd::std_specs::iter::IteratorSpec;
use vstd::string::{axiom_spec_iter, next_postcondition};
use vstd::utf8::{
    decode_utf8, encode_utf8, encode_utf8_decode_utf8, encode_utf8_valid_utf8, is_ascii_chars,
    is_ascii_chars_encode_utf8, valid_utf8,
};

use crate::arch::bytes::{bytes_content, bytes_outcome, bytes_wire, lemma_bytes_roundtrip, Bytes};
use crate::error::{Error, ErrorKind};
use crate::wire::{Decode, Encode, Roundtrip};

verus! {

/// The error of `String::from_utf8`, carried through and never looked into.
#[verifier::external_type_specification]
#[verifier::external_body]
pub struct ExFromUtf8Error(std::string::FromUtf8Error);

/// `String::from_utf8` accepts exactly the byte vectors that are valid
/// UTF-8, and the string it returns is made of the very bytes it was given.
pub assume_specification[ String::from_utf8 ](vec: Vec<u8>) -> (r: Result<
    String,
    std::string::FromUtf8Error,
>)
    ensures
        r is Ok <==> valid_utf8(vec@),
        r matches Ok(s) ==> encode_utf8(s@) == vec@,
;

/// The wire form of a text: its UTF-8 bytes as a `string`.
pub open spec fn text_wire(chars: Seq<char>) -> Seq<u8> {
    bytes_wire(encode_utf8(chars))
}

/// What reading a UTF-8 text from the front of `buf` gives.
pub open spec fn utf8_outcome(buf: Seq<u8>) -> Result<nat, ErrorKind> {
    match bytes_outcome(buf) {
        Err(e) => Err(e),
        Ok(n) => if valid_utf8(bytes_content(buf)) {
            Ok(n)
        } else {
            Err(ErrorKind::ConstraintViolation)
        },
    }
}

/// The text at the front of `buf`.
pub open spec fn utf8_content(buf: Seq<u8>) -> Seq<char>
    recommends
        utf8_outcome(buf) is Ok,
{
    decode_utf8(bytes_content(buf))
}

/// What reading an ASCII text from the front of `buf` gives.
pub open spec fn ascii_outcome(buf: Seq<u8>) -> Result<nat, ErrorKind> {
    match bytes_outcome(buf) {
        Err(e) => Err(e),
        Ok(n) => if is_ascii_bytes(bytes_content(buf)) {
            Ok(n)
        } else {
            Err(ErrorKind::ConstraintViolation)
        },
    }
}

/// Whether every byte is an ASCII character.
pub open spec fn is_ascii_bytes(bytes: Seq<u8>) -> bool {
    forall|i: int| 0 <= i < bytes.len() ==> #[trigger] bytes[i] < 0x80
}

/// The characters that ASCII bytes stand for, one for one.
pub open spec fn ascii_chars(bytes: Seq<u8>) -> Seq<char> {
    Seq::new(bytes.len(), |i: int| bytes[i] as char)
}

/// The ASCII characters of a text, in their order.
pub open spec fn ascii_only(chars: Seq<char>) -> Seq<char>
    decreases chars.len(),
{
    if chars.len() == 0 {
        Seq::empty()
    } else if chars.last() <= '\u{7f}' {
        ascii_only(chars.drop_last()).push(chars.last())
    } else {
        ascii_only(chars.drop_last())
    }
}

/// A character up to `U+007F` is one byte, and that byte is the character.
pub proof fn lemma_ascii_char(c: char)
    ensures
        '\0' <= c,
        c <= '\u{7f}' ==> (c as u8) < 0x80 && (c as u8) as char == c,
{
}

/// What is left of a text after its non-ASCII characters are taken out is
/// ASCII, and an ASCII text is left whole.
pub proof fn lemma_ascii_only(chars: Seq<char>)
    ensures
        is_ascii_chars(ascii_only(chars)),
        is_ascii_chars(chars) ==> ascii_only(chars) == chars,
    decreases chars.len(),
{
    if chars.len() > 0 {
        let front = chars.drop_last();
        lemma_ascii_only(front);
        let kept = ascii_only(chars);
        assert forall|i: int| 0 <= i < kept.len() implies '\0' <= #[trigger] kept[i]
            <= '\u{7f}' by {
            lemma_ascii_char(kept[i]);
            if i < ascii_only(front).len() {
                assert(kept[i] == ascii_only(front)[i]);
            }
        }
        if is_ascii_chars(chars) {
            assert forall|i: int| 0 <= i < front.len() implies '\0' <= #[trigger] front[i]
                <= '\u{7f}' by {
                assert(front[i] == chars[i]);
            }
            assert(chars.last() == chars[chars.len() - 1]);
            assert(front.push(chars.last()) =~= chars);
        }
    }
}

/// ASCII bytes are UTF-8, and the text they spell has one character for
/// each byte.
pub proof fn lemma_ascii_bytes_are_utf8(bytes: Seq<u8>)
    requires
        is_ascii_bytes(bytes),
    ensures
        valid_utf8(bytes),
        decode_utf8(bytes) == ascii_chars(bytes),
        is_ascii_chars(ascii_chars(bytes)),
        encode_utf8(ascii_chars(bytes)) == bytes,
{
    let chars = ascii_chars(bytes);
    assert forall|i: int| 0 <= i < chars.len() implies '\0' <= #[trigger] chars[i] <= '\u{7f}' by {
        assert(bytes[i] < 0x80);
    }
    is_ascii_chars_encode_utf8(chars);
    assert forall|i: int| 0 <= i < bytes.len() implies encode_utf8(chars)[i] == bytes[i] by {
        assert(chars[i] as u8 == encode_utf8(chars)[i]);
        assert(bytes[i] < 0x80);
    }
    assert(encode_utf8(chars) =~= bytes);
    encode_utf8_valid_utf8(chars);
    encode_utf8_decode_utf8(chars);
}

/// The UTF-8 bytes of an ASCII text are ASCII bytes.
pub proof fn lemma_ascii_chars_are_ascii_bytes(chars: Seq<char>)
    requires
        is_ascii_chars(chars),
    ensures
        is_ascii_bytes(encode_utf8(chars)),
        ascii_chars(encode_utf8(chars)) == chars,
{
    is_ascii_chars_encode_utf8(chars);
    let bytes = encode_utf8(chars);
    assert forall|i: int| 0 <= i < bytes.len() implies #[trigger] bytes[i] < 0x80 by {
        assert(chars[i] as u8 == bytes[i]);
        assert('\0' <= chars[i] <= '\u{7f}');
    }
    assert forall|i: int| 0 <= i < bytes.len() implies ascii_chars(bytes)[i] == chars[i] by {
        assert(chars[i] as u8 == bytes[i]);
        assert('\0' <= chars[i] <= '\u{7f}');
    }
    assert(ascii_chars(bytes) =~= chars);
}

/// A UTF-8 text that is written and read back is the same text.
pub proof fn lemma_utf8_roundtrip(chars: Seq<char>, rest: Seq<u8>)
    requires
        encode_utf8(chars).len() < 0x1_0000_0000,
    ensures
        utf8_outcome(text_wire(chars) + rest) == Ok::<nat, ErrorKind>(text_wire(chars).len()),
        utf8_content(text_wire(chars) + rest) == chars,
{
    lemma_bytes_roundtrip(encode_utf8(chars), rest);
    encode_utf8_valid_utf8(chars);
    encode_utf8_decode_utf8(chars);
}

/// A `string` whose content is not UTF-8 is refused as a text.
pub proof fn lemma_not_utf8_is_refused(content: Seq<u8>, rest: Seq<u8>)
    requires
        content.len() < 0x1_0000_0000,
        !valid_utf8(content),
    ensures
        utf8_outcome(bytes_wire(content) + rest) == Err::<nat, ErrorKind>(
            ErrorKind::ConstraintViolation,
        ),
{
    lemma_bytes_roundtrip(content, rest);
}

/// An ASCII text that is written and read back is the same text.
pub proof fn lemma_ascii_roundtrip(chars: Seq<char>, rest: Seq<u8>)
    requires
        is_ascii_chars(chars),
        chars.len() < 0x1_0000_0000,
    ensures
        ascii_outcome(text_wire(chars) + rest) == Ok::<nat, ErrorKind>(text_wire(chars).len()),
        utf8_content(text_wire(chars) + rest) == chars,
{
    is_ascii_chars_encode_utf8(chars);
    lemma_bytes_roundtrip(encode_utf8(chars), rest);
    lemma_ascii_chars_are_ascii_bytes(chars);
    encode_utf8_decode_utf8(chars);
}

/// Whether two texts are the same text.
pub fn str_eq(a: &str, b: &str) -> (same: bool)
    ensures
        same == (a@ == b@),
{
    let left = a.as_bytes();
    let right = b.as_bytes();
    proof {
        encode_utf8_decode_utf8(a@);
        encode_utf8_decode_utf8(b@);
    }
    if left.len() != right.len() {
        return false;
    }
    let mut i: usize = 0;
    while i < left.len()
        invariant
            i <= left.len(),
            left@.len() == right@.len(),
            left@ == encode_utf8(a@),
            right@ == encode_utf8(b@),
            forall|j: int| 0 <= j < i ==> left@[j] == right@[j],
        decreases left.len() - i,
    {
        if left[i] != right[i] {
            return false;
        }
        i += 1;
    }
    assert(left@ =~= right@);
    true
}

/// A `string` as defined in the SSH protocol, restricted to valid **UTF-8**.
///
/// see <https://datatracker.ietf.org/doc/html/rfc4251#section-5>.
#[derive(Debug, PartialEq, Eq)]
pub struct StringUtf8 {
    inner: String,
}

impl View for StringUtf8 {
    type V = Seq<char>;

    closed spec fn view(&self) -> Seq<char> {
        self.inner@
    }
}

impl Default for StringUtf8 {
    fn default() -> (s: Self)
        ensures
            s@ == Seq::<char>::empty(),
    {
        Self { inner: String::new() }
    }
}

impl Clone for StringUtf8 {
    fn clone(&self) -> (r: Self)
        ensures
            r@ == self@,
    {
        Self { inner: self.inner.clone() }
    }
}

impl StringUtf8 {
    /// Create new [`StringUtf8`] from a text.
    pub fn new(s: &str) -> (r: Self)
        ensures
            r@ == s@,
    {
        Self { inner: s.to_owned() }
    }

    /// Views this [`StringUtf8`] as a UTF-8 str.
    pub fn as_str(&self) -> (s: &str)
        ensures
            s@ == self@,
    {
        self.inner.as_str()
    }

    /// Converts the [`StringUtf8`] to a [`String`].
    pub fn into_string(self) -> (s: String)
        ensures
            s@ == self@,
    {
        self.inner
    }

    /// The text that the given bytes spell, if they are UTF-8.
    pub fn from_bytes(bytes: Vec<u8>) -> (r: Result<Self, Error>)
        ensures
            valid_utf8(bytes@) ==> r is Ok && r->Ok_0@ == decode_utf8(bytes@),
            !valid_utf8(bytes@) ==> r is Err && r->Err_0.spec_kind()
                == ErrorKind::ConstraintViolation,
    {
        match String::from_utf8(bytes) {
            Ok(inner) => {
                proof {
                    encode_utf8_decode_utf8(inner@);
                }
                Ok(Self { inner })
            },
            Err(_) => Err(Error::ConstraintViolation),
        }
    }
}

impl Encode for StringUtf8 {
    open spec fn wire(&self) -> Seq<u8> {
        text_wire(self@)
    }

    open spec fn fits(&self) -> bool {
        encode_utf8(self@).len() < 0x1_0000_0000
    }

    fn encode(&self, out: &mut Vec<u8>) -> (r: Result<(), Error>) {
        Bytes::borrowed(self.inner.as_str().as_bytes()).encode(out)
    }
}

impl<'b> Decode<'b> for StringUtf8 {
    open spec fn outcome(buf: Seq<u8>) -> Result<nat, ErrorKind> {
        utf8_outcome(buf)
    }

    open spec fn decoded_from(&self, buf: Seq<u8>) -> bool {
        self@ == utf8_content(buf)
    }

    open spec fn sound(&self) -> bool {
        true
    }

    fn decode(buf: &'b [u8]) -> (r: Result<(Self, usize), Error>) {
        let (bytes, n) = Bytes::decode(buf)?;
        let text = StringUtf8::from_bytes(bytes.into_vec())?;
        Ok((text, n))
    }
}

/// A `string` as defined in the SSH protocol, restricted to valid **ASCII**.
///
/// see <https://datatracker.ietf.org/doc/html/rfc4251#section-5>.
#[derive(Debug, PartialEq, Eq)]
pub struct StringAscii {
    inner: StringUtf8,
}

impl View for StringAscii {
    type V = Seq<char>;

    closed spec fn view(&self) -> Seq<char> {
        self.inner@
    }
}

impl Default for StringAscii {
    fn default() -> (s: Self)
        ensures
            s@ == Seq::<char>::empty(),
    {
        Self { inner: StringUtf8::default() }
    }
}

impl Clone for StringAscii {
    fn clone(&self) -> (r: Self)
        ensures
            r@ == self@,
    {
        proof {
            use_type_invariant(self);
        }
        Self { inner: self.inner.clone() }
    }
}

impl StringAscii {
    #[verifier::type_invariant]
    spec fn only_ascii(&self) -> bool {
        is_ascii_chars(self.inner@)
    }

    /// Create new [`StringAscii`] from a text, stripping any non-ASCII characters.
    pub fn new(s: &str) -> (r: Self)
        ensures
            r@ == ascii_only(s@),
    {
        let mut kept: Vec<u8> = Vec::new();
        let mut it = s.chars();
        let ghost mut seen: Seq<char> = Seq::empty();
        proof {
            axiom_spec_iter(s);
        }
        loop
            invariant
                seen + it.remaining() == s@,
                it.obeys_prophetic_iter_laws(),
                it.decrease() is Some,
                is_ascii_bytes(kept@),
                ascii_chars(kept@) == ascii_only(seen),
            ensures
                seen == s@,
            decreases it.decrease()->0,
        {
            let ghost before = it;
            let next = it.next();
            proof {
                next_postcondition(&before, &it, next);
            }
            match next {
                None => {
                    proof {
                        assert(seen =~= s@);
                    }
                    break ;
                },
                Some(c) => {
                    proof {
                        let grown = seen.push(c);
                        assert(grown.drop_last() =~= seen);
                        assert(grown + it.remaining() =~= seen + before.remaining());
                    }
                    if c <= '\u{7f}' {
                        let ghost before_push = kept@;
                        kept.push(c as u8);
                        proof {
                            lemma_ascii_char(c);
                            assert forall|j: int| 0 <= j < kept@.len() implies #[trigger] kept@[j]
                                < 0x80 by {
                                if j < before_push.len() {
                                    assert(kept@[j] == before_push[j]);
                                }
                            }
                            assert forall|j: int| 0 <= j < kept@.len() implies ascii_chars(kept@)[j]
                                == ascii_only(seen).push(c)[j] by {
                                if j < before_push.len() {
                                    assert(kept@[j] == before_push[j]);
                                    assert(ascii_chars(before_push)[j] == before_push[j] as char);
                                }
                            }
                            assert(ascii_chars(kept@) =~= ascii_only(seen).push(c));
                        }
                    }
                    proof {
                        seen = seen.push(c);
                    }
                },
            }
        }
        proof {
            lemma_ascii_bytes_are_utf8(kept@);
        }
        match StringUtf8::from_bytes(kept) {
            Ok(inner) => Self { inner },
            Err(_) => Self { inner: StringUtf8::default() },
        }
    }

    /// Create new [`StringAscii`] from a text that is known to be ASCII.
    pub fn literal(s: &str) -> (r: Self)
        requires
            is_ascii_chars(s@),
        ensures
            r@ == s@,
    {
        proof {
            lemma_ascii_only(s@);
        }
        Self::new(s)
    }

    /// The ASCII text that the given bytes spell, if they are ASCII.
    pub fn from_bytes(bytes: Vec<u8>) -> (r: Result<Self, Error>)
        ensures
            is_ascii_bytes(bytes@) ==> r is Ok && r->Ok_0@ == ascii_chars(bytes@),
            !is_ascii_bytes(bytes@) ==> r is Err && r->Err_0.spec_kind()
                == ErrorKind::ConstraintViolation,
    {
        let mut i: usize = 0;
        while i < bytes.len()
            invariant
                i <= bytes.len(),
                forall|j: int| 0 <= j < i ==> #[trigger] bytes@[j] < 0x80,
            decreases bytes.len() - i,
        {
            if bytes[i] >= 0x80 {
                return Err(Error::ConstraintViolation);
            }
            i += 1;
        }
        proof {
            lemma_ascii_bytes_are_utf8(bytes@);
        }
        match StringUtf8::from_bytes(bytes) {
            Ok(inner) => Ok(Self { inner }),
            Err(e) => Err(e),
        }
    }

    /// Views this [`StringAscii`] of ASCII characters as a UTF-8 str.
    pub fn as_str(&self) -> (s: &str)
        ensures
            s@ == self@,
            is_ascii_chars(s@),
    {
        proof {
            use_type_invariant(self);
        }
        self.inner.as_str()
    }

    /// The bytes of this text, one for each character.
    pub fn as_bytes(&self) -> (b: &[u8])
        ensures
            is_ascii_bytes(b@),
            ascii_chars(b@) == self@,
            b@ == encode_utf8(self@),
    {
        proof {
            use_type_invariant(self);
            lemma_ascii_chars_are_ascii_bytes(self@);
        }
        self.inner.as_str().as_bytes()
    }

    /// Converts the [`StringAscii`] to a [`String`].
    pub fn into_string(self) -> (s: String)
        ensures
            s@ == self@,
            is_ascii_chars(s@),
    {
        proof {
            use_type_invariant(&self);
        }
        self.inner.into_string()
    }
}

impl Encode for StringAscii {
    open spec fn wire(&self) -> Seq<u8> {
        text_wire(self@)
    }

    open spec fn fits(&self) -> bool {
        encode_utf8(self@).len() < 0x1_0000_0000
    }

    fn encode(&self, out: &mut Vec<u8>) -> (r: Result<(), Error>) {
        self.inner.encode(out)
    }
}

impl<'b> Decode<'b> for StringAscii {
    open spec fn outcome(buf: Seq<u8>) -> Result<nat, ErrorKind> {
        ascii_outcome(buf)
    }

    open spec fn decoded_from(&self, buf: Seq<u8>) -> bool {
        self@ == utf8_content(buf)
    }

    /// The text is ASCII: every text that was made or read is so.
    open spec fn sound(&self) -> bool {
        is_ascii_chars(self@)
    }

    fn decode(buf: &'b [u8]) -> (r: Result<(Self, usize), Error>) {
        let (bytes, n) = Bytes::decode(buf)?;
        proof {
            if is_ascii_bytes(bytes@) {
                lemma_ascii_bytes_are_utf8(bytes@);
            }
        }
        let text = StringAscii::from_bytes(bytes.into_vec())?;
        proof {
            use_type_invariant(&text);
        }
        Ok((text, n))
    }
}

impl<'b> Roundtrip<'b> for StringUtf8 {
    proof fn lemma_reads_back(&self, rest: Seq<u8>) {
        lemma_utf8_roundtrip(self@, rest);
    }
}

impl<'b> Roundtrip<'b> for StringAscii {
    proof fn lemma_reads_back(&self, rest: Seq<u8>) {
        is_ascii_chars_encode_utf8(self@);
        lemma_ascii_roundtrip(self@, rest);
    }
}

} // verus!
