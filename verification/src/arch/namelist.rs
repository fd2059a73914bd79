//! The `name-list` of the SSH protocol: names separated by commas, sent
//! as one `string`.

use vstd::prelude::*;

use crate::arch::bytes::{bytes_content, bytes_outcome, bytes_wire, lemma_bytes_roundtrip, Bytes};
use crate::arch::string::is_ascii_bytes;
use crate::error::{Error, ErrorKind};
use crate::wire::{Decode, Encode, Roundtrip};

verus! {

/// The byte that separates two names.
pub const COMMA: u8 = 0x2c;

/// The names joined by commas.
pub open spec fn join(names: Seq<Seq<u8>>) -> Seq<u8>
    decreases names.len(),
{
    if names.len() == 0 {
        Seq::empty()
    } else if names.len() == 1 {
        names[0]
    } else {
        join(names.drop_last()) + seq![COMMA] + names.last()
    }
}

/// The pieces that the commas cut `content` into. There is always at
/// least one piece, and two commas in a row leave an empty piece between
/// them.
pub open spec fn pieces(content: Seq<u8>) -> Seq<Seq<u8>>
    decreases content.len(),
{
    if content.len() == 0 {
        seq![Seq::empty()]
    } else if content.last() == COMMA {
        pieces(content.drop_last()).push(Seq::empty())
    } else {
        let before = pieces(content.drop_last());
        before.drop_last().push(before.last().push(content.last()))
    }
}

/// The names that `content` lists: none where it is empty, else its
/// pieces.
pub open spec fn split(content: Seq<u8>) -> Seq<Seq<u8>> {
    if content.len() == 0 {
        Seq::empty()
    } else {
        pieces(content)
    }
}

/// Whether a name can stand in a list: ASCII, and without a comma.
pub open spec fn is_name(name: Seq<u8>) -> bool {
    forall|i: int| 0 <= i < name.len() ==> (#[trigger] name[i]) < 0x80 && name[i] != COMMA
}

/// Whether the names can be sent as a list and read back as they are.
/// The list that holds one empty name and nothing else cannot: it would
/// be written as the empty list is.
pub open spec fn is_list(names: Seq<Seq<u8>>) -> bool {
    &&& forall|i: int| 0 <= i < names.len() ==> is_name(#[trigger] names[i])
    &&& !(names.len() == 1 && names[0].len() == 0)
}

/// The wire form of a list of names.
pub open spec fn names_wire(names: Seq<Seq<u8>>) -> Seq<u8> {
    bytes_wire(join(names))
}

/// What reading a list of names from the front of `buf` gives.
pub open spec fn names_outcome(buf: Seq<u8>) -> Result<nat, ErrorKind> {
    match bytes_outcome(buf) {
        Err(e) => Err(e),
        Ok(n) => if is_ascii_bytes(bytes_content(buf)) {
            Ok(n)
        } else {
            Err(ErrorKind::ConstraintViolation)
        },
    }
}

/// The list of names at the front of `buf`.
pub open spec fn names_content(buf: Seq<u8>) -> Seq<Seq<u8>>
    recommends
        names_outcome(buf) is Ok,
{
    split(bytes_content(buf))
}

/// The pieces of a text are at least one; a text without a comma is its
/// own and only piece.
pub proof fn lemma_pieces_shape(content: Seq<u8>)
    ensures
        pieces(content).len() >= 1,
        pieces(content).len() == 1 ==> pieces(content)[0] == content,
        pieces(content).len() >= 2 ==> content.len() >= 1,
        forall|i: int|
            0 <= i < pieces(content).len() ==> forall|j: int|
                0 <= j < (#[trigger] pieces(content)[i]).len() ==> pieces(content)[i][j] != COMMA,
    decreases content.len(),
{
    if content.len() > 0 {
        let front = content.drop_last();
        lemma_pieces_shape(front);
        let before = pieces(front);
        if content.last() == COMMA {
            assert forall|i: int| 0 <= i < pieces(content).len() implies forall|j: int|
                0 <= j < (#[trigger] pieces(content)[i]).len() ==> pieces(content)[i][j]
                    != COMMA by {
                if i < before.len() {
                    assert(pieces(content)[i] == before[i]);
                }
            }
        } else {
            let grown = before.last().push(content.last());
            assert forall|i: int| 0 <= i < pieces(content).len() implies forall|j: int|
                0 <= j < (#[trigger] pieces(content)[i]).len() ==> pieces(content)[i][j]
                    != COMMA by {
                if i < before.len() - 1 {
                    assert(pieces(content)[i] == before[i]);
                } else {
                    assert(pieces(content)[i] == grown);
                    assert forall|j: int| 0 <= j < grown.len() implies grown[j] != COMMA by {
                        if j < before.last().len() {
                            assert(grown[j] == before.last()[j]);
                        }
                    }
                }
            }
            if pieces(content).len() == 1 {
                assert(before.len() == 1);
                assert(before.last() == before[0]);
                assert(grown =~= content);
            }
        }
    }
}

/// The pieces of an ASCII text are ASCII.
pub proof fn lemma_pieces_ascii(content: Seq<u8>)
    requires
        is_ascii_bytes(content),
    ensures
        forall|i: int|
            0 <= i < pieces(content).len() ==> is_ascii_bytes(#[trigger] pieces(content)[i]),
    decreases content.len(),
{
    if content.len() > 0 {
        let front = content.drop_last();
        assert forall|j: int| 0 <= j < front.len() implies #[trigger] front[j] < 0x80 by {
            assert(front[j] == content[j]);
        }
        lemma_pieces_ascii(front);
        lemma_pieces_shape(front);
        let before = pieces(front);
        assert(content.last() == content[content.len() - 1]);
        if content.last() == COMMA {
            assert forall|i: int| 0 <= i < pieces(content).len() implies is_ascii_bytes(
                #[trigger] pieces(content)[i],
            ) by {
                if i < before.len() {
                    assert(pieces(content)[i] == before[i]);
                }
            }
        } else {
            let grown = before.last().push(content.last());
            assert forall|i: int| 0 <= i < pieces(content).len() implies is_ascii_bytes(
                #[trigger] pieces(content)[i],
            ) by {
                if i < before.len() - 1 {
                    assert(pieces(content)[i] == before[i]);
                } else {
                    assert(pieces(content)[i] == grown);
                    assert(is_ascii_bytes(before.last()));
                    assert forall|j: int| 0 <= j < grown.len() implies #[trigger] grown[j]
                        < 0x80 by {
                        if j < before.last().len() {
                            assert(grown[j] == before.last()[j]);
                        }
                    }
                }
            }
        }
    }
}

/// What an ASCII text lists is a list of names.
pub proof fn lemma_split_is_list(content: Seq<u8>)
    requires
        is_ascii_bytes(content),
    ensures
        is_list(split(content)),
{
    if content.len() > 0 {
        lemma_pieces_shape(content);
        lemma_pieces_ascii(content);
        let names = pieces(content);
        assert forall|i: int| 0 <= i < names.len() implies is_name(#[trigger] names[i]) by {
            assert(is_ascii_bytes(names[i]));
        }
    }
}

/// Joining the pieces of a text gives the text back.
pub proof fn lemma_join_pieces(content: Seq<u8>)
    ensures
        join(pieces(content)) == content,
    decreases content.len(),
{
    if content.len() == 0 {
        assert(join(pieces(content)) =~= content);
    } else {
        let front = content.drop_last();
        lemma_join_pieces(front);
        lemma_pieces_shape(front);
        let before = pieces(front);
        if content.last() == COMMA {
            let after = before.push(Seq::empty());
            assert(after.drop_last() =~= before);
            assert(join(after) =~= join(before) + seq![COMMA] + Seq::<u8>::empty());
            assert(join(after) =~= content);
        } else {
            let grown = before.last().push(content.last());
            let after = before.drop_last().push(grown);
            assert(after.drop_last() =~= before.drop_last());
            if before.len() == 1 {
                assert(before.last() == before[0]);
                assert(join(after) =~= content);
            } else {
                assert(join(before) == join(before.drop_last()) + seq![COMMA] + before.last());
                assert(join(after) == join(before.drop_last()) + seq![COMMA] + grown);
                assert(join(after) =~= join(before).push(content.last()));
                assert(join(after) =~= content);
            }
        }
    }
}

/// Joining what a text lists gives the text back.
pub proof fn lemma_join_split(content: Seq<u8>)
    ensures
        join(split(content)) == content,
{
    if content.len() == 0 {
        assert(join(split(content)) =~= content);
    } else {
        lemma_join_pieces(content);
    }
}

/// A name that follows a text lengthens the last piece of the text.
proof fn lemma_pieces_append(content: Seq<u8>, name: Seq<u8>)
    requires
        is_name(name),
    ensures
        pieces(content + name) == pieces(content).drop_last().push(pieces(content).last() + name),
    decreases name.len(),
{
    lemma_pieces_shape(content);
    let before = pieces(content);
    if name.len() == 0 {
        assert(content + name =~= content);
        assert(before.last() + name =~= before.last());
        assert(before.drop_last().push(before.last()) =~= before);
    } else {
        let front = name.drop_last();
        assert forall|i: int| 0 <= i < front.len() implies (#[trigger] front[i]) < 0x80
            && front[i] != COMMA by {
            assert(front[i] == name[i]);
        }
        lemma_pieces_append(content, front);
        let whole = content + name;
        assert(whole.drop_last() =~= content + front);
        assert(whole.last() == name[name.len() - 1]);
        let mid = pieces(content + front);
        assert(mid.last() == before.last() + front);
        assert(mid.drop_last() =~= before.drop_last());
        assert(mid.last().push(whole.last()) =~= before.last() + name);
    }
}

/// The names of a list that is joined and cut into pieces are the list.
pub proof fn lemma_pieces_join(names: Seq<Seq<u8>>)
    requires
        names.len() >= 1,
        forall|i: int| 0 <= i < names.len() ==> is_name(#[trigger] names[i]),
    ensures
        pieces(join(names)) == names,
    decreases names.len(),
{
    if names.len() == 1 {
        lemma_pieces_append(Seq::empty(), names[0]);
        assert(Seq::<u8>::empty() + names[0] =~= names[0]);
        assert(pieces(Seq::<u8>::empty()) =~= seq![Seq::<u8>::empty()]);
        assert(pieces(join(names)) =~= names);
    } else {
        let front = names.drop_last();
        assert forall|i: int| 0 <= i < front.len() implies is_name(#[trigger] front[i]) by {
            assert(front[i] == names[i]);
        }
        lemma_pieces_join(front);
        let head = join(front) + seq![COMMA];
        assert(head.drop_last() =~= join(front));
        assert(pieces(head) == front.push(Seq::empty()));
        assert(is_name(names.last())) by {
            assert(names.last() == names[names.len() - 1]);
        }
        lemma_pieces_append(head, names.last());
        assert(pieces(head).drop_last() =~= front);
        assert(Seq::<u8>::empty() + names.last() =~= names.last());
        assert(front.push(names.last()) =~= names);
    }
}

/// A list of names that is joined and split is the same list.
pub proof fn lemma_split_join(names: Seq<Seq<u8>>)
    requires
        is_list(names),
    ensures
        split(join(names)) == names,
{
    if names.len() == 0 {
        assert(split(join(names)) =~= names);
    } else {
        lemma_pieces_join(names);
        if names.len() >= 2 {
            assert(join(names).len() >= 1);
        }
    }
}

/// The text of a list of names is ASCII.
pub proof fn lemma_join_ascii(names: Seq<Seq<u8>>)
    requires
        forall|i: int| 0 <= i < names.len() ==> is_name(#[trigger] names[i]),
    ensures
        is_ascii_bytes(join(names)),
    decreases names.len(),
{
    if names.len() == 1 {
        assert(is_name(names[0]));
    } else if names.len() >= 2 {
        let front = names.drop_last();
        assert forall|i: int| 0 <= i < front.len() implies is_name(#[trigger] front[i]) by {
            assert(front[i] == names[i]);
        }
        lemma_join_ascii(front);
        assert(is_name(names.last())) by {
            assert(names.last() == names[names.len() - 1]);
        }
        let text = join(names);
        assert forall|j: int| 0 <= j < text.len() implies #[trigger] text[j] < 0x80 by {
            if j < join(front).len() {
                assert(text[j] == join(front)[j]);
            } else if j > join(front).len() {
                assert(text[j] == names.last()[j - join(front).len() - 1]);
            }
        }
    }
}

/// A list of names that is written and read back is the same list.
pub proof fn lemma_names_roundtrip(names: Seq<Seq<u8>>, rest: Seq<u8>)
    requires
        is_list(names),
        join(names).len() < 0x1_0000_0000,
    ensures
        names_outcome(names_wire(names) + rest) == Ok::<nat, ErrorKind>(names_wire(names).len()),
        names_content(names_wire(names) + rest) == names,
{
    lemma_bytes_roundtrip(join(names), rest);
    lemma_join_ascii(names);
    lemma_split_join(names);
}

/// The names held by a vector of byte vectors.
pub open spec fn names_of(list: Seq<Vec<u8>>) -> Seq<Seq<u8>> {
    Seq::new(list.len(), |i: int| list[i]@)
}

/// A `name-list` as defined in the SSH protocol: names in their order,
/// each of them ASCII without a comma.
///
/// see <https://datatracker.ietf.org/doc/html/rfc4251#section-5>.
#[derive(Debug, PartialEq, Eq)]
pub struct NameList {
    names: Vec<Vec<u8>>,
}

impl View for NameList {
    type V = Seq<Seq<u8>>;

    closed spec fn view(&self) -> Seq<Seq<u8>> {
        names_of(self.names@)
    }
}

impl Default for NameList {
    fn default() -> (l: Self)
        ensures
            l@ == Seq::<Seq<u8>>::empty(),
    {
        let l = Self { names: Vec::new() };
        assert(l@ =~= Seq::<Seq<u8>>::empty());
        l
    }
}

impl Clone for NameList {
    fn clone(&self) -> (l: Self)
        ensures
            l@ == self@,
    {
        proof {
            use_type_invariant(self);
        }
        let mut names: Vec<Vec<u8>> = Vec::new();
        let mut i: usize = 0;
        while i < self.names.len()
            invariant
                i <= self.names.len(),
                names.len() == i,
                names_of(names@) == names_of(self.names@).take(i as int),
            decreases self.names.len() - i,
        {
            let ghost before = names_of(names@);
            let name = vstd::slice::slice_to_vec(self.names[i].as_slice());
            names.push(name);
            i += 1;
            proof {
                let after = names_of(names@);
                let want = names_of(self.names@).take(i as int);
                assert(after.len() == want.len());
                assert forall|j: int| 0 <= j < after.len() implies after[j] == want[j] by {
                    if j < i - 1 {
                        assert(after[j] == before[j]);
                        assert(before[j] == names_of(self.names@).take(i - 1)[j]);
                    }
                }
                assert(after =~= want);
            }
        }
        assert(names_of(names@) =~= names_of(self.names@));
        Self { names }
    }
}

/// Whether the bytes are a name.
fn check_name(name: &[u8]) -> (ok: bool)
    ensures
        ok == is_name(name@),
{
    let mut i: usize = 0;
    while i < name.len()
        invariant
            i <= name.len(),
            forall|j: int| 0 <= j < i ==> (#[trigger] name@[j]) < 0x80 && name@[j] != COMMA,
        decreases name.len() - i,
    {
        if name[i] >= 0x80 || name[i] == COMMA {
            return false;
        }
        i += 1;
    }
    true
}

/// Whether every byte is ASCII.
fn check_ascii(bytes: &[u8]) -> (ok: bool)
    ensures
        ok == is_ascii_bytes(bytes@),
{
    let mut i: usize = 0;
    while i < bytes.len()
        invariant
            i <= bytes.len(),
            forall|j: int| 0 <= j < i ==> (#[trigger] bytes@[j]) < 0x80,
        decreases bytes.len() - i,
    {
        if bytes[i] >= 0x80 {
            return false;
        }
        i += 1;
    }
    true
}

impl NameList {
    #[verifier::type_invariant]
    spec fn well_formed(&self) -> bool {
        is_list(names_of(self.names@))
    }

    /// Create a [`NameList`] that holds `names` in their order.
    ///
    /// A name that is not ASCII or holds a comma is refused, and so is
    /// the list made of one empty name.
    pub fn new(names: Vec<Vec<u8>>) -> (r: Result<Self, Error>)
        ensures
            is_list(names_of(names@)) ==> r is Ok && r->Ok_0@ == names_of(names@),
            !is_list(names_of(names@)) ==> r is Err && r->Err_0.spec_kind()
                == ErrorKind::ConstraintViolation,
    {
        if names.len() == 1 && names[0].len() == 0 {
            assert(names_of(names@)[0].len() == 0);
            return Err(Error::ConstraintViolation);
        }
        let mut i: usize = 0;
        while i < names.len()
            invariant
                i <= names.len(),
                forall|j: int| 0 <= j < i ==> is_name(#[trigger] names_of(names@)[j]),
            decreases names.len() - i,
        {
            if !check_name(names[i].as_slice()) {
                assert(!is_name(names_of(names@)[i as int]));
                return Err(Error::ConstraintViolation);
            }
            i += 1;
        }
        assert(names.len() == 1 ==> names_of(names@)[0].len() == names@[0]@.len());
        Ok(Self { names })
    }

    /// Create the [`NameList`] that `content` spells, one name between
    /// each two commas; an empty content spells the empty list.
    pub fn parse(content: &[u8]) -> (r: Result<Self, Error>)
        ensures
            is_ascii_bytes(content@) ==> r is Ok && r->Ok_0@ == split(content@),
            !is_ascii_bytes(content@) ==> r is Err && r->Err_0.spec_kind()
                == ErrorKind::ConstraintViolation,
    {
        if !check_ascii(content) {
            return Err(Error::ConstraintViolation);
        }
        let mut names: Vec<Vec<u8>> = Vec::new();
        if content.len() == 0 {
            assert(names_of(names@) =~= split(content@));
            return Ok(Self { names });
        }
        let mut current: Vec<u8> = Vec::new();
        let mut i: usize = 0;
        assert(names_of(names@).push(current@) =~= pieces(content@.take(0)));
        while i < content.len()
            invariant
                i <= content.len(),
                names_of(names@).push(current@) == pieces(content@.take(i as int)),
            decreases content.len() - i,
        {
            let byte: u8 = content[i];
            proof {
                let upto = content@.take(i + 1);
                assert(upto.drop_last() =~= content@.take(i as int));
                assert(upto.last() == byte);
            }
            if byte == COMMA {
                let ghost before = names_of(names@).push(current@);
                names.push(current);
                current = Vec::new();
                assert(names_of(names@) =~= before);
            } else {
                let ghost before = names_of(names@).push(current@);
                let ghost token = current@;
                current.push(byte);
                assert(before.drop_last() =~= names_of(names@));
                assert(before.last() == token);
            }
            i += 1;
        }
        let ghost done = names_of(names@).push(current@);
        names.push(current);
        proof {
            assert(content@.take(content@.len() as int) =~= content@);
            assert(names_of(names@) =~= done);
            lemma_split_is_list(content@);
        }
        Ok(Self { names })
    }

    /// The names of the list, in their order.
    pub fn names(&self) -> (names: &Vec<Vec<u8>>)
        ensures
            names_of(names@) == self@,
            is_list(self@),
    {
        proof {
            use_type_invariant(self);
        }
        &self.names
    }

    /// The number of names in the list.
    pub fn len(&self) -> (n: usize)
        ensures
            n == self@.len(),
    {
        self.names.len()
    }

    /// Whether the list holds no name.
    pub fn is_empty(&self) -> (e: bool)
        ensures
            e == (self@.len() == 0),
    {
        self.names.len() == 0
    }

    /// The names of the list joined by commas.
    pub fn content(&self) -> (text: Vec<u8>)
        ensures
            text@ == join(self@),
            is_ascii_bytes(text@),
    {
        proof {
            use_type_invariant(self);
            lemma_join_ascii(self@);
        }
        let mut text: Vec<u8> = Vec::new();
        let mut i: usize = 0;
        assert(text@ =~= join(self@.take(0)));
        while i < self.names.len()
            invariant
                i <= self.names.len(),
                text@ == join(names_of(self.names@).take(i as int)),
            decreases self.names.len() - i,
        {
            proof {
                let upto = names_of(self.names@).take(i + 1);
                assert(upto.drop_last() =~= names_of(self.names@).take(i as int));
                assert(upto.last() == self.names@[i as int]@);
                if i == 0 {
                    assert(join(names_of(self.names@).take(0)) =~= Seq::<u8>::empty());
                }
            }
            if i > 0 {
                text.push(COMMA);
            }
            text.extend_from_slice(self.names[i].as_slice());
            i += 1;
            assert(text@ =~= join(names_of(self.names@).take(i as int)));
        }
        assert(names_of(self.names@).take(self.names@.len() as int) =~= names_of(self.names@));
        text
    }
}

impl Encode for NameList {
    open spec fn wire(&self) -> Seq<u8> {
        names_wire(self@)
    }

    open spec fn fits(&self) -> bool {
        join(self@).len() < 0x1_0000_0000
    }

    fn encode(&self, out: &mut Vec<u8>) -> (r: Result<(), Error>) {
        let text = self.content();
        Bytes::borrowed(text.as_slice()).encode(out)
    }
}

impl<'b> Decode<'b> for NameList {
    open spec fn outcome(buf: Seq<u8>) -> Result<nat, ErrorKind> {
        names_outcome(buf)
    }

    open spec fn decoded_from(&self, buf: Seq<u8>) -> bool {
        self@ == names_content(buf)
    }

    /// The names are names, and the list is not the one of one empty
    /// name: every list that was made or read is so.
    open spec fn sound(&self) -> bool {
        is_list(self@)
    }

    fn decode(buf: &'b [u8]) -> (r: Result<(Self, usize), Error>) {
        let (bytes, n) = Bytes::decode(buf)?;
        let list = NameList::parse(bytes.as_ref())?;
        proof {
            use_type_invariant(&list);
        }
        Ok((list, n))
    }
}

impl<'b> Roundtrip<'b> for NameList {
    proof fn lemma_reads_back(&self, rest: Seq<u8>) {
        lemma_names_roundtrip(self@, rest);
    }
}

} // verus!
