//! Utilities for the SSH identification string.

use vstd::prelude::*;
use vstd::std_specs::iter::IteratorSpec;
use vstd::string::{axiom_spec_iter, next_postcondition, StrSliceExecFns, StringExecFns};

use crate::arch::string::str_eq;

verus! {

/// Errors that can occur while parsing an [`Id`].
#[non_exhaustive]
#[derive(Debug, Clone, PartialEq, Eq)]
pub enum ParseError {
    /// The identifier format is not conformant; the text is kept.
    Format(String),
}

/// The parts of an identification string, as texts.
pub struct IdParts {
    /// The protocol version.
    pub protoversion: Seq<char>,
    /// The software version.
    pub softwareversion: Seq<char>,
    /// The comments, if there are any.
    pub comments: Option<Seq<char>>,
}

/// The place of the first `c` in `s`, or the length of `s` where it has
/// none.
pub open spec fn position(s: Seq<char>, c: char) -> int
    decreases s.len(),
{
    if s.len() == 0 {
        0
    } else if s[0] == c {
        0
    } else {
        1 + position(s.drop_first(), c)
    }
}

/// The parts of the identification string `text`, or nothing where
/// `text` is none.
///
/// What follows the first space is the comments. What stands before it
/// is cut at its first two hyphens: the first piece has to be `SSH`, the
/// second is the protocol version and what is left the software
/// version, and neither of the two may be empty.
pub open spec fn parse_id(text: Seq<char>) -> Option<IdParts> {
    let space = position(text, ' ');
    let id = text.take(space);
    let comments = if space < text.len() {
        Some(text.skip(space + 1))
    } else {
        None
    };
    let first = position(id, '-');
    let rest = id.skip(first + 1);
    let second = position(rest, '-');
    if first < id.len() && second < rest.len() && id.take(first) == "SSH"@ && second > 0
        && second + 1 < rest.len() {
        Some(
            IdParts {
                protoversion: rest.take(second),
                softwareversion: rest.skip(second + 1),
                comments,
            },
        )
    } else {
        None
    }
}

/// The identification string made of the parts.
pub open spec fn format_id(parts: IdParts) -> Seq<char> {
    let id = "SSH-"@ + parts.protoversion + "-"@ + parts.softwareversion;
    match parts.comments {
        Some(comments) => id + " "@ + comments,
        None => id,
    }
}

/// Whether the character `c` stands nowhere in `s`.
pub open spec fn lacks(s: Seq<char>, c: char) -> bool {
    forall|i: int| 0 <= i < s.len() ==> s[i] != c
}

/// The first `c` in `s` stands where no `c` stands before it.
pub proof fn lemma_position(s: Seq<char>, c: char, at: int)
    requires
        0 <= at <= s.len(),
        forall|j: int| 0 <= j < at ==> s[j] != c,
        at < s.len() ==> s[at] == c,
    ensures
        position(s, c) == at,
    decreases s.len(),
{
    if s.len() > 0 && at > 0 {
        let tail = s.drop_first();
        assert forall|j: int| 0 <= j < at - 1 implies tail[j] != c by {
            assert(tail[j] == s[j + 1]);
        }
        lemma_position(tail, c, at - 1);
    }
}

/// Whether the parts can be told apart again once they are written: the
/// versions are not empty, no space stands in either of them, and no
/// hyphen in the protocol version.
pub open spec fn is_plain(parts: IdParts) -> bool {
    &&& parts.protoversion.len() > 0
    &&& parts.softwareversion.len() > 0
    &&& lacks(parts.protoversion, ' ')
    &&& lacks(parts.protoversion, '-')
    &&& lacks(parts.softwareversion, ' ')
}

/// An identification string that is written and parsed gives its parts
/// back.
pub proof fn lemma_reparse(parts: IdParts)
    requires
        is_plain(parts),
    ensures
        parse_id(format_id(parts)) == Some(parts),
{
    reveal_strlit("SSH-");
    reveal_strlit("SSH");
    reveal_strlit("-");
    reveal_strlit(" ");
    let proto = parts.protoversion;
    let soft = parts.softwareversion;
    let id = "SSH-"@ + proto + "-"@ + soft;
    let text = format_id(parts);
    assert forall|j: int| 0 <= j < id.len() implies id[j] != ' ' by {
        if j < 4 {
        } else if j < 4 + proto.len() {
            assert(id[j] == proto[j - 4]);
        } else if j == 4 + proto.len() {
        } else {
            assert(id[j] == soft[j - 5 - proto.len()]);
        }
    }
    assert(id[3] == '-');
    match parts.comments {
        Some(comments) => {
            assert(text =~= id + " "@ + comments);
            assert forall|j: int| 0 <= j < id.len() implies text[j] != ' ' by {
                assert(text[j] == id[j]);
            }
            assert(text[id.len() as int] == ' ');
            lemma_position(text, ' ', id.len() as int);
            assert(text.take(id.len() as int) =~= id);
            assert(text.skip(id.len() as int + 1) =~= comments);
        },
        None => {
            lemma_position(text, ' ', id.len() as int);
            assert(text.take(id.len() as int) =~= id);
        },
    }
    lemma_position(id, '-', 3);
    assert(id.take(3) =~= "SSH"@);
    let rest = id.skip(4);
    assert(rest =~= proto + "-"@ + soft);
    assert forall|j: int| 0 <= j < proto.len() implies rest[j] != '-' by {
        assert(rest[j] == proto[j]);
    }
    assert(rest[proto.len() as int] == '-');
    lemma_position(rest, '-', proto.len() as int);
    assert(rest.take(proto.len() as int) =~= proto);
    assert(rest.skip(proto.len() as int + 1) =~= soft);
}

/// Identification string as defined in the SSH protocol.
///
/// The format must match the following pattern:
/// `SSH-<protoversion>-<softwareversion>[ <comments>]`.
///
/// see <https://datatracker.ietf.org/doc/html/rfc4253#section-4.2>.
#[derive(Debug, Clone, PartialEq, Eq, Hash)]
pub struct Id {
    /// The SSH's protocol version, should be `2.0` in our case.
    pub protoversion: String,

    /// A string identifying the software curently used, in example `billsSSH_3.6.3q3`.
    pub softwareversion: String,

    /// Optional comments with additionnal informations about the software.
    pub comments: Option<String>,
}

impl View for Id {
    type V = IdParts;

    open spec fn view(&self) -> IdParts {
        IdParts {
            protoversion: self.protoversion@,
            softwareversion: self.softwareversion@,
            comments: match self.comments {
                Some(comments) => Some(comments@),
                None => None,
            },
        }
    }
}

/// The place of the first `c` in `s`, counted in characters.
fn find_first(s: &str, c: char) -> (at: usize)
    ensures
        at == position(s@, c),
        at <= s@.len(),
{
    let len = s.unicode_len();
    let mut it = s.chars();
    let mut at: usize = 0;
    proof {
        axiom_spec_iter(s);
        assert(s@.skip(0) =~= s@);
    }
    loop
        invariant_except_break
            it.remaining() == s@.skip(at as int),
            it.obeys_prophetic_iter_laws(),
            it.decrease() is Some,
        invariant
            at <= len,
            len == s@.len(),
            forall|j: int| 0 <= j < at ==> s@[j] != c,
        ensures
            at <= s@.len(),
            forall|j: int| 0 <= j < at ==> s@[j] != c,
            at < s@.len() ==> s@[at as int] == c,
        decreases it.decrease()->0,
    {
        let ghost before = it;
        let next = it.next();
        proof {
            next_postcondition(&before, &it, next);
        }
        match next {
            None => {
                break ;
            },
            Some(found) => {
                assert(found == s@[at as int]) by {
                    assert(s@.skip(at as int)[0] == s@[at as int]);
                }
                if found == c {
                    break ;
                }
                proof {
                    assert(s@.skip(at as int).drop_first() =~= s@.skip(at + 1));
                }
                at += 1;
            },
        }
    }
    proof {
        lemma_position(s@, c, at as int);
    }
    at
}

impl Id {
    /// Convenience method to create an `SSH-2.0` identifier string.
    pub fn v2(softwareversion: &str, comments: Option<&str>) -> (id: Self)
        ensures
            id.protoversion@ == "2.0"@,
            id.softwareversion@ == softwareversion@,
            id@.comments == match comments {
                Some(text) => Some(text@),
                None => None,
            },
    {
        let comments = match comments {
            Some(text) => Some(text.to_owned()),
            None => None,
        };
        Self {
            protoversion: "2.0".to_owned(),
            softwareversion: softwareversion.to_owned(),
            comments,
        }
    }

    /// Parses an identification string.
    pub fn from_str(s: &str) -> (r: Result<Self, ParseError>)
        ensures
            match r {
                Ok(id) => parse_id(s@) == Some(id@),
                Err(ParseError::Format(text)) => parse_id(s@) is None && text@ == s@,
            },
    {
        let len = s.unicode_len();
        let space = find_first(s, ' ');
        let id = s.substring_char(0, space);
        assert(id@ =~= s@.take(space as int));
        let comments = if space < len {
            let text = s.substring_char(space + 1, len);
            assert(text@ =~= s@.skip(space + 1));
            Some(text.to_owned())
        } else {
            None
        };
        let id_len = id.unicode_len();
        let first = find_first(id, '-');
        if first >= id_len {
            return Err(ParseError::Format(s.to_owned()));
        }
        let prefix = id.substring_char(0, first);
        assert(prefix@ =~= id@.take(first as int));
        let rest = id.substring_char(first + 1, id_len);
        assert(rest@ =~= id@.skip(first + 1));
        let rest_len = rest.unicode_len();
        let second = find_first(rest, '-');
        if second >= rest_len || !str_eq(prefix, "SSH") || second == 0 || second + 1 >= rest_len {
            return Err(ParseError::Format(s.to_owned()));
        }
        let protoversion = rest.substring_char(0, second);
        assert(protoversion@ =~= rest@.take(second as int));
        let softwareversion = rest.substring_char(second + 1, rest_len);
        assert(softwareversion@ =~= rest@.skip(second + 1));
        Ok(
            Self {
                protoversion: protoversion.to_owned(),
                softwareversion: softwareversion.to_owned(),
                comments,
            },
        )
    }

    /// The identification string, without the line ending.
    pub fn to_string(&self) -> (text: String)
        ensures
            text@ == format_id(self@),
    {
        let mut text = String::from_str("SSH-");
        text.append(self.protoversion.as_str());
        text.append("-");
        text.append(self.softwareversion.as_str());
        match &self.comments {
            Some(comments) => {
                text.append(" ");
                text.append(comments.as_str());
            },
            None => {},
        }
        text
    }
}

} // verus!
