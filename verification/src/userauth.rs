//! Messages involved in the SSH's **authentication** (`SSH-USERAUTH`) part of the protocol,
//! as defined in the [RFC 4252](https://datatracker.ietf.org/doc/html/rfc4252) and [RFC 4256](https://datatracker.ietf.org/doc/html/rfc4256).

use vstd::prelude::*;
use vstd::slice::slice_to_vec;
use vstd::utf8::is_ascii_chars;

use crate::arch::string::str_eq;
use crate::arch::{Bool, Bytes, NameList, StringAscii, StringUtf8};
use crate::dispatch::{
    decode_flagged, decode_tagged_message, dispatch_decoded_from, dispatch_fits, dispatch_outcome,
    dispatch_sound, dispatch_wire, encode_flagged, encode_tagged_message, flagged_decoded_from,
    flagged_fits, flagged_outcome, flagged_sound, flagged_wire, lemma_flagged_reads_back,
    lemma_tagged_message_reads_back, wire_of, Variant,
};
use crate::error::{Error, ErrorKind};
use crate::wire::{
    decode_message, encode_message, lemma_message_reads_back, message_outcome, message_wire,
    Decode, Encode, Roundtrip,
};

verus! {

/// The `SSH_MSG_USERAUTH_REQUEST` message.
///
/// see <https://datatracker.ietf.org/doc/html/rfc4252#section-5>.
#[derive(Debug, Clone)]
pub struct Request<'b> {
    /// Username for the auth request.
    pub username: StringUtf8,

    /// Service name to query.
    pub service_name: StringAscii,

    /// Authentication method used.
    pub method: Method<'b>,
}

impl<'b> Request<'b> {
    /// The number of the message.
    pub const NUMBER: u8 = 50;
}

impl<'b> Encode for Request<'b> {
    open spec fn wire(&self) -> Seq<u8> {
        message_wire(
            50,
            dispatch_wire(
                (self.username, self.service_name).wire(),
                self.method.tag(),
                ().wire(),
                self.method.payload(),
            ),
        )
    }

    open spec fn fits(&self) -> bool {
        dispatch_fits((self.username, self.service_name), (), self.method)
    }

    fn encode(&self, out: &mut Vec<u8>) -> (r: Result<(), Error>) {
        encode_tagged_message(50, &(&self.username, &self.service_name), &(), &self.method, out)
    }
}

impl<'b> Decode<'b> for Request<'b> {
    open spec fn outcome(buf: Seq<u8>) -> Result<nat, ErrorKind> {
        message_outcome(
            50,
            buf,
            dispatch_outcome::<(StringUtf8, StringAscii), (), Method<'b>>(buf.skip(1)),
        )
    }

    open spec fn decoded_from(&self, buf: Seq<u8>) -> bool {
        dispatch_decoded_from((self.username, self.service_name), (), self.method, buf.skip(1))
    }

    open spec fn sound(&self) -> bool {
        dispatch_sound((self.username, self.service_name), (), self.method)
    }

    fn decode(buf: &'b [u8]) -> (r: Result<(Self, usize), Error>) {
        let (
            (before, between, method),
            n,
        ) = decode_tagged_message::<(StringUtf8, StringAscii), (), Method<'b>>(50, buf)?;
        let (username, service_name) = before;
        Ok((Request { username, service_name, method }, n))
    }
}

impl<'b> Roundtrip<'b> for Request<'b> {
    proof fn lemma_reads_back(&self, rest: Seq<u8>) {
        lemma_tagged_message_reads_back(
            50,
            (self.username, self.service_name),
            (),
            self.method,
            rest,
        );
    }
}

/// The authentication method in the `SSH_MSG_USERAUTH_REQUEST` message.
#[derive(Debug, Clone)]
pub enum Method<'b> {
    /// Authenticate using the `none` method,
    /// as defined in [RFC4252 section 5.2](https://datatracker.ietf.org/doc/html/rfc4252#section-5.2).
    NoAuth,

    /// Authenticate using the `publickey` method,
    /// as defined in [RFC4252 section 7](https://datatracker.ietf.org/doc/html/rfc4252#section-7).
    Publickey {
        /// Public key algorithm's name.
        algorithm: Bytes<'b>,

        /// Public key blob.
        blob: Bytes<'b>,

        /// The optional signature of the authentication packet,
        /// signed with the according private key.
        signature: Option<Bytes<'b>>,
    },

    /// Authenticate using the `password` method,
    /// as defined in [RFC4252 section 8](https://datatracker.ietf.org/doc/html/rfc4252#section-8).
    Password {
        /// Plaintext password.
        password: StringUtf8,

        /// In the case of a the receival of a [`PasswdChangereq`],
        /// the new password to be set in place of the old one.
        new: Option<StringUtf8>,
    },

    /// Authenticate using the `hostbased` method,
    /// as defined in [RFC4252 section 9](https://datatracker.ietf.org/doc/html/rfc4252#section-9).
    Hostbased {
        /// Public key algorithm for the host key.
        algorithm: Bytes<'b>,

        /// Public host key and certificates for client host.
        host_key: Bytes<'b>,

        /// Client host name expressed as the FQDN.
        client_fqdn: StringAscii,

        /// User name on the client host.
        username: StringUtf8,

        /// The signature of the authentication packet.
        signature: Bytes<'b>,
    },

    /// Authenticate using the `keyboard-interactive` method,
    /// as defined in [RFC4256 section 3.1](https://datatracker.ietf.org/doc/html/rfc4256#section-3.1).
    KeyboardInteractive {
        /// Language tag.
        language: StringAscii,

        /// A hint for the prefered interactive submethod.
        submethods: StringUtf8,
    },
}

impl<'b> Method<'b> {
    /// Get the [`Method`]'s SSH identifier.
    pub fn as_ascii(&self) -> (tag: StringAscii)
        ensures
            tag@ == self.tag(),
            is_ascii_chars(tag@),
            Self::known(tag@),
    {
        match self {
            Method::NoAuth { .. } => {
                proof {
                    reveal_strlit("none");
                }
                StringAscii::literal("none")
            },
            Method::Publickey { .. } => {
                proof {
                    reveal_strlit("publickey");
                }
                StringAscii::literal("publickey")
            },
            Method::Password { .. } => {
                proof {
                    reveal_strlit("password");
                }
                StringAscii::literal("password")
            },
            Method::Hostbased { .. } => {
                proof {
                    reveal_strlit("hostbased");
                }
                StringAscii::literal("hostbased")
            },
            Method::KeyboardInteractive { .. } => {
                proof {
                    reveal_strlit("keyboard-interactive");
                }
                StringAscii::literal("keyboard-interactive")
            },
        }
    }

    /// The tags of the shapes are ASCII texts, and no two of them are the
    /// same text.
    pub proof fn lemma_tags()
        ensures
            is_ascii_chars("none"@),
            "none"@.len() == 4,
            is_ascii_chars("publickey"@),
            "publickey"@.len() == 9,
            is_ascii_chars("password"@),
            "password"@.len() == 8,
            is_ascii_chars("hostbased"@),
            "hostbased"@.len() == 9,
            is_ascii_chars("keyboard-interactive"@),
            "keyboard-interactive"@.len() == 20,
            "none"@ != "publickey"@,
            "none"@ != "password"@,
            "publickey"@ != "password"@,
            "none"@ != "hostbased"@,
            "publickey"@ != "hostbased"@,
            "password"@ != "hostbased"@,
            "none"@ != "keyboard-interactive"@,
            "publickey"@ != "keyboard-interactive"@,
            "password"@ != "keyboard-interactive"@,
            "hostbased"@ != "keyboard-interactive"@,
    {
        reveal_strlit("none");
        reveal_strlit("publickey");
        reveal_strlit("password");
        reveal_strlit("hostbased");
        reveal_strlit("keyboard-interactive");
        assert("none"@.len() != "publickey"@.len());
        assert("none"@.len() != "password"@.len());
        assert("publickey"@.len() != "password"@.len());
        assert("none"@.len() != "hostbased"@.len());
        assert("publickey"@[0] != "hostbased"@[0]);
        assert("password"@.len() != "hostbased"@.len());
        assert("none"@.len() != "keyboard-interactive"@.len());
        assert("publickey"@.len() != "keyboard-interactive"@.len());
        assert("password"@.len() != "keyboard-interactive"@.len());
        assert("hostbased"@.len() != "keyboard-interactive"@.len());
    }
}

impl<'b> Variant<'b> for Method<'b> {
    open spec fn tag(&self) -> Seq<char> {
        match self {
            Method::NoAuth { .. } => "none"@,
            Method::Publickey { .. } => "publickey"@,
            Method::Password { .. } => "password"@,
            Method::Hostbased { .. } => "hostbased"@,
            Method::KeyboardInteractive { .. } => "keyboard-interactive"@,
        }
    }

    open spec fn known(tag: Seq<char>) -> bool {
        ||| tag == "none"@
        ||| tag == "publickey"@
        ||| tag == "password"@
        ||| tag == "hostbased"@
        ||| tag == "keyboard-interactive"@
    }

    open spec fn payload(&self) -> Seq<u8> {
        match self {
            Method::NoAuth => ().wire(),
            Method::Publickey { algorithm, blob, signature } => {
                flagged_wire((*algorithm, *blob).wire(), wire_of(*signature))
            },
            Method::Password { password, new } => flagged_wire((*password).wire(), wire_of(*new)),
            Method::Hostbased { algorithm, host_key, client_fqdn, username, signature } => {
                (*algorithm, (*host_key, (*client_fqdn, (*username, *signature)))).wire()
            },
            Method::KeyboardInteractive { language, submethods } => (*language, *submethods).wire(),
        }
    }

    open spec fn payload_fits(&self) -> bool {
        match self {
            Method::NoAuth => ().fits(),
            Method::Publickey { algorithm, blob, signature } => {
                flagged_fits((*algorithm, *blob), *signature)
            },
            Method::Password { password, new } => flagged_fits(*password, *new),
            Method::Hostbased { algorithm, host_key, client_fqdn, username, signature } => {
                (*algorithm, (*host_key, (*client_fqdn, (*username, *signature)))).fits()
            },
            Method::KeyboardInteractive { language, submethods } => (*language, *submethods).fits(),
        }
    }

    open spec fn payload_outcome(tag: Seq<char>, buf: Seq<u8>) -> Result<nat, ErrorKind> {
        if tag == "none"@ {
            <()>::outcome(buf)
        } else if tag == "publickey"@ {
            flagged_outcome::<(Bytes<'b>, Bytes<'b>), Bytes<'b>>(buf)
        } else if tag == "password"@ {
            flagged_outcome::<StringUtf8, StringUtf8>(buf)
        } else if tag == "hostbased"@ {
            <(Bytes<'b>, (Bytes<'b>, (StringAscii, (StringUtf8, Bytes<'b>))))>::outcome(buf)
        } else if tag == "keyboard-interactive"@ {
            <(StringAscii, StringUtf8)>::outcome(buf)
        } else {
            Err(ErrorKind::UnknownVariant)
        }
    }

    open spec fn payload_decoded_from(&self, buf: Seq<u8>) -> bool {
        match self {
            Method::NoAuth => ().decoded_from(buf),
            Method::Publickey { algorithm, blob, signature } => {
                flagged_decoded_from((*algorithm, *blob), *signature, buf)
            },
            Method::Password { password, new } => flagged_decoded_from(*password, *new, buf),
            Method::Hostbased { algorithm, host_key, client_fqdn, username, signature } => {
                (*algorithm, (*host_key, (*client_fqdn, (*username, *signature)))).decoded_from(buf)
            },
            Method::KeyboardInteractive { language, submethods } => {
                (*language, *submethods).decoded_from(buf)
            },
        }
    }

    open spec fn payload_sound(&self) -> bool {
        match self {
            Method::NoAuth => ().sound(),
            Method::Publickey { algorithm, blob, signature } => {
                flagged_sound((*algorithm, *blob), *signature)
            },
            Method::Password { password, new } => flagged_sound(*password, *new),
            Method::Hostbased { algorithm, host_key, client_fqdn, username, signature } => {
                (*algorithm, (*host_key, (*client_fqdn, (*username, *signature)))).sound()
            },
            Method::KeyboardInteractive { language, submethods } => {
                (*language, *submethods).sound()
            },
        }
    }

    proof fn lemma_payload_reads_back(&self, rest: Seq<u8>) {
        Self::lemma_tags();
        match self {
            Method::NoAuth => {
                ().lemma_reads_back(rest);
            },
            Method::Publickey { algorithm, blob, signature } => {
                lemma_flagged_reads_back((*algorithm, *blob), *signature, rest);
            },
            Method::Password { password, new } => {
                lemma_flagged_reads_back(*password, *new, rest);
            },
            Method::Hostbased { algorithm, host_key, client_fqdn, username, signature } => {
                (
                    *algorithm,
                    (*host_key, (*client_fqdn, (*username, *signature))),
                ).lemma_reads_back(rest);
            },
            Method::KeyboardInteractive { language, submethods } => {
                (*language, *submethods).lemma_reads_back(rest);
            },
        }
    }

    fn tag_of(&self) -> (tag: StringAscii) {
        self.as_ascii()
    }

    fn encode_payload(&self, out: &mut Vec<u8>) -> (r: Result<(), Error>) {
        match self {
            Method::NoAuth => ().encode(out),
            Method::Publickey { algorithm, blob, signature } => {
                encode_flagged(&(algorithm, blob), signature, out)
            },
            Method::Password { password, new } => encode_flagged(password, new, out),
            Method::Hostbased { algorithm, host_key, client_fqdn, username, signature } => {
                (algorithm, (host_key, (client_fqdn, (username, signature)))).encode(out)
            },
            Method::KeyboardInteractive { language, submethods } => {
                (language, submethods).encode(out)
            },
        }
    }

    fn decode_payload(tag: &StringAscii, buf: &'b [u8]) -> (r: Result<(Self, usize), Error>) {
        let name = tag.as_str();
        if str_eq(name, "none") {
            let n: usize = 0;
            Ok((Method::NoAuth, n))
        } else if str_eq(name, "publickey") {
            let (
                (fields, signature),
                n,
            ) = decode_flagged::<(Bytes<'b>, Bytes<'b>), Bytes<'b>>(buf)?;
            let (algorithm, blob) = fields;
            Ok((Method::Publickey { algorithm, blob, signature }, n))
        } else if str_eq(name, "password") {
            let ((fields, new), n) = decode_flagged::<StringUtf8, StringUtf8>(buf)?;
            let password = fields;
            Ok((Method::Password { password, new }, n))
        } else if str_eq(name, "hostbased") {
            let (
                fields,
                n,
            ) = <(Bytes<'b>, (Bytes<'b>, (StringAscii, (StringUtf8, Bytes<'b>))))>::decode(buf)?;
            let (algorithm, (host_key, (client_fqdn, (username, signature)))) = fields;
            Ok((Method::Hostbased { algorithm, host_key, client_fqdn, username, signature }, n))
        } else if str_eq(name, "keyboard-interactive") {
            let (fields, n) = <(StringAscii, StringUtf8)>::decode(buf)?;
            let (language, submethods) = fields;
            Ok((Method::KeyboardInteractive { language, submethods }, n))
        } else {
            Err(Error::UnknownVariant(slice_to_vec(tag.as_bytes())))
        }
    }
}

/// The `SSH_MSG_USERAUTH_FAILURE` message.
///
/// see <https://datatracker.ietf.org/doc/html/rfc4252#section-5.1>.
#[derive(Debug, Default, Clone)]
pub struct Failure {
    /// Authentications that can continue.
    pub continue_with: NameList,

    /// Partial success.
    pub partial_success: Bool,
}

impl Failure {
    /// The number of the message.
    pub const NUMBER: u8 = 51;

    /// The fields of the message in the order in which they are sent.
    pub open spec fn fields(&self) -> (NameList, Bool) {
        (self.continue_with, self.partial_success)
    }
}

impl Encode for Failure {
    open spec fn wire(&self) -> Seq<u8> {
        message_wire(51, self.fields().wire())
    }

    open spec fn fits(&self) -> bool {
        self.fields().fits()
    }

    fn encode(&self, out: &mut Vec<u8>) -> (r: Result<(), Error>) {
        encode_message(51, &(&self.continue_with, &self.partial_success), out)
    }
}

impl<'b> Decode<'b> for Failure {
    open spec fn outcome(buf: Seq<u8>) -> Result<nat, ErrorKind> {
        message_outcome(51, buf, <(NameList, Bool)>::outcome(buf.skip(1)))
    }

    open spec fn decoded_from(&self, buf: Seq<u8>) -> bool {
        self.fields().decoded_from(buf.skip(1))
    }

    open spec fn sound(&self) -> bool {
        self.fields().sound()
    }

    fn decode(buf: &'b [u8]) -> (r: Result<(Self, usize), Error>) {
        let (fields, n) = decode_message::<(NameList, Bool)>(51, buf)?;
        let (continue_with, partial_success) = fields;
        Ok((Failure { continue_with, partial_success }, n))
    }
}

impl<'b> Roundtrip<'b> for Failure {
    proof fn lemma_reads_back(&self, rest: Seq<u8>) {
        lemma_message_reads_back(51, self.fields(), rest);
    }
}

/// The `SSH_MSG_USERAUTH_SUCCESS` message.
///
/// see <https://datatracker.ietf.org/doc/html/rfc4252#section-5.1>.
#[derive(Debug, Default, Clone)]
pub struct Success;

impl Success {
    /// The number of the message.
    pub const NUMBER: u8 = 52;

    /// The fields of the message in the order in which they are sent.
    pub open spec fn fields(&self) -> () {
        ()
    }
}

impl Encode for Success {
    open spec fn wire(&self) -> Seq<u8> {
        message_wire(52, self.fields().wire())
    }

    open spec fn fits(&self) -> bool {
        self.fields().fits()
    }

    fn encode(&self, out: &mut Vec<u8>) -> (r: Result<(), Error>) {
        encode_message(52, &(), out)
    }
}

impl<'b> Decode<'b> for Success {
    open spec fn outcome(buf: Seq<u8>) -> Result<nat, ErrorKind> {
        message_outcome(52, buf, <()>::outcome(buf.skip(1)))
    }

    open spec fn decoded_from(&self, buf: Seq<u8>) -> bool {
        self.fields().decoded_from(buf.skip(1))
    }

    open spec fn sound(&self) -> bool {
        self.fields().sound()
    }

    fn decode(buf: &'b [u8]) -> (r: Result<(Self, usize), Error>) {
        let (fields, n) = decode_message::<()>(52, buf)?;
        Ok((Success, n))
    }
}

impl<'b> Roundtrip<'b> for Success {
    proof fn lemma_reads_back(&self, rest: Seq<u8>) {
        lemma_message_reads_back(52, self.fields(), rest);
    }
}

/// The `SSH_MSG_USERAUTH_BANNER` message.
///
/// see <https://datatracker.ietf.org/doc/html/rfc4252#section-5.4>.
#[derive(Debug, Default, Clone)]
pub struct Banner {
    /// The auth banner message.
    pub message: StringUtf8,

    /// Language tag.
    pub language: StringAscii,
}

impl Banner {
    /// The number of the message.
    pub const NUMBER: u8 = 53;

    /// The fields of the message in the order in which they are sent.
    pub open spec fn fields(&self) -> (StringUtf8, StringAscii) {
        (self.message, self.language)
    }
}

impl Encode for Banner {
    open spec fn wire(&self) -> Seq<u8> {
        message_wire(53, self.fields().wire())
    }

    open spec fn fits(&self) -> bool {
        self.fields().fits()
    }

    fn encode(&self, out: &mut Vec<u8>) -> (r: Result<(), Error>) {
        encode_message(53, &(&self.message, &self.language), out)
    }
}

impl<'b> Decode<'b> for Banner {
    open spec fn outcome(buf: Seq<u8>) -> Result<nat, ErrorKind> {
        message_outcome(53, buf, <(StringUtf8, StringAscii)>::outcome(buf.skip(1)))
    }

    open spec fn decoded_from(&self, buf: Seq<u8>) -> bool {
        self.fields().decoded_from(buf.skip(1))
    }

    open spec fn sound(&self) -> bool {
        self.fields().sound()
    }

    fn decode(buf: &'b [u8]) -> (r: Result<(Self, usize), Error>) {
        let (fields, n) = decode_message::<(StringUtf8, StringAscii)>(53, buf)?;
        let (message, language) = fields;
        Ok((Banner { message, language }, n))
    }
}

impl<'b> Roundtrip<'b> for Banner {
    proof fn lemma_reads_back(&self, rest: Seq<u8>) {
        lemma_message_reads_back(53, self.fields(), rest);
    }
}

/// The `SSH_MSG_USERAUTH_PK_OK` message.
///
/// see <https://datatracker.ietf.org/doc/html/rfc4252#section-7>.
#[derive(Debug, Clone)]
pub struct PkOk<'b> {
    /// Public key algorithm name from the request.
    pub algorithm: Bytes<'b>,

    /// Public key blob from the request.
    pub blob: Bytes<'b>,
}

impl<'b> PkOk<'b> {
    /// The number of the message.
    pub const NUMBER: u8 = 60;

    /// The fields of the message in the order in which they are sent.
    pub open spec fn fields(&self) -> (Bytes<'b>, Bytes<'b>) {
        (self.algorithm, self.blob)
    }
}

impl<'b> Encode for PkOk<'b> {
    open spec fn wire(&self) -> Seq<u8> {
        message_wire(60, self.fields().wire())
    }

    open spec fn fits(&self) -> bool {
        self.fields().fits()
    }

    fn encode(&self, out: &mut Vec<u8>) -> (r: Result<(), Error>) {
        encode_message(60, &(&self.algorithm, &self.blob), out)
    }
}

impl<'b> Decode<'b> for PkOk<'b> {
    open spec fn outcome(buf: Seq<u8>) -> Result<nat, ErrorKind> {
        message_outcome(60, buf, <(Bytes<'b>, Bytes<'b>)>::outcome(buf.skip(1)))
    }

    open spec fn decoded_from(&self, buf: Seq<u8>) -> bool {
        self.fields().decoded_from(buf.skip(1))
    }

    open spec fn sound(&self) -> bool {
        self.fields().sound()
    }

    fn decode(buf: &'b [u8]) -> (r: Result<(Self, usize), Error>) {
        let (fields, n) = decode_message::<(Bytes<'b>, Bytes<'b>)>(60, buf)?;
        let (algorithm, blob) = fields;
        Ok((PkOk { algorithm, blob }, n))
    }
}

impl<'b> Roundtrip<'b> for PkOk<'b> {
    proof fn lemma_reads_back(&self, rest: Seq<u8>) {
        lemma_message_reads_back(60, self.fields(), rest);
    }
}

/// The `SSH_MSG_USERAUTH_PASSWD_CHANGEREQ` message.
///
/// see <https://datatracker.ietf.org/doc/html/rfc4252#section-8>.
#[derive(Debug, Default, Clone)]
pub struct PasswdChangereq {
    /// Password change prompt.
    pub prompt: StringUtf8,

    /// Language tag (deprecated).
    pub language: StringAscii,
}

impl PasswdChangereq {
    /// The number of the message.
    pub const NUMBER: u8 = 60;

    /// The fields of the message in the order in which they are sent.
    pub open spec fn fields(&self) -> (StringUtf8, StringAscii) {
        (self.prompt, self.language)
    }
}

impl Encode for PasswdChangereq {
    open spec fn wire(&self) -> Seq<u8> {
        message_wire(60, self.fields().wire())
    }

    open spec fn fits(&self) -> bool {
        self.fields().fits()
    }

    fn encode(&self, out: &mut Vec<u8>) -> (r: Result<(), Error>) {
        encode_message(60, &(&self.prompt, &self.language), out)
    }
}

impl<'b> Decode<'b> for PasswdChangereq {
    open spec fn outcome(buf: Seq<u8>) -> Result<nat, ErrorKind> {
        message_outcome(60, buf, <(StringUtf8, StringAscii)>::outcome(buf.skip(1)))
    }

    open spec fn decoded_from(&self, buf: Seq<u8>) -> bool {
        self.fields().decoded_from(buf.skip(1))
    }

    open spec fn sound(&self) -> bool {
        self.fields().sound()
    }

    fn decode(buf: &'b [u8]) -> (r: Result<(Self, usize), Error>) {
        let (fields, n) = decode_message::<(StringUtf8, StringAscii)>(60, buf)?;
        let (prompt, language) = fields;
        Ok((PasswdChangereq { prompt, language }, n))
    }
}

impl<'b> Roundtrip<'b> for PasswdChangereq {
    proof fn lemma_reads_back(&self, rest: Seq<u8>) {
        lemma_message_reads_back(60, self.fields(), rest);
    }
}

/// The `SSH_MSG_USERAUTH_INFO_REQUEST` message.
///
/// see <https://datatracker.ietf.org/doc/html/rfc4256#section-3.2>.
#[derive(Debug, Clone)]
pub struct InfoRequest {
    /// Name of the challenge.
    pub name: StringUtf8,

    /// Instructions for the challenge.
    pub instruction: StringUtf8,

    /// Language tag (deprecated).
    pub language: StringAscii,

    /// The challenge's prompts, sent behind their number.
    pub prompts: Vec<InfoRequestPrompt>,
}

impl InfoRequest {
    /// The number of the message.
    pub const NUMBER: u8 = 60;

    /// The fields of the message in the order in which they are sent.
    pub open spec fn fields(&self) -> (
        StringUtf8,
        (StringUtf8, (StringAscii, Vec<InfoRequestPrompt>)),
    ) {
        (self.name, (self.instruction, (self.language, self.prompts)))
    }
}

impl Encode for InfoRequest {
    open spec fn wire(&self) -> Seq<u8> {
        message_wire(60, self.fields().wire())
    }

    open spec fn fits(&self) -> bool {
        self.fields().fits()
    }

    fn encode(&self, out: &mut Vec<u8>) -> (r: Result<(), Error>) {
        encode_message(60, &(&self.name, (&self.instruction, (&self.language, &self.prompts))), out)
    }
}

impl<'b> Decode<'b> for InfoRequest {
    open spec fn outcome(buf: Seq<u8>) -> Result<nat, ErrorKind> {
        message_outcome(
            60,
            buf,
            <(
                StringUtf8,
                (StringUtf8, (StringAscii, Vec<InfoRequestPrompt>)),
            )>::outcome(buf.skip(1)),
        )
    }

    open spec fn decoded_from(&self, buf: Seq<u8>) -> bool {
        self.fields().decoded_from(buf.skip(1))
    }

    open spec fn sound(&self) -> bool {
        self.fields().sound()
    }

    fn decode(buf: &'b [u8]) -> (r: Result<(Self, usize), Error>) {
        let (fields, n) = decode_message::<(
            StringUtf8,
            (StringUtf8, (StringAscii, Vec<InfoRequestPrompt>)),
        )>(60, buf)?;
        let (name, (instruction, (language, prompts))) = fields;
        Ok((InfoRequest { name, instruction, language, prompts }, n))
    }
}

impl<'b> Roundtrip<'b> for InfoRequest {
    proof fn lemma_reads_back(&self, rest: Seq<u8>) {
        lemma_message_reads_back(60, self.fields(), rest);
    }
}

/// A prompt in the `SSH_MSG_USERAUTH_INFO_REQUEST` message.
#[derive(Debug, Clone)]
pub struct InfoRequestPrompt {
    /// Challenge prompt text.
    pub prompt: StringUtf8,

    /// Whether the client should echo back typed characters.
    pub echo: Bool,
}

impl InfoRequestPrompt {
    /// The fields of the prompt in the order in which they are sent.
    pub open spec fn fields(&self) -> (StringUtf8, Bool) {
        (self.prompt, self.echo)
    }
}

impl Encode for InfoRequestPrompt {
    open spec fn wire(&self) -> Seq<u8> {
        self.fields().wire()
    }

    open spec fn fits(&self) -> bool {
        self.fields().fits()
    }

    fn encode(&self, out: &mut Vec<u8>) -> (r: Result<(), Error>) {
        (&self.prompt, &self.echo).encode(out)
    }
}

impl<'b> Decode<'b> for InfoRequestPrompt {
    open spec fn outcome(buf: Seq<u8>) -> Result<nat, ErrorKind> {
        <(StringUtf8, Bool)>::outcome(buf)
    }

    open spec fn decoded_from(&self, buf: Seq<u8>) -> bool {
        self.fields().decoded_from(buf)
    }

    open spec fn sound(&self) -> bool {
        self.fields().sound()
    }

    fn decode(buf: &'b [u8]) -> (r: Result<(Self, usize), Error>) {
        let ((prompt, echo), n) = <(StringUtf8, Bool)>::decode(buf)?;
        Ok((InfoRequestPrompt { prompt, echo }, n))
    }
}

impl<'b> Roundtrip<'b> for InfoRequestPrompt {
    proof fn lemma_reads_back(&self, rest: Seq<u8>) {
        self.fields().lemma_reads_back(rest);
    }
}

/// The `SSH_MSG_USERAUTH_INFO_RESPONSE` message.
///
/// see <https://datatracker.ietf.org/doc/html/rfc4256#section-3.4>.
#[derive(Debug, Clone)]
pub struct InfoResponse {
    /// Responses to the provided challenge, sent behind their number.
    pub responses: Vec<StringUtf8>,
}

impl InfoResponse {
    /// The number of the message.
    pub const NUMBER: u8 = 61;

    /// The fields of the message in the order in which they are sent.
    pub open spec fn fields(&self) -> Vec<StringUtf8> {
        self.responses
    }
}

impl Encode for InfoResponse {
    open spec fn wire(&self) -> Seq<u8> {
        message_wire(61, self.fields().wire())
    }

    open spec fn fits(&self) -> bool {
        self.fields().fits()
    }

    fn encode(&self, out: &mut Vec<u8>) -> (r: Result<(), Error>) {
        encode_message(61, &self.responses, out)
    }
}

impl<'b> Decode<'b> for InfoResponse {
    open spec fn outcome(buf: Seq<u8>) -> Result<nat, ErrorKind> {
        message_outcome(61, buf, <Vec<StringUtf8>>::outcome(buf.skip(1)))
    }

    open spec fn decoded_from(&self, buf: Seq<u8>) -> bool {
        self.fields().decoded_from(buf.skip(1))
    }

    open spec fn sound(&self) -> bool {
        self.fields().sound()
    }

    fn decode(buf: &'b [u8]) -> (r: Result<(Self, usize), Error>) {
        let (fields, n) = decode_message::<Vec<StringUtf8>>(61, buf)?;
        let responses = fields;
        Ok((InfoResponse { responses }, n))
    }
}

impl<'b> Roundtrip<'b> for InfoResponse {
    proof fn lemma_reads_back(&self, rest: Seq<u8>) {
        lemma_message_reads_back(61, self.fields(), rest);
    }
}

} // verus!
