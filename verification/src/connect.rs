//! Messages involved in the SSH's **connect** (`SSH-CONNECT`) part of the protocol,
//! as defined in the [RFC 4254](https://datatracker.ietf.org/doc/html/rfc4254).

use vstd::prelude::*;
use vstd::slice::slice_to_vec;
use vstd::utf8::is_ascii_chars;

use crate::arch::string::str_eq;
use crate::arch::{Bool, Bytes, StringAscii, StringUtf8};
use crate::dispatch::{
    decode_tagged_message, dispatch_decoded_from, dispatch_fits, dispatch_outcome, dispatch_wire,
    dispatch_sound, encode_tagged_message, lemma_tagged_message_reads_back, Variant,
};
use crate::error::{Error, ErrorKind};
use crate::wire::{
    be32, decode_message, encode_message, from_be32, lemma_be32_roundtrip,
    lemma_message_reads_back, message_outcome, message_wire, u32_outcome, Decode, Encode,
    Roundtrip,
};

verus! {

/// The `SSH_MSG_GLOBAL_REQUEST` message.
///
/// see <https://datatracker.ietf.org/doc/html/rfc4254#section-4>.
#[derive(Debug, Clone)]
pub struct GlobalRequest<'b> {
    /// Whether the sender wants a reply.
    pub want_reply: Bool,

    /// The context of the global request.
    pub context: GlobalRequestContext<'b>,
}

impl<'b> GlobalRequest<'b> {
    /// The number of the message.
    pub const NUMBER: u8 = 80;
}

impl<'b> Encode for GlobalRequest<'b> {
    open spec fn wire(&self) -> Seq<u8> {
        message_wire(
            80,
            dispatch_wire(
                ().wire(),
                self.context.tag(),
                self.want_reply.wire(),
                self.context.payload(),
            ),
        )
    }

    open spec fn fits(&self) -> bool {
        dispatch_fits((), self.want_reply, self.context)
    }

    fn encode(&self, out: &mut Vec<u8>) -> (r: Result<(), Error>) {
        encode_tagged_message(80, &(), &self.want_reply, &self.context, out)
    }
}

impl<'b> Decode<'b> for GlobalRequest<'b> {
    open spec fn outcome(buf: Seq<u8>) -> Result<nat, ErrorKind> {
        message_outcome(
            80,
            buf,
            dispatch_outcome::<(), Bool, GlobalRequestContext<'b>>(buf.skip(1)),
        )
    }

    open spec fn decoded_from(&self, buf: Seq<u8>) -> bool {
        dispatch_decoded_from((), self.want_reply, self.context, buf.skip(1))
    }

    open spec fn sound(&self) -> bool {
        dispatch_sound((), self.want_reply, self.context)
    }

    fn decode(buf: &'b [u8]) -> (r: Result<(Self, usize), Error>) {
        let (
            (before, between, context),
            n,
        ) = decode_tagged_message::<(), Bool, GlobalRequestContext<'b>>(80, buf)?;
        let want_reply = between;
        Ok((GlobalRequest { want_reply, context }, n))
    }
}

impl<'b> Roundtrip<'b> for GlobalRequest<'b> {
    proof fn lemma_reads_back(&self, rest: Seq<u8>) {
        lemma_tagged_message_reads_back(80, (), self.want_reply, self.context, rest);
    }
}

/// The `context` in the `SSH_MSG_GLOBAL_REQUEST` message.
#[derive(Debug, Clone)]
pub enum GlobalRequestContext<'b> {
    /// A request of type `tcpip-forward`,
    /// as defined in [RFC4254 section 7.1](https://datatracker.ietf.org/doc/html/rfc4254#section-7.1).
    TcpipForward {
        /// Address to bind on the remote.
        bind_address: Bytes<'b>,

        /// Port to bind on the remote, randomly choosen if 0.
        bind_port: u32,
    },

    /// A request of type `cancel-tcpip-forward`,
    /// as defined in [RFC4254 section 7.1](https://datatracker.ietf.org/doc/html/rfc4254#section-7.1).
    CancelTcpipForward {
        /// Address that was bound on the remote.
        bind_address: Bytes<'b>,

        /// Port that was bound on the remote.
        bind_port: u32,
    },
}

impl<'b> GlobalRequestContext<'b> {
    /// Get the [`GlobalRequestContext`]'s SSH identifier.
    pub fn as_ascii(&self) -> (tag: StringAscii)
        ensures
            tag@ == self.tag(),
            is_ascii_chars(tag@),
            Self::known(tag@),
    {
        match self {
            GlobalRequestContext::TcpipForward { .. } => {
                proof {
                    reveal_strlit("tcpip-forward");
                }
                StringAscii::literal("tcpip-forward")
            },
            GlobalRequestContext::CancelTcpipForward { .. } => {
                proof {
                    reveal_strlit("cancel-tcpip-forward");
                }
                StringAscii::literal("cancel-tcpip-forward")
            },
        }
    }

    /// The tags of the shapes are ASCII texts, and no two of them are the
    /// same text.
    pub proof fn lemma_tags()
        ensures
            is_ascii_chars("tcpip-forward"@),
            "tcpip-forward"@.len() == 13,
            is_ascii_chars("cancel-tcpip-forward"@),
            "cancel-tcpip-forward"@.len() == 20,
            "tcpip-forward"@ != "cancel-tcpip-forward"@,
    {
        reveal_strlit("tcpip-forward");
        reveal_strlit("cancel-tcpip-forward");
        assert("tcpip-forward"@.len() != "cancel-tcpip-forward"@.len());
    }
}

impl<'b> Variant<'b> for GlobalRequestContext<'b> {
    open spec fn tag(&self) -> Seq<char> {
        match self {
            GlobalRequestContext::TcpipForward { .. } => "tcpip-forward"@,
            GlobalRequestContext::CancelTcpipForward { .. } => "cancel-tcpip-forward"@,
        }
    }

    open spec fn known(tag: Seq<char>) -> bool {
        ||| tag == "tcpip-forward"@
        ||| tag == "cancel-tcpip-forward"@
    }

    open spec fn payload(&self) -> Seq<u8> {
        match self {
            GlobalRequestContext::TcpipForward { bind_address, bind_port } => {
                (*bind_address, *bind_port).wire()
            },
            GlobalRequestContext::CancelTcpipForward { bind_address, bind_port } => {
                (*bind_address, *bind_port).wire()
            },
        }
    }

    open spec fn payload_fits(&self) -> bool {
        match self {
            GlobalRequestContext::TcpipForward { bind_address, bind_port } => {
                (*bind_address, *bind_port).fits()
            },
            GlobalRequestContext::CancelTcpipForward { bind_address, bind_port } => {
                (*bind_address, *bind_port).fits()
            },
        }
    }

    open spec fn payload_outcome(tag: Seq<char>, buf: Seq<u8>) -> Result<nat, ErrorKind> {
        if tag == "tcpip-forward"@ {
            <(Bytes<'b>, u32)>::outcome(buf)
        } else if tag == "cancel-tcpip-forward"@ {
            <(Bytes<'b>, u32)>::outcome(buf)
        } else {
            Err(ErrorKind::UnknownVariant)
        }
    }

    open spec fn payload_decoded_from(&self, buf: Seq<u8>) -> bool {
        match self {
            GlobalRequestContext::TcpipForward { bind_address, bind_port } => {
                (*bind_address, *bind_port).decoded_from(buf)
            },
            GlobalRequestContext::CancelTcpipForward { bind_address, bind_port } => {
                (*bind_address, *bind_port).decoded_from(buf)
            },
        }
    }

    open spec fn payload_sound(&self) -> bool {
        match self {
            GlobalRequestContext::TcpipForward { bind_address, bind_port } => {
                (*bind_address, *bind_port).sound()
            },
            GlobalRequestContext::CancelTcpipForward { bind_address, bind_port } => {
                (*bind_address, *bind_port).sound()
            },
        }
    }

    proof fn lemma_payload_reads_back(&self, rest: Seq<u8>) {
        Self::lemma_tags();
        match self {
            GlobalRequestContext::TcpipForward { bind_address, bind_port } => {
                (*bind_address, *bind_port).lemma_reads_back(rest);
            },
            GlobalRequestContext::CancelTcpipForward { bind_address, bind_port } => {
                (*bind_address, *bind_port).lemma_reads_back(rest);
            },
        }
    }

    fn tag_of(&self) -> (tag: StringAscii) {
        self.as_ascii()
    }

    fn encode_payload(&self, out: &mut Vec<u8>) -> (r: Result<(), Error>) {
        match self {
            GlobalRequestContext::TcpipForward { bind_address, bind_port } => {
                (bind_address, bind_port).encode(out)
            },
            GlobalRequestContext::CancelTcpipForward { bind_address, bind_port } => {
                (bind_address, bind_port).encode(out)
            },
        }
    }

    fn decode_payload(tag: &StringAscii, buf: &'b [u8]) -> (r: Result<(Self, usize), Error>) {
        let name = tag.as_str();
        if str_eq(name, "tcpip-forward") {
            let (fields, n) = <(Bytes<'b>, u32)>::decode(buf)?;
            let (bind_address, bind_port) = fields;
            Ok((GlobalRequestContext::TcpipForward { bind_address, bind_port }, n))
        } else if str_eq(name, "cancel-tcpip-forward") {
            let (fields, n) = <(Bytes<'b>, u32)>::decode(buf)?;
            let (bind_address, bind_port) = fields;
            Ok((GlobalRequestContext::CancelTcpipForward { bind_address, bind_port }, n))
        } else {
            Err(Error::UnknownVariant(slice_to_vec(tag.as_bytes())))
        }
    }
}

/// The `SSH_MSG_REQUEST_SUCCESS` message (empty body).
///
/// see <https://datatracker.ietf.org/doc/html/rfc4254#section-4>.
#[derive(Debug, Clone)]
pub struct RequestSuccess;

impl RequestSuccess {
    /// The number of the message.
    pub const NUMBER: u8 = 81;

    /// The fields of the message in the order in which they are sent.
    pub open spec fn fields(&self) -> () {
        ()
    }
}

impl Encode for RequestSuccess {
    open spec fn wire(&self) -> Seq<u8> {
        message_wire(81, self.fields().wire())
    }

    open spec fn fits(&self) -> bool {
        self.fields().fits()
    }

    fn encode(&self, out: &mut Vec<u8>) -> (r: Result<(), Error>) {
        encode_message(81, &(), out)
    }
}

impl<'b> Decode<'b> for RequestSuccess {
    open spec fn outcome(buf: Seq<u8>) -> Result<nat, ErrorKind> {
        message_outcome(81, buf, <()>::outcome(buf.skip(1)))
    }

    open spec fn decoded_from(&self, buf: Seq<u8>) -> bool {
        self.fields().decoded_from(buf.skip(1))
    }

    open spec fn sound(&self) -> bool {
        self.fields().sound()
    }

    fn decode(buf: &'b [u8]) -> (r: Result<(Self, usize), Error>) {
        let (fields, n) = decode_message::<()>(81, buf)?;
        Ok((RequestSuccess, n))
    }
}

impl<'b> Roundtrip<'b> for RequestSuccess {
    proof fn lemma_reads_back(&self, rest: Seq<u8>) {
        lemma_message_reads_back(81, self.fields(), rest);
    }
}

/// The `SSH_MSG_REQUEST_SUCCESS` message in the context of a `tcpip-forward` global request,
/// if the provided port was `0` and `want_reply` was set to [`true`] in the request.
///
/// see [RFC4254 section 7.1](https://datatracker.ietf.org/doc/html/rfc4254#section-7.1).
#[derive(Debug, Clone)]
pub struct ForwardingSuccess {
    /// Port that was bound on the remote.
    pub bound_port: u32,
}

impl ForwardingSuccess {
    /// The number of the message.
    pub const NUMBER: u8 = 81;

    /// The fields of the message in the order in which they are sent.
    pub open spec fn fields(&self) -> u32 {
        self.bound_port
    }
}

impl Encode for ForwardingSuccess {
    open spec fn wire(&self) -> Seq<u8> {
        message_wire(81, self.fields().wire())
    }

    open spec fn fits(&self) -> bool {
        self.fields().fits()
    }

    fn encode(&self, out: &mut Vec<u8>) -> (r: Result<(), Error>) {
        encode_message(81, &self.bound_port, out)
    }
}

impl<'b> Decode<'b> for ForwardingSuccess {
    open spec fn outcome(buf: Seq<u8>) -> Result<nat, ErrorKind> {
        message_outcome(81, buf, <u32>::outcome(buf.skip(1)))
    }

    open spec fn decoded_from(&self, buf: Seq<u8>) -> bool {
        self.fields().decoded_from(buf.skip(1))
    }

    open spec fn sound(&self) -> bool {
        self.fields().sound()
    }

    fn decode(buf: &'b [u8]) -> (r: Result<(Self, usize), Error>) {
        let (fields, n) = decode_message::<u32>(81, buf)?;
        let bound_port = fields;
        Ok((ForwardingSuccess { bound_port }, n))
    }
}

impl<'b> Roundtrip<'b> for ForwardingSuccess {
    proof fn lemma_reads_back(&self, rest: Seq<u8>) {
        lemma_message_reads_back(81, self.fields(), rest);
    }
}

/// The `SSH_MSG_REQUEST_FAILURE` message.
///
/// see <https://datatracker.ietf.org/doc/html/rfc4254#section-4>.
#[derive(Debug, Clone)]
pub struct RequestFailure;

impl RequestFailure {
    /// The number of the message.
    pub const NUMBER: u8 = 82;

    /// The fields of the message in the order in which they are sent.
    pub open spec fn fields(&self) -> () {
        ()
    }
}

impl Encode for RequestFailure {
    open spec fn wire(&self) -> Seq<u8> {
        message_wire(82, self.fields().wire())
    }

    open spec fn fits(&self) -> bool {
        self.fields().fits()
    }

    fn encode(&self, out: &mut Vec<u8>) -> (r: Result<(), Error>) {
        encode_message(82, &(), out)
    }
}

impl<'b> Decode<'b> for RequestFailure {
    open spec fn outcome(buf: Seq<u8>) -> Result<nat, ErrorKind> {
        message_outcome(82, buf, <()>::outcome(buf.skip(1)))
    }

    open spec fn decoded_from(&self, buf: Seq<u8>) -> bool {
        self.fields().decoded_from(buf.skip(1))
    }

    open spec fn sound(&self) -> bool {
        self.fields().sound()
    }

    fn decode(buf: &'b [u8]) -> (r: Result<(Self, usize), Error>) {
        let (fields, n) = decode_message::<()>(82, buf)?;
        Ok((RequestFailure, n))
    }
}

impl<'b> Roundtrip<'b> for RequestFailure {
    proof fn lemma_reads_back(&self, rest: Seq<u8>) {
        lemma_message_reads_back(82, self.fields(), rest);
    }
}

/// The `SSH_MSG_CHANNEL_OPEN` message.
///
/// see <https://datatracker.ietf.org/doc/html/rfc4254#section-5.1>.
#[derive(Debug, Clone)]
pub struct ChannelOpen {
    /// Sender channel.
    pub sender_channel: u32,

    /// Initial window size, in bytes.
    pub initial_window_size: u32,

    /// Maximum packet size, in bytes.
    pub maximum_packet_size: u32,

    /// The context of the open request.
    pub context: ChannelOpenContext,
}

impl ChannelOpen {
    /// The number of the message.
    pub const NUMBER: u8 = 90;
}

impl Encode for ChannelOpen {
    open spec fn wire(&self) -> Seq<u8> {
        message_wire(
            90,
            dispatch_wire(
                ().wire(),
                self.context.tag(),
                (self.sender_channel, (self.initial_window_size, self.maximum_packet_size)).wire(),
                self.context.payload(),
            ),
        )
    }

    open spec fn fits(&self) -> bool {
        dispatch_fits(
            (),
            (self.sender_channel, (self.initial_window_size, self.maximum_packet_size)),
            self.context,
        )
    }

    fn encode(&self, out: &mut Vec<u8>) -> (r: Result<(), Error>) {
        encode_tagged_message(
            90,
            &(),
            &(&self.sender_channel, (&self.initial_window_size, &self.maximum_packet_size)),
            &self.context,
            out,
        )
    }
}

impl<'b> Decode<'b> for ChannelOpen {
    open spec fn outcome(buf: Seq<u8>) -> Result<nat, ErrorKind> {
        message_outcome(
            90,
            buf,
            dispatch_outcome::<(), (u32, (u32, u32)), ChannelOpenContext>(buf.skip(1)),
        )
    }

    open spec fn decoded_from(&self, buf: Seq<u8>) -> bool {
        dispatch_decoded_from(
            (),
            (self.sender_channel, (self.initial_window_size, self.maximum_packet_size)),
            self.context,
            buf.skip(1),
        )
    }

    open spec fn sound(&self) -> bool {
        dispatch_sound(
            (),
            (self.sender_channel, (self.initial_window_size, self.maximum_packet_size)),
            self.context,
        )
    }

    fn decode(buf: &'b [u8]) -> (r: Result<(Self, usize), Error>) {
        let (
            (before, between, context),
            n,
        ) = decode_tagged_message::<(), (u32, (u32, u32)), ChannelOpenContext>(90, buf)?;
        let (sender_channel, (initial_window_size, maximum_packet_size)) = between;
        Ok((ChannelOpen { sender_channel, initial_window_size, maximum_packet_size, context }, n))
    }
}

impl<'b> Roundtrip<'b> for ChannelOpen {
    proof fn lemma_reads_back(&self, rest: Seq<u8>) {
        lemma_tagged_message_reads_back(
            90,
            (),
            (self.sender_channel, (self.initial_window_size, self.maximum_packet_size)),
            self.context,
            rest,
        );
    }
}

/// The `context` in the `SSH_MSG_CHANNEL_OPEN` message.
#[derive(Debug, Clone)]
pub enum ChannelOpenContext {
    /// A channel of type `session`,
    /// as defined in [RFC4254 section 6.1](https://datatracker.ietf.org/doc/html/rfc4254#section-6.1).
    Session,

    /// A channel of type `x11`,
    /// as defined in [RFC4254 section 6.3.2](https://datatracker.ietf.org/doc/html/rfc4254#section-6.3.2).
    X11 {
        /// Originator address.
        originator_address: StringAscii,

        /// Originator port.
        originator_port: u32,
    },

    /// A channel of type `forwarded-tcpip`,
    /// as defined in [RFC4254 section 7.2](https://datatracker.ietf.org/doc/html/rfc4254#section-7.2).
    ForwardedTcpip {
        /// Address that was connected on the remote.
        address: StringAscii,

        /// Port that was connected on the remote.
        port: u32,

        /// Originator address.
        originator_address: StringAscii,

        /// Originator port.
        originator_port: u32,
    },

    /// A channel of type `direct-tcpip`,
    /// as defined in [RFC4254 section 7.2](https://datatracker.ietf.org/doc/html/rfc4254#section-7.2).
    DirectTcpip {
        /// Address to connect to.
        address: StringAscii,

        /// Port to connect to.
        port: u32,

        /// Originator address.
        originator_address: StringAscii,

        /// Originator port.
        originator_port: u32,
    },
}

impl ChannelOpenContext {
    /// Get the [`ChannelOpenContext`]'s SSH identifier.
    pub fn as_ascii(&self) -> (tag: StringAscii)
        ensures
            tag@ == self.tag(),
            is_ascii_chars(tag@),
            Self::known(tag@),
    {
        match self {
            ChannelOpenContext::Session { .. } => {
                proof {
                    reveal_strlit("session");
                }
                StringAscii::literal("session")
            },
            ChannelOpenContext::X11 { .. } => {
                proof {
                    reveal_strlit("x11");
                }
                StringAscii::literal("x11")
            },
            ChannelOpenContext::ForwardedTcpip { .. } => {
                proof {
                    reveal_strlit("forwarded-tcpip");
                }
                StringAscii::literal("forwarded-tcpip")
            },
            ChannelOpenContext::DirectTcpip { .. } => {
                proof {
                    reveal_strlit("direct-tcpip");
                }
                StringAscii::literal("direct-tcpip")
            },
        }
    }

    /// The tags of the shapes are ASCII texts, and no two of them are the
    /// same text.
    pub proof fn lemma_tags()
        ensures
            is_ascii_chars("session"@),
            "session"@.len() == 7,
            is_ascii_chars("x11"@),
            "x11"@.len() == 3,
            is_ascii_chars("forwarded-tcpip"@),
            "forwarded-tcpip"@.len() == 15,
            is_ascii_chars("direct-tcpip"@),
            "direct-tcpip"@.len() == 12,
            "session"@ != "x11"@,
            "session"@ != "forwarded-tcpip"@,
            "x11"@ != "forwarded-tcpip"@,
            "session"@ != "direct-tcpip"@,
            "x11"@ != "direct-tcpip"@,
            "forwarded-tcpip"@ != "direct-tcpip"@,
    {
        reveal_strlit("session");
        reveal_strlit("x11");
        reveal_strlit("forwarded-tcpip");
        reveal_strlit("direct-tcpip");
        assert("session"@.len() != "x11"@.len());
        assert("session"@.len() != "forwarded-tcpip"@.len());
        assert("x11"@.len() != "forwarded-tcpip"@.len());
        assert("session"@.len() != "direct-tcpip"@.len());
        assert("x11"@.len() != "direct-tcpip"@.len());
        assert("forwarded-tcpip"@.len() != "direct-tcpip"@.len());
    }
}

impl<'b> Variant<'b> for ChannelOpenContext {
    open spec fn tag(&self) -> Seq<char> {
        match self {
            ChannelOpenContext::Session { .. } => "session"@,
            ChannelOpenContext::X11 { .. } => "x11"@,
            ChannelOpenContext::ForwardedTcpip { .. } => "forwarded-tcpip"@,
            ChannelOpenContext::DirectTcpip { .. } => "direct-tcpip"@,
        }
    }

    open spec fn known(tag: Seq<char>) -> bool {
        ||| tag == "session"@
        ||| tag == "x11"@
        ||| tag == "forwarded-tcpip"@
        ||| tag == "direct-tcpip"@
    }

    open spec fn payload(&self) -> Seq<u8> {
        match self {
            ChannelOpenContext::Session => ().wire(),
            ChannelOpenContext::X11 { originator_address, originator_port } => {
                (*originator_address, *originator_port).wire()
            },
            ChannelOpenContext::ForwardedTcpip {
                address,
                port,
                originator_address,
                originator_port,
            } => {
                (*address, (*port, (*originator_address, *originator_port))).wire()
            },
            ChannelOpenContext::DirectTcpip {
                address,
                port,
                originator_address,
                originator_port,
            } => {
                (*address, (*port, (*originator_address, *originator_port))).wire()
            },
        }
    }

    open spec fn payload_fits(&self) -> bool {
        match self {
            ChannelOpenContext::Session => ().fits(),
            ChannelOpenContext::X11 { originator_address, originator_port } => {
                (*originator_address, *originator_port).fits()
            },
            ChannelOpenContext::ForwardedTcpip {
                address,
                port,
                originator_address,
                originator_port,
            } => {
                (*address, (*port, (*originator_address, *originator_port))).fits()
            },
            ChannelOpenContext::DirectTcpip {
                address,
                port,
                originator_address,
                originator_port,
            } => {
                (*address, (*port, (*originator_address, *originator_port))).fits()
            },
        }
    }

    open spec fn payload_outcome(tag: Seq<char>, buf: Seq<u8>) -> Result<nat, ErrorKind> {
        if tag == "session"@ {
            <()>::outcome(buf)
        } else if tag == "x11"@ {
            <(StringAscii, u32)>::outcome(buf)
        } else if tag == "forwarded-tcpip"@ {
            <(StringAscii, (u32, (StringAscii, u32)))>::outcome(buf)
        } else if tag == "direct-tcpip"@ {
            <(StringAscii, (u32, (StringAscii, u32)))>::outcome(buf)
        } else {
            Err(ErrorKind::UnknownVariant)
        }
    }

    open spec fn payload_decoded_from(&self, buf: Seq<u8>) -> bool {
        match self {
            ChannelOpenContext::Session => ().decoded_from(buf),
            ChannelOpenContext::X11 { originator_address, originator_port } => {
                (*originator_address, *originator_port).decoded_from(buf)
            },
            ChannelOpenContext::ForwardedTcpip {
                address,
                port,
                originator_address,
                originator_port,
            } => {
                (*address, (*port, (*originator_address, *originator_port))).decoded_from(buf)
            },
            ChannelOpenContext::DirectTcpip {
                address,
                port,
                originator_address,
                originator_port,
            } => {
                (*address, (*port, (*originator_address, *originator_port))).decoded_from(buf)
            },
        }
    }

    open spec fn payload_sound(&self) -> bool {
        match self {
            ChannelOpenContext::Session => ().sound(),
            ChannelOpenContext::X11 { originator_address, originator_port } => {
                (*originator_address, *originator_port).sound()
            },
            ChannelOpenContext::ForwardedTcpip {
                address,
                port,
                originator_address,
                originator_port,
            } => {
                (*address, (*port, (*originator_address, *originator_port))).sound()
            },
            ChannelOpenContext::DirectTcpip {
                address,
                port,
                originator_address,
                originator_port,
            } => {
                (*address, (*port, (*originator_address, *originator_port))).sound()
            },
        }
    }

    proof fn lemma_payload_reads_back(&self, rest: Seq<u8>) {
        Self::lemma_tags();
        match self {
            ChannelOpenContext::Session => {
                ().lemma_reads_back(rest);
            },
            ChannelOpenContext::X11 { originator_address, originator_port } => {
                (*originator_address, *originator_port).lemma_reads_back(rest);
            },
            ChannelOpenContext::ForwardedTcpip {
                address,
                port,
                originator_address,
                originator_port,
            } => {
                (*address, (*port, (*originator_address, *originator_port))).lemma_reads_back(rest);
            },
            ChannelOpenContext::DirectTcpip {
                address,
                port,
                originator_address,
                originator_port,
            } => {
                (*address, (*port, (*originator_address, *originator_port))).lemma_reads_back(rest);
            },
        }
    }

    fn tag_of(&self) -> (tag: StringAscii) {
        self.as_ascii()
    }

    fn encode_payload(&self, out: &mut Vec<u8>) -> (r: Result<(), Error>) {
        match self {
            ChannelOpenContext::Session => ().encode(out),
            ChannelOpenContext::X11 { originator_address, originator_port } => {
                (originator_address, originator_port).encode(out)
            },
            ChannelOpenContext::ForwardedTcpip {
                address,
                port,
                originator_address,
                originator_port,
            } => {
                (address, (port, (originator_address, originator_port))).encode(out)
            },
            ChannelOpenContext::DirectTcpip {
                address,
                port,
                originator_address,
                originator_port,
            } => {
                (address, (port, (originator_address, originator_port))).encode(out)
            },
        }
    }

    fn decode_payload(tag: &StringAscii, buf: &'b [u8]) -> (r: Result<(Self, usize), Error>) {
        let name = tag.as_str();
        if str_eq(name, "session") {
            let n: usize = 0;
            Ok((ChannelOpenContext::Session, n))
        } else if str_eq(name, "x11") {
            let (fields, n) = <(StringAscii, u32)>::decode(buf)?;
            let (originator_address, originator_port) = fields;
            Ok((ChannelOpenContext::X11 { originator_address, originator_port }, n))
        } else if str_eq(name, "forwarded-tcpip") {
            let (fields, n) = <(StringAscii, (u32, (StringAscii, u32)))>::decode(buf)?;
            let (address, (port, (originator_address, originator_port))) = fields;
            Ok((
                ChannelOpenContext::ForwardedTcpip {
                    address,
                    port,
                    originator_address,
                    originator_port,
                },
                n,
            ))
        } else if str_eq(name, "direct-tcpip") {
            let (fields, n) = <(StringAscii, (u32, (StringAscii, u32)))>::decode(buf)?;
            let (address, (port, (originator_address, originator_port))) = fields;
            Ok((
                ChannelOpenContext::DirectTcpip {
                    address,
                    port,
                    originator_address,
                    originator_port,
                },
                n,
            ))
        } else {
            Err(Error::UnknownVariant(slice_to_vec(tag.as_bytes())))
        }
    }
}

/// The `SSH_MSG_CHANNEL_OPEN_CONFIRMATION` message.
///
/// see <https://datatracker.ietf.org/doc/html/rfc4254#section-5.1>.
#[derive(Debug, Clone)]
pub struct ChannelOpenConfirmation {
    /// Recipient channel.
    pub recipient_channel: u32,

    /// Sender channel.
    pub sender_channel: u32,

    /// Initial window size, in bytes.
    pub initial_window_size: u32,

    /// Maximum packet size, in bytes.
    pub maximum_packet_size: u32,
}

impl ChannelOpenConfirmation {
    /// The number of the message.
    pub const NUMBER: u8 = 91;

    /// The fields of the message in the order in which they are sent.
    pub open spec fn fields(&self) -> (u32, (u32, (u32, u32))) {
        (
            self.recipient_channel,
            (self.sender_channel, (self.initial_window_size, self.maximum_packet_size)),
        )
    }
}

impl Encode for ChannelOpenConfirmation {
    open spec fn wire(&self) -> Seq<u8> {
        message_wire(91, self.fields().wire())
    }

    open spec fn fits(&self) -> bool {
        self.fields().fits()
    }

    fn encode(&self, out: &mut Vec<u8>) -> (r: Result<(), Error>) {
        encode_message(
            91,
            &(
                &self.recipient_channel,
                (&self.sender_channel, (&self.initial_window_size, &self.maximum_packet_size)),
            ),
            out,
        )
    }
}

impl<'b> Decode<'b> for ChannelOpenConfirmation {
    open spec fn outcome(buf: Seq<u8>) -> Result<nat, ErrorKind> {
        message_outcome(91, buf, <(u32, (u32, (u32, u32)))>::outcome(buf.skip(1)))
    }

    open spec fn decoded_from(&self, buf: Seq<u8>) -> bool {
        self.fields().decoded_from(buf.skip(1))
    }

    open spec fn sound(&self) -> bool {
        self.fields().sound()
    }

    fn decode(buf: &'b [u8]) -> (r: Result<(Self, usize), Error>) {
        let (fields, n) = decode_message::<(u32, (u32, (u32, u32)))>(91, buf)?;
        let (
            recipient_channel,
            (sender_channel, (initial_window_size, maximum_packet_size)),
        ) = fields;
        Ok((
            ChannelOpenConfirmation {
                recipient_channel,
                sender_channel,
                initial_window_size,
                maximum_packet_size,
            },
            n,
        ))
    }
}

impl<'b> Roundtrip<'b> for ChannelOpenConfirmation {
    proof fn lemma_reads_back(&self, rest: Seq<u8>) {
        lemma_message_reads_back(91, self.fields(), rest);
    }
}

/// The `SSH_MSG_CHANNEL_OPEN_FAILURE` message.
///
/// see <https://datatracker.ietf.org/doc/html/rfc4254#section-5.1>.
#[derive(Debug, Clone)]
pub struct ChannelOpenFailure {
    /// Recipient channel.
    pub recipient_channel: u32,

    /// Reason for the channel opening failure.
    pub reason: ChannelOpenFailureReason,

    /// Description of the reason.
    pub description: StringUtf8,

    /// Language tag.
    pub language: StringAscii,
}

impl ChannelOpenFailure {
    /// The number of the message.
    pub const NUMBER: u8 = 92;

    /// The fields of the message in the order in which they are sent.
    pub open spec fn fields(&self) -> (u32, (ChannelOpenFailureReason, (StringUtf8, StringAscii))) {
        (self.recipient_channel, (self.reason, (self.description, self.language)))
    }
}

impl Encode for ChannelOpenFailure {
    open spec fn wire(&self) -> Seq<u8> {
        message_wire(92, self.fields().wire())
    }

    open spec fn fits(&self) -> bool {
        self.fields().fits()
    }

    fn encode(&self, out: &mut Vec<u8>) -> (r: Result<(), Error>) {
        encode_message(
            92,
            &(&self.recipient_channel, (&self.reason, (&self.description, &self.language))),
            out,
        )
    }
}

impl<'b> Decode<'b> for ChannelOpenFailure {
    open spec fn outcome(buf: Seq<u8>) -> Result<nat, ErrorKind> {
        message_outcome(
            92,
            buf,
            <(u32, (ChannelOpenFailureReason, (StringUtf8, StringAscii)))>::outcome(buf.skip(1)),
        )
    }

    open spec fn decoded_from(&self, buf: Seq<u8>) -> bool {
        self.fields().decoded_from(buf.skip(1))
    }

    open spec fn sound(&self) -> bool {
        self.fields().sound()
    }

    fn decode(buf: &'b [u8]) -> (r: Result<(Self, usize), Error>) {
        let (fields, n) = decode_message::<(
            u32,
            (ChannelOpenFailureReason, (StringUtf8, StringAscii)),
        )>(92, buf)?;
        let (recipient_channel, (reason, (description, language))) = fields;
        Ok((ChannelOpenFailure { recipient_channel, reason, description, language }, n))
    }
}

impl<'b> Roundtrip<'b> for ChannelOpenFailure {
    proof fn lemma_reads_back(&self, rest: Seq<u8>) {
        lemma_message_reads_back(92, self.fields(), rest);
    }
}

/// The `reason` for failure in the `SSH_MSG_CHANNEL_OPEN_FAILURE` message.
#[derive(Debug, Clone, Copy, PartialEq, Eq, Structural)]
pub enum ChannelOpenFailureReason {
    /// `SSH_OPEN_ADMINISTRATIVELY_PROHIBITED`.
    AdministrativelyProhibited,

    /// `SSH_OPEN_CONNECT_FAILED`.
    ConnectFailed,

    /// `SSH_OPEN_UNKNOWN_CHANNEL_TYPE`.
    UnknownChannelType,

    /// `SSH_OPEN_RESOURCE_SHORTAGE`.
    ResourceShortage,

    /// Any other failure reason, may be non-standard.
    ///
    /// The 'reason' values in the range of `0xFE000000`
    /// through `0xFFFFFFFF` are reserved for PRIVATE USE.
    Other(u32),
}

impl ChannelOpenFailureReason {
    /// The number that stands for this reason on the wire.
    pub open spec fn code(&self) -> u32 {
        match self {
            ChannelOpenFailureReason::AdministrativelyProhibited => 1,
            ChannelOpenFailureReason::ConnectFailed => 2,
            ChannelOpenFailureReason::UnknownChannelType => 3,
            ChannelOpenFailureReason::ResourceShortage => 4,
            ChannelOpenFailureReason::Other(code) => *code,
        }
    }

    /// The reason that a number stands for.
    pub open spec fn of_code(code: u32) -> Self {
        if code == 1 {
            ChannelOpenFailureReason::AdministrativelyProhibited
        } else if code == 2 {
            ChannelOpenFailureReason::ConnectFailed
        } else if code == 3 {
            ChannelOpenFailureReason::UnknownChannelType
        } else if code == 4 {
            ChannelOpenFailureReason::ResourceShortage
        } else {
            ChannelOpenFailureReason::Other(code)
        }
    }

    /// Whether this value is the reason that its own number stands for.
    /// A number that has a name is not written as `Other`.
    pub open spec fn wf(&self) -> bool {
        Self::of_code(self.code()) == *self
    }

    /// The number that stands for this reason on the wire.
    pub fn to_code(&self) -> (code: u32)
        ensures
            code == self.code(),
    {
        match self {
            ChannelOpenFailureReason::AdministrativelyProhibited => 1,
            ChannelOpenFailureReason::ConnectFailed => 2,
            ChannelOpenFailureReason::UnknownChannelType => 3,
            ChannelOpenFailureReason::ResourceShortage => 4,
            ChannelOpenFailureReason::Other(code) => *code,
        }
    }

    /// The reason that a number stands for.
    pub fn from_code(code: u32) -> (reason: Self)
        ensures
            reason == Self::of_code(code),
            reason.wf(),
    {
        if code == 1 {
            ChannelOpenFailureReason::AdministrativelyProhibited
        } else if code == 2 {
            ChannelOpenFailureReason::ConnectFailed
        } else if code == 3 {
            ChannelOpenFailureReason::UnknownChannelType
        } else if code == 4 {
            ChannelOpenFailureReason::ResourceShortage
        } else {
            ChannelOpenFailureReason::Other(code)
        }
    }
}

impl Encode for ChannelOpenFailureReason {
    open spec fn wire(&self) -> Seq<u8> {
        be32(self.code())
    }

    open spec fn fits(&self) -> bool {
        true
    }

    fn encode(&self, out: &mut Vec<u8>) -> (r: Result<(), Error>) {
        self.to_code().encode(out)
    }
}

impl<'b> Decode<'b> for ChannelOpenFailureReason {
    open spec fn outcome(buf: Seq<u8>) -> Result<nat, ErrorKind> {
        u32_outcome(buf)
    }

    open spec fn decoded_from(&self, buf: Seq<u8>) -> bool {
        *self == Self::of_code(from_be32(buf))
    }

    /// A number that has a name is not written as `Other`.
    open spec fn sound(&self) -> bool {
        self.wf()
    }

    fn decode(buf: &'b [u8]) -> (r: Result<(Self, usize), Error>) {
        let (code, n) = u32::decode(buf)?;
        Ok((Self::from_code(code), n))
    }
}

impl<'b> Roundtrip<'b> for ChannelOpenFailureReason {
    proof fn lemma_reads_back(&self, rest: Seq<u8>) {
        lemma_be32_roundtrip(self.code(), rest);
    }
}

/// The `SSH_MSG_CHANNEL_WINDOW_ADJUST` message.
///
/// see <https://datatracker.ietf.org/doc/html/rfc4254#section-5.2>.
#[derive(Debug, Clone)]
pub struct ChannelWindowAdjust {
    /// Recipient channel.
    pub recipient_channel: u32,

    /// Bytes to add to the window.
    pub bytes_to_add: u32,
}

impl ChannelWindowAdjust {
    /// The number of the message.
    pub const NUMBER: u8 = 93;

    /// The fields of the message in the order in which they are sent.
    pub open spec fn fields(&self) -> (u32, u32) {
        (self.recipient_channel, self.bytes_to_add)
    }
}

impl Encode for ChannelWindowAdjust {
    open spec fn wire(&self) -> Seq<u8> {
        message_wire(93, self.fields().wire())
    }

    open spec fn fits(&self) -> bool {
        self.fields().fits()
    }

    fn encode(&self, out: &mut Vec<u8>) -> (r: Result<(), Error>) {
        encode_message(93, &(&self.recipient_channel, &self.bytes_to_add), out)
    }
}

impl<'b> Decode<'b> for ChannelWindowAdjust {
    open spec fn outcome(buf: Seq<u8>) -> Result<nat, ErrorKind> {
        message_outcome(93, buf, <(u32, u32)>::outcome(buf.skip(1)))
    }

    open spec fn decoded_from(&self, buf: Seq<u8>) -> bool {
        self.fields().decoded_from(buf.skip(1))
    }

    open spec fn sound(&self) -> bool {
        self.fields().sound()
    }

    fn decode(buf: &'b [u8]) -> (r: Result<(Self, usize), Error>) {
        let (fields, n) = decode_message::<(u32, u32)>(93, buf)?;
        let (recipient_channel, bytes_to_add) = fields;
        Ok((ChannelWindowAdjust { recipient_channel, bytes_to_add }, n))
    }
}

impl<'b> Roundtrip<'b> for ChannelWindowAdjust {
    proof fn lemma_reads_back(&self, rest: Seq<u8>) {
        lemma_message_reads_back(93, self.fields(), rest);
    }
}

/// The `SSH_MSG_CHANNEL_DATA` message.
///
/// see <https://datatracker.ietf.org/doc/html/rfc4254#section-5.2>.
#[derive(Debug, Clone)]
pub struct ChannelData<'b> {
    /// Recipient channel.
    pub recipient_channel: u32,

    /// Data bytes to transport.
    pub data: Bytes<'b>,
}

impl<'b> ChannelData<'b> {
    /// The number of the message.
    pub const NUMBER: u8 = 94;

    /// The fields of the message in the order in which they are sent.
    pub open spec fn fields(&self) -> (u32, Bytes<'b>) {
        (self.recipient_channel, self.data)
    }
}

impl<'b> Encode for ChannelData<'b> {
    open spec fn wire(&self) -> Seq<u8> {
        message_wire(94, self.fields().wire())
    }

    open spec fn fits(&self) -> bool {
        self.fields().fits()
    }

    fn encode(&self, out: &mut Vec<u8>) -> (r: Result<(), Error>) {
        encode_message(94, &(&self.recipient_channel, &self.data), out)
    }
}

impl<'b> Decode<'b> for ChannelData<'b> {
    open spec fn outcome(buf: Seq<u8>) -> Result<nat, ErrorKind> {
        message_outcome(94, buf, <(u32, Bytes<'b>)>::outcome(buf.skip(1)))
    }

    open spec fn decoded_from(&self, buf: Seq<u8>) -> bool {
        self.fields().decoded_from(buf.skip(1))
    }

    open spec fn sound(&self) -> bool {
        self.fields().sound()
    }

    fn decode(buf: &'b [u8]) -> (r: Result<(Self, usize), Error>) {
        let (fields, n) = decode_message::<(u32, Bytes<'b>)>(94, buf)?;
        let (recipient_channel, data) = fields;
        Ok((ChannelData { recipient_channel, data }, n))
    }
}

impl<'b> Roundtrip<'b> for ChannelData<'b> {
    proof fn lemma_reads_back(&self, rest: Seq<u8>) {
        lemma_message_reads_back(94, self.fields(), rest);
    }
}

/// The type of the data in an `SSH_MSG_CHANNEL_EXTENDED_DATA` message: a
/// number that is not zero.
#[derive(Debug, Clone, Copy, PartialEq, Eq)]
pub struct DataType {
    code: u32,
}

impl View for DataType {
    type V = u32;

    closed spec fn view(&self) -> u32 {
        self.code
    }
}

impl DataType {
    #[verifier::type_invariant]
    spec fn not_zero(&self) -> bool {
        self.code != 0
    }

    /// The type of data sent to the standard error stream.
    pub fn stderr() -> (t: Self)
        ensures
            t@ == 1,
    {
        DataType { code: 1 }
    }

    /// The type with the number `code`, if `code` is not zero.
    pub fn new(code: u32) -> (t: Option<Self>)
        ensures
            code != 0 ==> t is Some && t->Some_0@ == code,
            code == 0 ==> t is None,
    {
        if code == 0 {
            None
        } else {
            Some(DataType { code })
        }
    }

    /// The number of the type, which is not zero.
    pub fn get(&self) -> (code: u32)
        ensures
            code == self@,
            code != 0,
    {
        proof {
            use_type_invariant(self);
        }
        self.code
    }
}

impl Encode for DataType {
    open spec fn wire(&self) -> Seq<u8> {
        be32(self@)
    }

    open spec fn fits(&self) -> bool {
        true
    }

    fn encode(&self, out: &mut Vec<u8>) -> (r: Result<(), Error>) {
        self.get().encode(out)
    }
}

impl<'b> Decode<'b> for DataType {
    open spec fn outcome(buf: Seq<u8>) -> Result<nat, ErrorKind> {
        if buf.len() < 4 {
            Err(ErrorKind::TruncatedInput)
        } else if from_be32(buf) == 0 {
            Err(ErrorKind::ConstraintViolation)
        } else {
            Ok(4)
        }
    }

    open spec fn decoded_from(&self, buf: Seq<u8>) -> bool {
        self@ == from_be32(buf)
    }

    /// The number is not zero.
    open spec fn sound(&self) -> bool {
        self@ != 0
    }

    fn decode(buf: &'b [u8]) -> (r: Result<(Self, usize), Error>) {
        let (code, n) = u32::decode(buf)?;
        match DataType::new(code) {
            Some(t) => Ok((t, n)),
            None => Err(Error::ConstraintViolation),
        }
    }
}

impl<'b> Roundtrip<'b> for DataType {
    proof fn lemma_reads_back(&self, rest: Seq<u8>) {
        lemma_be32_roundtrip(self@, rest);
    }
}

/// The `SSH_MSG_CHANNEL_EXTENDED_DATA` message.
///
/// see <https://datatracker.ietf.org/doc/html/rfc4254#section-5.2>.
#[derive(Debug, Clone)]
pub struct ChannelExtendedData<'b> {
    /// Recipient channel.
    pub recipient_channel: u32,

    /// Type of the transmitted data, the value `1` is reserved for **stderr**.
    pub data_type: DataType,

    /// Data bytes to transport.
    pub data: Bytes<'b>,
}

impl<'b> ChannelExtendedData<'b> {
    /// The number of the message.
    pub const NUMBER: u8 = 95;

    /// The fields of the message in the order in which they are sent.
    pub open spec fn fields(&self) -> (u32, (DataType, Bytes<'b>)) {
        (self.recipient_channel, (self.data_type, self.data))
    }
}

impl<'b> Encode for ChannelExtendedData<'b> {
    open spec fn wire(&self) -> Seq<u8> {
        message_wire(95, self.fields().wire())
    }

    open spec fn fits(&self) -> bool {
        self.fields().fits()
    }

    fn encode(&self, out: &mut Vec<u8>) -> (r: Result<(), Error>) {
        encode_message(95, &(&self.recipient_channel, (&self.data_type, &self.data)), out)
    }
}

impl<'b> Decode<'b> for ChannelExtendedData<'b> {
    open spec fn outcome(buf: Seq<u8>) -> Result<nat, ErrorKind> {
        message_outcome(95, buf, <(u32, (DataType, Bytes<'b>))>::outcome(buf.skip(1)))
    }

    open spec fn decoded_from(&self, buf: Seq<u8>) -> bool {
        self.fields().decoded_from(buf.skip(1))
    }

    open spec fn sound(&self) -> bool {
        self.fields().sound()
    }

    fn decode(buf: &'b [u8]) -> (r: Result<(Self, usize), Error>) {
        let (fields, n) = decode_message::<(u32, (DataType, Bytes<'b>))>(95, buf)?;
        let (recipient_channel, (data_type, data)) = fields;
        Ok((ChannelExtendedData { recipient_channel, data_type, data }, n))
    }
}

impl<'b> Roundtrip<'b> for ChannelExtendedData<'b> {
    proof fn lemma_reads_back(&self, rest: Seq<u8>) {
        lemma_message_reads_back(95, self.fields(), rest);
    }
}

/// The `SSH_MSG_CHANNEL_EOF` message.
///
/// see <https://datatracker.ietf.org/doc/html/rfc4254#section-5.3>.
#[derive(Debug, Clone)]
pub struct ChannelEof {
    /// Recipient channel.
    pub recipient_channel: u32,
}

impl ChannelEof {
    /// The number of the message.
    pub const NUMBER: u8 = 96;

    /// The fields of the message in the order in which they are sent.
    pub open spec fn fields(&self) -> u32 {
        self.recipient_channel
    }
}

impl Encode for ChannelEof {
    open spec fn wire(&self) -> Seq<u8> {
        message_wire(96, self.fields().wire())
    }

    open spec fn fits(&self) -> bool {
        self.fields().fits()
    }

    fn encode(&self, out: &mut Vec<u8>) -> (r: Result<(), Error>) {
        encode_message(96, &self.recipient_channel, out)
    }
}

impl<'b> Decode<'b> for ChannelEof {
    open spec fn outcome(buf: Seq<u8>) -> Result<nat, ErrorKind> {
        message_outcome(96, buf, <u32>::outcome(buf.skip(1)))
    }

    open spec fn decoded_from(&self, buf: Seq<u8>) -> bool {
        self.fields().decoded_from(buf.skip(1))
    }

    open spec fn sound(&self) -> bool {
        self.fields().sound()
    }

    fn decode(buf: &'b [u8]) -> (r: Result<(Self, usize), Error>) {
        let (fields, n) = decode_message::<u32>(96, buf)?;
        let recipient_channel = fields;
        Ok((ChannelEof { recipient_channel }, n))
    }
}

impl<'b> Roundtrip<'b> for ChannelEof {
    proof fn lemma_reads_back(&self, rest: Seq<u8>) {
        lemma_message_reads_back(96, self.fields(), rest);
    }
}

/// The `SSH_MSG_CHANNEL_CLOSE` message.
///
/// see <https://datatracker.ietf.org/doc/html/rfc4254#section-5.3>.
#[derive(Debug, Clone)]
pub struct ChannelClose {
    /// Recipient channel.
    pub recipient_channel: u32,
}

impl ChannelClose {
    /// The number of the message.
    pub const NUMBER: u8 = 97;

    /// The fields of the message in the order in which they are sent.
    pub open spec fn fields(&self) -> u32 {
        self.recipient_channel
    }
}

impl Encode for ChannelClose {
    open spec fn wire(&self) -> Seq<u8> {
        message_wire(97, self.fields().wire())
    }

    open spec fn fits(&self) -> bool {
        self.fields().fits()
    }

    fn encode(&self, out: &mut Vec<u8>) -> (r: Result<(), Error>) {
        encode_message(97, &self.recipient_channel, out)
    }
}

impl<'b> Decode<'b> for ChannelClose {
    open spec fn outcome(buf: Seq<u8>) -> Result<nat, ErrorKind> {
        message_outcome(97, buf, <u32>::outcome(buf.skip(1)))
    }

    open spec fn decoded_from(&self, buf: Seq<u8>) -> bool {
        self.fields().decoded_from(buf.skip(1))
    }

    open spec fn sound(&self) -> bool {
        self.fields().sound()
    }

    fn decode(buf: &'b [u8]) -> (r: Result<(Self, usize), Error>) {
        let (fields, n) = decode_message::<u32>(97, buf)?;
        let recipient_channel = fields;
        Ok((ChannelClose { recipient_channel }, n))
    }
}

impl<'b> Roundtrip<'b> for ChannelClose {
    proof fn lemma_reads_back(&self, rest: Seq<u8>) {
        lemma_message_reads_back(97, self.fields(), rest);
    }
}

/// The `SSH_MSG_CHANNEL_REQUEST` message.
///
/// see <https://datatracker.ietf.org/doc/html/rfc4254#section-5.4>.
#[derive(Debug, Clone)]
pub struct ChannelRequest<'b> {
    /// Recipient channel.
    pub recipient_channel: u32,

    /// Whether the sender wants a reply.
    pub want_reply: Bool,

    /// The context of the channel request.
    pub context: ChannelRequestContext<'b>,
}

impl<'b> ChannelRequest<'b> {
    /// The number of the message.
    pub const NUMBER: u8 = 98;
}

impl<'b> Encode for ChannelRequest<'b> {
    open spec fn wire(&self) -> Seq<u8> {
        message_wire(
            98,
            dispatch_wire(
                self.recipient_channel.wire(),
                self.context.tag(),
                self.want_reply.wire(),
                self.context.payload(),
            ),
        )
    }

    open spec fn fits(&self) -> bool {
        dispatch_fits(self.recipient_channel, self.want_reply, self.context)
    }

    fn encode(&self, out: &mut Vec<u8>) -> (r: Result<(), Error>) {
        encode_tagged_message(98, &self.recipient_channel, &self.want_reply, &self.context, out)
    }
}

impl<'b> Decode<'b> for ChannelRequest<'b> {
    open spec fn outcome(buf: Seq<u8>) -> Result<nat, ErrorKind> {
        message_outcome(
            98,
            buf,
            dispatch_outcome::<u32, Bool, ChannelRequestContext<'b>>(buf.skip(1)),
        )
    }

    open spec fn decoded_from(&self, buf: Seq<u8>) -> bool {
        dispatch_decoded_from(self.recipient_channel, self.want_reply, self.context, buf.skip(1))
    }

    open spec fn sound(&self) -> bool {
        dispatch_sound(self.recipient_channel, self.want_reply, self.context)
    }

    fn decode(buf: &'b [u8]) -> (r: Result<(Self, usize), Error>) {
        let (
            (before, between, context),
            n,
        ) = decode_tagged_message::<u32, Bool, ChannelRequestContext<'b>>(98, buf)?;
        let recipient_channel = before;
        let want_reply = between;
        Ok((ChannelRequest { recipient_channel, want_reply, context }, n))
    }
}

impl<'b> Roundtrip<'b> for ChannelRequest<'b> {
    proof fn lemma_reads_back(&self, rest: Seq<u8>) {
        lemma_tagged_message_reads_back(
            98,
            self.recipient_channel,
            self.want_reply,
            self.context,
            rest,
        );
    }
}

/// The `context` in the `SSH_MSG_CHANNEL_REQUEST` message.
#[derive(Debug, Clone)]
pub enum ChannelRequestContext<'b> {
    /// A request of type `pty-req`,
    /// as defined in [RFC4254 section 6.2](https://datatracker.ietf.org/doc/html/rfc4254#section-6.2).
    Pty {
        /// Peer's `$TERM` environment variable value.
        term: Bytes<'b>,

        /// Terminal width, in columns.
        width_chars: u32,

        /// Terminal height, in rows.
        height_chars: u32,

        /// Terminal width, in pixels.
        width_pixels: u32,

        /// Terminal height, in pixels.
        height_pixels: u32,

        /// Encoded terminal modes.
        modes: Bytes<'b>,
    },

    /// A request of type `x11-req`,
    /// as defined in [RFC4254 section 6.3](https://datatracker.ietf.org/doc/html/rfc4254#section-6.3).
    X11 {
        /// Whether only a single connection should be forwarded.
        single_connection: Bool,

        /// X11 authentication protocol.
        x11_authentication_protocol: Bytes<'b>,

        /// X11 authentication cookie.
        x11_authentication_cookie: Bytes<'b>,

        /// X11 screen number.
        x11_screen_number: u32,
    },

    /// A request of type `env`,
    /// as defined in [RFC4254 section 6.4](https://datatracker.ietf.org/doc/html/rfc4254#section-6.4).
    Env {
        /// Environment variable name.
        name: Bytes<'b>,

        /// Environment variable value.
        value: Bytes<'b>,
    },

    /// A request of type `shell`,
    /// as defined in [RFC4254 section 6.5](https://datatracker.ietf.org/doc/html/rfc4254#section-6.5).
    Shell,

    /// A request of type `exec`,
    /// as defined in [RFC4254 section 6.5](https://datatracker.ietf.org/doc/html/rfc4254#section-6.5).
    Exec {
        /// Command to be executed.
        command: Bytes<'b>,
    },

    /// A request of type `subsystem`,
    /// as defined in [RFC4254 section 6.5](https://datatracker.ietf.org/doc/html/rfc4254#section-6.5).
    Subsystem {
        /// Name of the requested subsystem.
        name: Bytes<'b>,
    },

    /// A request of type `window-change`,
    /// as defined in [RFC4254 section 6.7](https://datatracker.ietf.org/doc/html/rfc4254#section-6.7).
    WindowChange {
        /// Terminal width, in columns.
        width_chars: u32,

        /// Terminal height, in rows.
        height_chars: u32,

        /// Terminal width, in pixels.
        width_pixels: u32,

        /// Terminal height, in pixels.
        height_pixels: u32,
    },

    /// A request of type `xon-xoff`,
    /// as defined in [RFC4254 section 6.8](https://datatracker.ietf.org/doc/html/rfc4254#section-6.8).
    XonXoff {
        /// Whether the client is allowed to do flow control using `<CTRL>-<S>` and `<CTRL>-<Q>`.
        client_can_do: Bool,
    },

    /// A request of type `signal`,
    /// as defined in [RFC4254 section 6.9](https://datatracker.ietf.org/doc/html/rfc4254#section-6.9).
    Signal {
        /// Signal name (without the "SIG" prefix).
        name: Bytes<'b>,
    },

    /// A request of type `exit-status`,
    /// as defined in [RFC4254 section 6.10](https://datatracker.ietf.org/doc/html/rfc4254#section-6.10).
    ExitStatus {
        /// Exit status, non-zero means failure.
        code: u32,
    },

    /// A request of type `exit-signal`,
    /// as defined in [RFC4254 section 6.10](https://datatracker.ietf.org/doc/html/rfc4254#section-6.10).
    ExitSignal {
        /// Signal name (without the "SIG" prefix).
        name: Bytes<'b>,

        /// Whether a core dump is triggering the signal.
        core_dumped: Bool,

        /// The error message for the signal.
        error_message: StringUtf8,

        /// Language tag.
        language: StringAscii,
    },
}

impl<'b> ChannelRequestContext<'b> {
    /// Get the [`ChannelRequestContext`]'s SSH identifier.
    pub fn as_ascii(&self) -> (tag: StringAscii)
        ensures
            tag@ == self.tag(),
            is_ascii_chars(tag@),
            Self::known(tag@),
    {
        match self {
            ChannelRequestContext::Pty { .. } => {
                proof {
                    reveal_strlit("pty-req");
                }
                StringAscii::literal("pty-req")
            },
            ChannelRequestContext::X11 { .. } => {
                proof {
                    reveal_strlit("x11-req");
                }
                StringAscii::literal("x11-req")
            },
            ChannelRequestContext::Env { .. } => {
                proof {
                    reveal_strlit("env");
                }
                StringAscii::literal("env")
            },
            ChannelRequestContext::Shell { .. } => {
                proof {
                    reveal_strlit("shell");
                }
                StringAscii::literal("shell")
            },
            ChannelRequestContext::Exec { .. } => {
                proof {
                    reveal_strlit("exec");
                }
                StringAscii::literal("exec")
            },
            ChannelRequestContext::Subsystem { .. } => {
                proof {
                    reveal_strlit("subsystem");
                }
                StringAscii::literal("subsystem")
            },
            ChannelRequestContext::WindowChange { .. } => {
                proof {
                    reveal_strlit("window-change");
                }
                StringAscii::literal("window-change")
            },
            ChannelRequestContext::XonXoff { .. } => {
                proof {
                    reveal_strlit("xon-xoff");
                }
                StringAscii::literal("xon-xoff")
            },
            ChannelRequestContext::Signal { .. } => {
                proof {
                    reveal_strlit("signal");
                }
                StringAscii::literal("signal")
            },
            ChannelRequestContext::ExitStatus { .. } => {
                proof {
                    reveal_strlit("exit-status");
                }
                StringAscii::literal("exit-status")
            },
            ChannelRequestContext::ExitSignal { .. } => {
                proof {
                    reveal_strlit("exit-signal");
                }
                StringAscii::literal("exit-signal")
            },
        }
    }

    /// The tags of the shapes are ASCII texts, and no two of them are the
    /// same text.
    pub proof fn lemma_tags()
        ensures
            is_ascii_chars("pty-req"@),
            "pty-req"@.len() == 7,
            is_ascii_chars("x11-req"@),
            "x11-req"@.len() == 7,
            is_ascii_chars("env"@),
            "env"@.len() == 3,
            is_ascii_chars("shell"@),
            "shell"@.len() == 5,
            is_ascii_chars("exec"@),
            "exec"@.len() == 4,
            is_ascii_chars("subsystem"@),
            "subsystem"@.len() == 9,
            is_ascii_chars("window-change"@),
            "window-change"@.len() == 13,
            is_ascii_chars("xon-xoff"@),
            "xon-xoff"@.len() == 8,
            is_ascii_chars("signal"@),
            "signal"@.len() == 6,
            is_ascii_chars("exit-status"@),
            "exit-status"@.len() == 11,
            is_ascii_chars("exit-signal"@),
            "exit-signal"@.len() == 11,
            "pty-req"@ != "x11-req"@,
            "pty-req"@ != "env"@,
            "x11-req"@ != "env"@,
            "pty-req"@ != "shell"@,
            "x11-req"@ != "shell"@,
            "env"@ != "shell"@,
            "pty-req"@ != "exec"@,
            "x11-req"@ != "exec"@,
            "env"@ != "exec"@,
            "shell"@ != "exec"@,
            "pty-req"@ != "subsystem"@,
            "x11-req"@ != "subsystem"@,
            "env"@ != "subsystem"@,
            "shell"@ != "subsystem"@,
            "exec"@ != "subsystem"@,
            "pty-req"@ != "window-change"@,
            "x11-req"@ != "window-change"@,
            "env"@ != "window-change"@,
            "shell"@ != "window-change"@,
            "exec"@ != "window-change"@,
            "subsystem"@ != "window-change"@,
            "pty-req"@ != "xon-xoff"@,
            "x11-req"@ != "xon-xoff"@,
            "env"@ != "xon-xoff"@,
            "shell"@ != "xon-xoff"@,
            "exec"@ != "xon-xoff"@,
            "subsystem"@ != "xon-xoff"@,
            "window-change"@ != "xon-xoff"@,
            "pty-req"@ != "signal"@,
            "x11-req"@ != "signal"@,
            "env"@ != "signal"@,
            "shell"@ != "signal"@,
            "exec"@ != "signal"@,
            "subsystem"@ != "signal"@,
            "window-change"@ != "signal"@,
            "xon-xoff"@ != "signal"@,
            "pty-req"@ != "exit-status"@,
            "x11-req"@ != "exit-status"@,
            "env"@ != "exit-status"@,
            "shell"@ != "exit-status"@,
            "exec"@ != "exit-status"@,
            "subsystem"@ != "exit-status"@,
            "window-change"@ != "exit-status"@,
            "xon-xoff"@ != "exit-status"@,
            "signal"@ != "exit-status"@,
            "pty-req"@ != "exit-signal"@,
            "x11-req"@ != "exit-signal"@,
            "env"@ != "exit-signal"@,
            "shell"@ != "exit-signal"@,
            "exec"@ != "exit-signal"@,
            "subsystem"@ != "exit-signal"@,
            "window-change"@ != "exit-signal"@,
            "xon-xoff"@ != "exit-signal"@,
            "signal"@ != "exit-signal"@,
            "exit-status"@ != "exit-signal"@,
    {
        reveal_strlit("pty-req");
        reveal_strlit("x11-req");
        reveal_strlit("env");
        reveal_strlit("shell");
        reveal_strlit("exec");
        reveal_strlit("subsystem");
        reveal_strlit("window-change");
        reveal_strlit("xon-xoff");
        reveal_strlit("signal");
        reveal_strlit("exit-status");
        reveal_strlit("exit-signal");
        assert("pty-req"@[0] != "x11-req"@[0]);
        assert("pty-req"@.len() != "env"@.len());
        assert("x11-req"@.len() != "env"@.len());
        assert("pty-req"@.len() != "shell"@.len());
        assert("x11-req"@.len() != "shell"@.len());
        assert("env"@.len() != "shell"@.len());
        assert("pty-req"@.len() != "exec"@.len());
        assert("x11-req"@.len() != "exec"@.len());
        assert("env"@.len() != "exec"@.len());
        assert("shell"@.len() != "exec"@.len());
        assert("pty-req"@.len() != "subsystem"@.len());
        assert("x11-req"@.len() != "subsystem"@.len());
        assert("env"@.len() != "subsystem"@.len());
        assert("shell"@.len() != "subsystem"@.len());
        assert("exec"@.len() != "subsystem"@.len());
        assert("pty-req"@.len() != "window-change"@.len());
        assert("x11-req"@.len() != "window-change"@.len());
        assert("env"@.len() != "window-change"@.len());
        assert("shell"@.len() != "window-change"@.len());
        assert("exec"@.len() != "window-change"@.len());
        assert("subsystem"@.len() != "window-change"@.len());
        assert("pty-req"@.len() != "xon-xoff"@.len());
        assert("x11-req"@.len() != "xon-xoff"@.len());
        assert("env"@.len() != "xon-xoff"@.len());
        assert("shell"@.len() != "xon-xoff"@.len());
        assert("exec"@.len() != "xon-xoff"@.len());
        assert("subsystem"@.len() != "xon-xoff"@.len());
        assert("window-change"@.len() != "xon-xoff"@.len());
        assert("pty-req"@.len() != "signal"@.len());
        assert("x11-req"@.len() != "signal"@.len());
        assert("env"@.len() != "signal"@.len());
        assert("shell"@.len() != "signal"@.len());
        assert("exec"@.len() != "signal"@.len());
        assert("subsystem"@.len() != "signal"@.len());
        assert("window-change"@.len() != "signal"@.len());
        assert("xon-xoff"@.len() != "signal"@.len());
        assert("pty-req"@.len() != "exit-status"@.len());
        assert("x11-req"@.len() != "exit-status"@.len());
        assert("env"@.len() != "exit-status"@.len());
        assert("shell"@.len() != "exit-status"@.len());
        assert("exec"@.len() != "exit-status"@.len());
        assert("subsystem"@.len() != "exit-status"@.len());
        assert("window-change"@.len() != "exit-status"@.len());
        assert("xon-xoff"@.len() != "exit-status"@.len());
        assert("signal"@.len() != "exit-status"@.len());
        assert("pty-req"@.len() != "exit-signal"@.len());
        assert("x11-req"@.len() != "exit-signal"@.len());
        assert("env"@.len() != "exit-signal"@.len());
        assert("shell"@.len() != "exit-signal"@.len());
        assert("exec"@.len() != "exit-signal"@.len());
        assert("subsystem"@.len() != "exit-signal"@.len());
        assert("window-change"@.len() != "exit-signal"@.len());
        assert("xon-xoff"@.len() != "exit-signal"@.len());
        assert("signal"@.len() != "exit-signal"@.len());
        assert("exit-status"@[6] != "exit-signal"@[6]);
    }
}

impl<'b> Variant<'b> for ChannelRequestContext<'b> {
    open spec fn tag(&self) -> Seq<char> {
        match self {
            ChannelRequestContext::Pty { .. } => "pty-req"@,
            ChannelRequestContext::X11 { .. } => "x11-req"@,
            ChannelRequestContext::Env { .. } => "env"@,
            ChannelRequestContext::Shell { .. } => "shell"@,
            ChannelRequestContext::Exec { .. } => "exec"@,
            ChannelRequestContext::Subsystem { .. } => "subsystem"@,
            ChannelRequestContext::WindowChange { .. } => "window-change"@,
            ChannelRequestContext::XonXoff { .. } => "xon-xoff"@,
            ChannelRequestContext::Signal { .. } => "signal"@,
            ChannelRequestContext::ExitStatus { .. } => "exit-status"@,
            ChannelRequestContext::ExitSignal { .. } => "exit-signal"@,
        }
    }

    open spec fn known(tag: Seq<char>) -> bool {
        ||| tag == "pty-req"@
        ||| tag == "x11-req"@
        ||| tag == "env"@
        ||| tag == "shell"@
        ||| tag == "exec"@
        ||| tag == "subsystem"@
        ||| tag == "window-change"@
        ||| tag == "xon-xoff"@
        ||| tag == "signal"@
        ||| tag == "exit-status"@
        ||| tag == "exit-signal"@
    }

    open spec fn payload(&self) -> Seq<u8> {
        match self {
            ChannelRequestContext::Pty {
                term,
                width_chars,
                height_chars,
                width_pixels,
                height_pixels,
                modes,
            } => {
                (
                    *term,
                    (*width_chars, (*height_chars, (*width_pixels, (*height_pixels, *modes)))),
                ).wire()
            },
            ChannelRequestContext::X11 {
                single_connection,
                x11_authentication_protocol,
                x11_authentication_cookie,
                x11_screen_number,
            } => {
                (
                    *single_connection,
                    (
                        *x11_authentication_protocol,
                        (*x11_authentication_cookie, *x11_screen_number),
                    ),
                ).wire()
            },
            ChannelRequestContext::Env { name, value } => (*name, *value).wire(),
            ChannelRequestContext::Shell => ().wire(),
            ChannelRequestContext::Exec { command } => (*command).wire(),
            ChannelRequestContext::Subsystem { name } => (*name).wire(),
            ChannelRequestContext::WindowChange {
                width_chars,
                height_chars,
                width_pixels,
                height_pixels,
            } => {
                (*width_chars, (*height_chars, (*width_pixels, *height_pixels))).wire()
            },
            ChannelRequestContext::XonXoff { client_can_do } => (*client_can_do).wire(),
            ChannelRequestContext::Signal { name } => (*name).wire(),
            ChannelRequestContext::ExitStatus { code } => (*code).wire(),
            ChannelRequestContext::ExitSignal { name, core_dumped, error_message, language } => {
                (*name, (*core_dumped, (*error_message, *language))).wire()
            },
        }
    }

    open spec fn payload_fits(&self) -> bool {
        match self {
            ChannelRequestContext::Pty {
                term,
                width_chars,
                height_chars,
                width_pixels,
                height_pixels,
                modes,
            } => {
                (
                    *term,
                    (*width_chars, (*height_chars, (*width_pixels, (*height_pixels, *modes)))),
                ).fits()
            },
            ChannelRequestContext::X11 {
                single_connection,
                x11_authentication_protocol,
                x11_authentication_cookie,
                x11_screen_number,
            } => {
                (
                    *single_connection,
                    (
                        *x11_authentication_protocol,
                        (*x11_authentication_cookie, *x11_screen_number),
                    ),
                ).fits()
            },
            ChannelRequestContext::Env { name, value } => (*name, *value).fits(),
            ChannelRequestContext::Shell => ().fits(),
            ChannelRequestContext::Exec { command } => (*command).fits(),
            ChannelRequestContext::Subsystem { name } => (*name).fits(),
            ChannelRequestContext::WindowChange {
                width_chars,
                height_chars,
                width_pixels,
                height_pixels,
            } => {
                (*width_chars, (*height_chars, (*width_pixels, *height_pixels))).fits()
            },
            ChannelRequestContext::XonXoff { client_can_do } => (*client_can_do).fits(),
            ChannelRequestContext::Signal { name } => (*name).fits(),
            ChannelRequestContext::ExitStatus { code } => (*code).fits(),
            ChannelRequestContext::ExitSignal { name, core_dumped, error_message, language } => {
                (*name, (*core_dumped, (*error_message, *language))).fits()
            },
        }
    }

    open spec fn payload_outcome(tag: Seq<char>, buf: Seq<u8>) -> Result<nat, ErrorKind> {
        if tag == "pty-req"@ {
            <(Bytes<'b>, (u32, (u32, (u32, (u32, Bytes<'b>)))))>::outcome(buf)
        } else if tag == "x11-req"@ {
            <(Bool, (Bytes<'b>, (Bytes<'b>, u32)))>::outcome(buf)
        } else if tag == "env"@ {
            <(Bytes<'b>, Bytes<'b>)>::outcome(buf)
        } else if tag == "shell"@ {
            <()>::outcome(buf)
        } else if tag == "exec"@ {
            <Bytes<'b>>::outcome(buf)
        } else if tag == "subsystem"@ {
            <Bytes<'b>>::outcome(buf)
        } else if tag == "window-change"@ {
            <(u32, (u32, (u32, u32)))>::outcome(buf)
        } else if tag == "xon-xoff"@ {
            <Bool>::outcome(buf)
        } else if tag == "signal"@ {
            <Bytes<'b>>::outcome(buf)
        } else if tag == "exit-status"@ {
            <u32>::outcome(buf)
        } else if tag == "exit-signal"@ {
            <(Bytes<'b>, (Bool, (StringUtf8, StringAscii)))>::outcome(buf)
        } else {
            Err(ErrorKind::UnknownVariant)
        }
    }

    open spec fn payload_decoded_from(&self, buf: Seq<u8>) -> bool {
        match self {
            ChannelRequestContext::Pty {
                term,
                width_chars,
                height_chars,
                width_pixels,
                height_pixels,
                modes,
            } => {
                (
                    *term,
                    (*width_chars, (*height_chars, (*width_pixels, (*height_pixels, *modes)))),
                ).decoded_from(buf)
            },
            ChannelRequestContext::X11 {
                single_connection,
                x11_authentication_protocol,
                x11_authentication_cookie,
                x11_screen_number,
            } => {
                (
                    *single_connection,
                    (
                        *x11_authentication_protocol,
                        (*x11_authentication_cookie, *x11_screen_number),
                    ),
                ).decoded_from(buf)
            },
            ChannelRequestContext::Env { name, value } => (*name, *value).decoded_from(buf),
            ChannelRequestContext::Shell => ().decoded_from(buf),
            ChannelRequestContext::Exec { command } => (*command).decoded_from(buf),
            ChannelRequestContext::Subsystem { name } => (*name).decoded_from(buf),
            ChannelRequestContext::WindowChange {
                width_chars,
                height_chars,
                width_pixels,
                height_pixels,
            } => {
                (*width_chars, (*height_chars, (*width_pixels, *height_pixels))).decoded_from(buf)
            },
            ChannelRequestContext::XonXoff { client_can_do } => (*client_can_do).decoded_from(buf),
            ChannelRequestContext::Signal { name } => (*name).decoded_from(buf),
            ChannelRequestContext::ExitStatus { code } => (*code).decoded_from(buf),
            ChannelRequestContext::ExitSignal { name, core_dumped, error_message, language } => {
                (*name, (*core_dumped, (*error_message, *language))).decoded_from(buf)
            },
        }
    }

    open spec fn payload_sound(&self) -> bool {
        match self {
            ChannelRequestContext::Pty {
                term,
                width_chars,
                height_chars,
                width_pixels,
                height_pixels,
                modes,
            } => {
                (
                    *term,
                    (*width_chars, (*height_chars, (*width_pixels, (*height_pixels, *modes)))),
                ).sound()
            },
            ChannelRequestContext::X11 {
                single_connection,
                x11_authentication_protocol,
                x11_authentication_cookie,
                x11_screen_number,
            } => {
                (
                    *single_connection,
                    (
                        *x11_authentication_protocol,
                        (*x11_authentication_cookie, *x11_screen_number),
                    ),
                ).sound()
            },
            ChannelRequestContext::Env { name, value } => (*name, *value).sound(),
            ChannelRequestContext::Shell => ().sound(),
            ChannelRequestContext::Exec { command } => (*command).sound(),
            ChannelRequestContext::Subsystem { name } => (*name).sound(),
            ChannelRequestContext::WindowChange {
                width_chars,
                height_chars,
                width_pixels,
                height_pixels,
            } => {
                (*width_chars, (*height_chars, (*width_pixels, *height_pixels))).sound()
            },
            ChannelRequestContext::XonXoff { client_can_do } => (*client_can_do).sound(),
            ChannelRequestContext::Signal { name } => (*name).sound(),
            ChannelRequestContext::ExitStatus { code } => (*code).sound(),
            ChannelRequestContext::ExitSignal { name, core_dumped, error_message, language } => {
                (*name, (*core_dumped, (*error_message, *language))).sound()
            },
        }
    }

    proof fn lemma_payload_reads_back(&self, rest: Seq<u8>) {
        Self::lemma_tags();
        match self {
            ChannelRequestContext::Pty {
                term,
                width_chars,
                height_chars,
                width_pixels,
                height_pixels,
                modes,
            } => {
                (
                    *term,
                    (*width_chars, (*height_chars, (*width_pixels, (*height_pixels, *modes)))),
                ).lemma_reads_back(rest);
            },
            ChannelRequestContext::X11 {
                single_connection,
                x11_authentication_protocol,
                x11_authentication_cookie,
                x11_screen_number,
            } => {
                (
                    *single_connection,
                    (
                        *x11_authentication_protocol,
                        (*x11_authentication_cookie, *x11_screen_number),
                    ),
                ).lemma_reads_back(rest);
            },
            ChannelRequestContext::Env { name, value } => {
                (*name, *value).lemma_reads_back(rest);
            },
            ChannelRequestContext::Shell => {
                ().lemma_reads_back(rest);
            },
            ChannelRequestContext::Exec { command } => {
                (*command).lemma_reads_back(rest);
            },
            ChannelRequestContext::Subsystem { name } => {
                (*name).lemma_reads_back(rest);
            },
            ChannelRequestContext::WindowChange {
                width_chars,
                height_chars,
                width_pixels,
                height_pixels,
            } => {
                (
                    *width_chars,
                    (*height_chars, (*width_pixels, *height_pixels)),
                ).lemma_reads_back(rest);
            },
            ChannelRequestContext::XonXoff { client_can_do } => {
                (*client_can_do).lemma_reads_back(rest);
            },
            ChannelRequestContext::Signal { name } => {
                (*name).lemma_reads_back(rest);
            },
            ChannelRequestContext::ExitStatus { code } => {
                (*code).lemma_reads_back(rest);
            },
            ChannelRequestContext::ExitSignal { name, core_dumped, error_message, language } => {
                (*name, (*core_dumped, (*error_message, *language))).lemma_reads_back(rest);
            },
        }
    }

    fn tag_of(&self) -> (tag: StringAscii) {
        self.as_ascii()
    }

    fn encode_payload(&self, out: &mut Vec<u8>) -> (r: Result<(), Error>) {
        match self {
            ChannelRequestContext::Pty {
                term,
                width_chars,
                height_chars,
                width_pixels,
                height_pixels,
                modes,
            } => {
                (
                    term,
                    (width_chars, (height_chars, (width_pixels, (height_pixels, modes)))),
                ).encode(out)
            },
            ChannelRequestContext::X11 {
                single_connection,
                x11_authentication_protocol,
                x11_authentication_cookie,
                x11_screen_number,
            } => {
                (
                    single_connection,
                    (x11_authentication_protocol, (x11_authentication_cookie, x11_screen_number)),
                ).encode(out)
            },
            ChannelRequestContext::Env { name, value } => (name, value).encode(out),
            ChannelRequestContext::Shell => ().encode(out),
            ChannelRequestContext::Exec { command } => command.encode(out),
            ChannelRequestContext::Subsystem { name } => name.encode(out),
            ChannelRequestContext::WindowChange {
                width_chars,
                height_chars,
                width_pixels,
                height_pixels,
            } => {
                (width_chars, (height_chars, (width_pixels, height_pixels))).encode(out)
            },
            ChannelRequestContext::XonXoff { client_can_do } => client_can_do.encode(out),
            ChannelRequestContext::Signal { name } => name.encode(out),
            ChannelRequestContext::ExitStatus { code } => code.encode(out),
            ChannelRequestContext::ExitSignal { name, core_dumped, error_message, language } => {
                (name, (core_dumped, (error_message, language))).encode(out)
            },
        }
    }

    fn decode_payload(tag: &StringAscii, buf: &'b [u8]) -> (r: Result<(Self, usize), Error>) {
        let name = tag.as_str();
        if str_eq(name, "pty-req") {
            let (fields, n) = <(Bytes<'b>, (u32, (u32, (u32, (u32, Bytes<'b>)))))>::decode(buf)?;
            let (
                term,
                (width_chars, (height_chars, (width_pixels, (height_pixels, modes)))),
            ) = fields;
            Ok((
                ChannelRequestContext::Pty {
                    term,
                    width_chars,
                    height_chars,
                    width_pixels,
                    height_pixels,
                    modes,
                },
                n,
            ))
        } else if str_eq(name, "x11-req") {
            let (fields, n) = <(Bool, (Bytes<'b>, (Bytes<'b>, u32)))>::decode(buf)?;
            let (
                single_connection,
                (x11_authentication_protocol, (x11_authentication_cookie, x11_screen_number)),
            ) = fields;
            Ok((
                ChannelRequestContext::X11 {
                    single_connection,
                    x11_authentication_protocol,
                    x11_authentication_cookie,
                    x11_screen_number,
                },
                n,
            ))
        } else if str_eq(name, "env") {
            let (fields, n) = <(Bytes<'b>, Bytes<'b>)>::decode(buf)?;
            let (name, value) = fields;
            Ok((ChannelRequestContext::Env { name, value }, n))
        } else if str_eq(name, "shell") {
            let n: usize = 0;
            Ok((ChannelRequestContext::Shell, n))
        } else if str_eq(name, "exec") {
            let (fields, n) = <Bytes<'b>>::decode(buf)?;
            let command = fields;
            Ok((ChannelRequestContext::Exec { command }, n))
        } else if str_eq(name, "subsystem") {
            let (fields, n) = <Bytes<'b>>::decode(buf)?;
            let name = fields;
            Ok((ChannelRequestContext::Subsystem { name }, n))
        } else if str_eq(name, "window-change") {
            let (fields, n) = <(u32, (u32, (u32, u32)))>::decode(buf)?;
            let (width_chars, (height_chars, (width_pixels, height_pixels))) = fields;
            Ok((
                ChannelRequestContext::WindowChange {
                    width_chars,
                    height_chars,
                    width_pixels,
                    height_pixels,
                },
                n,
            ))
        } else if str_eq(name, "xon-xoff") {
            let (fields, n) = <Bool>::decode(buf)?;
            let client_can_do = fields;
            Ok((ChannelRequestContext::XonXoff { client_can_do }, n))
        } else if str_eq(name, "signal") {
            let (fields, n) = <Bytes<'b>>::decode(buf)?;
            let name = fields;
            Ok((ChannelRequestContext::Signal { name }, n))
        } else if str_eq(name, "exit-status") {
            let (fields, n) = <u32>::decode(buf)?;
            let code = fields;
            Ok((ChannelRequestContext::ExitStatus { code }, n))
        } else if str_eq(name, "exit-signal") {
            let (fields, n) = <(Bytes<'b>, (Bool, (StringUtf8, StringAscii)))>::decode(buf)?;
            let (name, (core_dumped, (error_message, language))) = fields;
            Ok((
                ChannelRequestContext::ExitSignal { name, core_dumped, error_message, language },
                n,
            ))
        } else {
            Err(Error::UnknownVariant(slice_to_vec(tag.as_bytes())))
        }
    }
}

/// The `SSH_MSG_CHANNEL_SUCCESS` message.
///
/// see <https://datatracker.ietf.org/doc/html/rfc4254#section-5.4>.
#[derive(Debug, Clone)]
pub struct ChannelSuccess {
    /// Recipient channel.
    pub recipient_channel: u32,
}

impl ChannelSuccess {
    /// The number of the message.
    pub const NUMBER: u8 = 99;

    /// The fields of the message in the order in which they are sent.
    pub open spec fn fields(&self) -> u32 {
        self.recipient_channel
    }
}

impl Encode for ChannelSuccess {
    open spec fn wire(&self) -> Seq<u8> {
        message_wire(99, self.fields().wire())
    }

    open spec fn fits(&self) -> bool {
        self.fields().fits()
    }

    fn encode(&self, out: &mut Vec<u8>) -> (r: Result<(), Error>) {
        encode_message(99, &self.recipient_channel, out)
    }
}

impl<'b> Decode<'b> for ChannelSuccess {
    open spec fn outcome(buf: Seq<u8>) -> Result<nat, ErrorKind> {
        message_outcome(99, buf, <u32>::outcome(buf.skip(1)))
    }

    open spec fn decoded_from(&self, buf: Seq<u8>) -> bool {
        self.fields().decoded_from(buf.skip(1))
    }

    open spec fn sound(&self) -> bool {
        self.fields().sound()
    }

    fn decode(buf: &'b [u8]) -> (r: Result<(Self, usize), Error>) {
        let (fields, n) = decode_message::<u32>(99, buf)?;
        let recipient_channel = fields;
        Ok((ChannelSuccess { recipient_channel }, n))
    }
}

impl<'b> Roundtrip<'b> for ChannelSuccess {
    proof fn lemma_reads_back(&self, rest: Seq<u8>) {
        lemma_message_reads_back(99, self.fields(), rest);
    }
}

/// The `SSH_MSG_CHANNEL_FAILURE` message.
///
/// see <https://datatracker.ietf.org/doc/html/rfc4254#section-5.4>.
#[derive(Debug, Clone)]
pub struct ChannelFailure {
    /// Recipient channel.
    pub recipient_channel: u32,
}

impl ChannelFailure {
    /// The number of the message.
    pub const NUMBER: u8 = 100;

    /// The fields of the message in the order in which they are sent.
    pub open spec fn fields(&self) -> u32 {
        self.recipient_channel
    }
}

impl Encode for ChannelFailure {
    open spec fn wire(&self) -> Seq<u8> {
        message_wire(100, self.fields().wire())
    }

    open spec fn fits(&self) -> bool {
        self.fields().fits()
    }

    fn encode(&self, out: &mut Vec<u8>) -> (r: Result<(), Error>) {
        encode_message(100, &self.recipient_channel, out)
    }
}

impl<'b> Decode<'b> for ChannelFailure {
    open spec fn outcome(buf: Seq<u8>) -> Result<nat, ErrorKind> {
        message_outcome(100, buf, <u32>::outcome(buf.skip(1)))
    }

    open spec fn decoded_from(&self, buf: Seq<u8>) -> bool {
        self.fields().decoded_from(buf.skip(1))
    }

    open spec fn sound(&self) -> bool {
        self.fields().sound()
    }

    fn decode(buf: &'b [u8]) -> (r: Result<(Self, usize), Error>) {
        let (fields, n) = decode_message::<u32>(100, buf)?;
        let recipient_channel = fields;
        Ok((ChannelFailure { recipient_channel }, n))
    }
}

impl<'b> Roundtrip<'b> for ChannelFailure {
    proof fn lemma_reads_back(&self, rest: Seq<u8>) {
        lemma_message_reads_back(100, self.fields(), rest);
    }
}

} // verus!
