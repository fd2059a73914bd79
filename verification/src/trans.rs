//! Messages involved in the SSH's **transport** (`SSH-TRANS`) part of the protocol,
//! as defined in the [RFC 4253](https://datatracker.ietf.org/doc/html/rfc4253)
//! and [RFC 5656](https://datatracker.ietf.org/doc/html/rfc5656).

use vstd::prelude::*;

use crate::arch::{Bool, Bytes, MpInt, NameList, StringAscii, StringUtf8};
use crate::error::{Error, ErrorKind};
use crate::wire::{
    be32, decode_message, encode_message, from_be32, lemma_be32_roundtrip,
    lemma_message_reads_back, message_outcome, message_wire, u32_outcome, Decode, Encode, Reserved,
    Roundtrip,
};

verus! {

/// The `SSH_MSG_DISCONNECT` message.
///
/// see <https://datatracker.ietf.org/doc/html/rfc4253#section-11.1>.
#[derive(Debug, Clone)]
pub struct Disconnect {
    /// Reason for disconnection.
    pub reason: DisconnectReason,

    /// Description of the reason for disconnection.
    pub description: StringUtf8,

    /// Language tag.
    pub language: StringAscii,
}

impl Disconnect {
    /// The number of the message.
    pub const NUMBER: u8 = 1;

    /// The fields of the message in the order in which they are sent.
    pub open spec fn fields(&self) -> (DisconnectReason, (StringUtf8, StringAscii)) {
        (self.reason, (self.description, self.language))
    }
}

impl Encode for Disconnect {
    open spec fn wire(&self) -> Seq<u8> {
        message_wire(1, self.fields().wire())
    }

    open spec fn fits(&self) -> bool {
        self.fields().fits()
    }

    fn encode(&self, out: &mut Vec<u8>) -> (r: Result<(), Error>) {
        encode_message(1, &(&self.reason, (&self.description, &self.language)), out)
    }
}

impl<'b> Decode<'b> for Disconnect {
    open spec fn outcome(buf: Seq<u8>) -> Result<nat, ErrorKind> {
        message_outcome(
            1,
            buf,
            <(DisconnectReason, (StringUtf8, StringAscii))>::outcome(buf.skip(1)),
        )
    }

    open spec fn decoded_from(&self, buf: Seq<u8>) -> bool {
        self.fields().decoded_from(buf.skip(1))
    }

    open spec fn sound(&self) -> bool {
        self.fields().sound()
    }

    fn decode(buf: &'b [u8]) -> (r: Result<(Self, usize), Error>) {
        let (fields, n) = decode_message::<(DisconnectReason, (StringUtf8, StringAscii))>(1, buf)?;
        let (reason, (description, language)) = fields;
        Ok((Disconnect { reason, description, language }, n))
    }
}

impl<'b> Roundtrip<'b> for Disconnect {
    proof fn lemma_reads_back(&self, rest: Seq<u8>) {
        lemma_message_reads_back(1, self.fields(), rest);
    }
}

/// The `reason` for disconnect in the `SSH_MSG_DISCONNECT` message.
#[derive(Debug, Clone, Copy, PartialEq, Eq, Structural)]
pub enum DisconnectReason {
    /// `SSH_DISCONNECT_HOST_NOT_ALLOWED_TO_CONNECT`.
    HostNotAllowedToConnect,

    /// `SSH_DISCONNECT_PROTOCOL_ERROR`.
    ProtocolError,

    /// `SSH_DISCONNECT_KEY_EXCHANGE_FAILED`.
    KeyExchangeFailed,

    /// `SSH_DISCONNECT_RESERVED`.
    Reserved,

    /// `SSH_DISCONNECT_MAC_ERROR`.
    MacError,

    /// `SSH_DISCONNECT_COMPRESSION_ERROR`.
    CompressionError,

    /// `SSH_DISCONNECT_SERVICE_NOT_AVAILABLE`.
    ServiceNotAvailable,

    /// `SSH_DISCONNECT_PROTOCOL_VERSION_NOT_SUPPORTED`.
    ProtocolVersionNotSupported,

    /// `SSH_DISCONNECT_HOST_KEY_NOT_VERIFIABLE`.
    HostKeyNotVerifiable,

    /// `SSH_DISCONNECT_CONNECTION_LOST`.
    ConnectionLost,

    /// `SSH_DISCONNECT_BY_APPLICATION`.
    ByApplication,

    /// `SSH_DISCONNECT_TOO_MANY_CONNECTIONS`.
    TooManyConnections,

    /// `SSH_DISCONNECT_AUTH_CANCELLED_BY_USER`.
    AuthCancelledByUser,

    /// `SSH_DISCONNECT_NO_MORE_AUTH_METHODS_AVAILABLE`.
    NoMoreAuthMethodsAvailable,

    /// `SSH_DISCONNECT_ILLEGAL_USER_NAME`.
    IllegalUserName,

    /// Any other disconnect reason, may be non-standard.
    ///
    /// The 'reason' values in the range of `0xFE000000`
    /// through `0xFFFFFFFF` are reserved for PRIVATE USE.
    Other(u32),
}

impl DisconnectReason {
    /// The number that stands for this reason on the wire.
    pub open spec fn code(&self) -> u32 {
        match self {
            DisconnectReason::HostNotAllowedToConnect => 1,
            DisconnectReason::ProtocolError => 2,
            DisconnectReason::KeyExchangeFailed => 3,
            DisconnectReason::Reserved => 4,
            DisconnectReason::MacError => 5,
            DisconnectReason::CompressionError => 6,
            DisconnectReason::ServiceNotAvailable => 7,
            DisconnectReason::ProtocolVersionNotSupported => 8,
            DisconnectReason::HostKeyNotVerifiable => 9,
            DisconnectReason::ConnectionLost => 10,
            DisconnectReason::ByApplication => 11,
            DisconnectReason::TooManyConnections => 12,
            DisconnectReason::AuthCancelledByUser => 13,
            DisconnectReason::NoMoreAuthMethodsAvailable => 14,
            DisconnectReason::IllegalUserName => 15,
            DisconnectReason::Other(code) => *code,
        }
    }

    /// The reason that a number stands for.
    pub open spec fn of_code(code: u32) -> Self {
        if code == 1 {
            DisconnectReason::HostNotAllowedToConnect
        } else if code == 2 {
            DisconnectReason::ProtocolError
        } else if code == 3 {
            DisconnectReason::KeyExchangeFailed
        } else if code == 4 {
            DisconnectReason::Reserved
        } else if code == 5 {
            DisconnectReason::MacError
        } else if code == 6 {
            DisconnectReason::CompressionError
        } else if code == 7 {
            DisconnectReason::ServiceNotAvailable
        } else if code == 8 {
            DisconnectReason::ProtocolVersionNotSupported
        } else if code == 9 {
            DisconnectReason::HostKeyNotVerifiable
        } else if code == 10 {
            DisconnectReason::ConnectionLost
        } else if code == 11 {
            DisconnectReason::ByApplication
        } else if code == 12 {
            DisconnectReason::TooManyConnections
        } else if code == 13 {
            DisconnectReason::AuthCancelledByUser
        } else if code == 14 {
            DisconnectReason::NoMoreAuthMethodsAvailable
        } else if code == 15 {
            DisconnectReason::IllegalUserName
        } else {
            DisconnectReason::Other(code)
        }
    }

    /// Whether this value is the reason that its own number stands for.
    /// A number that has a name is not written as `Other`.
    pub open spec fn wf(&self) -> bool {
        Self::of_code(self.code()) == *self
    }

    /// The number that stands for this reason on the wire.
    pub fn to_code(&self) -> (code: u32)
        ensures
            code == self.code(),
    {
        match self {
            DisconnectReason::HostNotAllowedToConnect => 1,
            DisconnectReason::ProtocolError => 2,
            DisconnectReason::KeyExchangeFailed => 3,
            DisconnectReason::Reserved => 4,
            DisconnectReason::MacError => 5,
            DisconnectReason::CompressionError => 6,
            DisconnectReason::ServiceNotAvailable => 7,
            DisconnectReason::ProtocolVersionNotSupported => 8,
            DisconnectReason::HostKeyNotVerifiable => 9,
            DisconnectReason::ConnectionLost => 10,
            DisconnectReason::ByApplication => 11,
            DisconnectReason::TooManyConnections => 12,
            DisconnectReason::AuthCancelledByUser => 13,
            DisconnectReason::NoMoreAuthMethodsAvailable => 14,
            DisconnectReason::IllegalUserName => 15,
            DisconnectReason::Other(code) => *code,
        }
    }

    /// The reason that a number stands for.
    pub fn from_code(code: u32) -> (reason: Self)
        ensures
            reason == Self::of_code(code),
            reason.wf(),
    {
        if code == 1 {
            DisconnectReason::HostNotAllowedToConnect
        } else if code == 2 {
            DisconnectReason::ProtocolError
        } else if code == 3 {
            DisconnectReason::KeyExchangeFailed
        } else if code == 4 {
            DisconnectReason::Reserved
        } else if code == 5 {
            DisconnectReason::MacError
        } else if code == 6 {
            DisconnectReason::CompressionError
        } else if code == 7 {
            DisconnectReason::ServiceNotAvailable
        } else if code == 8 {
            DisconnectReason::ProtocolVersionNotSupported
        } else if code == 9 {
            DisconnectReason::HostKeyNotVerifiable
        } else if code == 10 {
            DisconnectReason::ConnectionLost
        } else if code == 11 {
            DisconnectReason::ByApplication
        } else if code == 12 {
            DisconnectReason::TooManyConnections
        } else if code == 13 {
            DisconnectReason::AuthCancelledByUser
        } else if code == 14 {
            DisconnectReason::NoMoreAuthMethodsAvailable
        } else if code == 15 {
            DisconnectReason::IllegalUserName
        } else {
            DisconnectReason::Other(code)
        }
    }
}

impl Encode for DisconnectReason {
    open spec fn wire(&self) -> Seq<u8> {
        be32(self.code())
    }

    open spec fn fits(&self) -> bool {
        true
    }

    fn encode(&self, out: &mut Vec<u8>) -> (r: Result<(), Error>) {
        self.to_code().encode(out)
    }
}

impl<'b> Decode<'b> for DisconnectReason {
    open spec fn outcome(buf: Seq<u8>) -> Result<nat, ErrorKind> {
        u32_outcome(buf)
    }

    open spec fn decoded_from(&self, buf: Seq<u8>) -> bool {
        *self == Self::of_code(from_be32(buf))
    }

    /// A number that has a name is not written as `Other`.
    open spec fn sound(&self) -> bool {
        self.wf()
    }

    fn decode(buf: &'b [u8]) -> (r: Result<(Self, usize), Error>) {
        let (code, n) = u32::decode(buf)?;
        Ok((Self::from_code(code), n))
    }
}

impl<'b> Roundtrip<'b> for DisconnectReason {
    proof fn lemma_reads_back(&self, rest: Seq<u8>) {
        lemma_be32_roundtrip(self.code(), rest);
    }
}

/// The `SSH_MSG_IGNORE` message.
///
/// see <https://datatracker.ietf.org/doc/html/rfc4253#section-11.2>.
#[derive(Debug, Clone)]
pub struct Ignore<'b> {
    /// A random blob of data to ignore.
    pub data: Bytes<'b>,
}

impl<'b> Ignore<'b> {
    /// The number of the message.
    pub const NUMBER: u8 = 2;

    /// The fields of the message in the order in which they are sent.
    pub open spec fn fields(&self) -> Bytes<'b> {
        self.data
    }
}

impl<'b> Encode for Ignore<'b> {
    open spec fn wire(&self) -> Seq<u8> {
        message_wire(2, self.fields().wire())
    }

    open spec fn fits(&self) -> bool {
        self.fields().fits()
    }

    fn encode(&self, out: &mut Vec<u8>) -> (r: Result<(), Error>) {
        encode_message(2, &self.data, out)
    }
}

impl<'b> Decode<'b> for Ignore<'b> {
    open spec fn outcome(buf: Seq<u8>) -> Result<nat, ErrorKind> {
        message_outcome(2, buf, <Bytes<'b>>::outcome(buf.skip(1)))
    }

    open spec fn decoded_from(&self, buf: Seq<u8>) -> bool {
        self.fields().decoded_from(buf.skip(1))
    }

    open spec fn sound(&self) -> bool {
        self.fields().sound()
    }

    fn decode(buf: &'b [u8]) -> (r: Result<(Self, usize), Error>) {
        let (fields, n) = decode_message::<Bytes<'b>>(2, buf)?;
        let data = fields;
        Ok((Ignore { data }, n))
    }
}

impl<'b> Roundtrip<'b> for Ignore<'b> {
    proof fn lemma_reads_back(&self, rest: Seq<u8>) {
        lemma_message_reads_back(2, self.fields(), rest);
    }
}

/// The `SSH_MSG_UNIMPLEMENTED` message.
///
/// see <https://datatracker.ietf.org/doc/html/rfc4253#section-11.4>.
#[derive(Debug, Clone)]
pub struct Unimplemented {
    /// Packet sequence number of rejected message.
    pub seq: u32,
}

impl Unimplemented {
    /// The number of the message.
    pub const NUMBER: u8 = 3;

    /// The fields of the message in the order in which they are sent.
    pub open spec fn fields(&self) -> u32 {
        self.seq
    }
}

impl Encode for Unimplemented {
    open spec fn wire(&self) -> Seq<u8> {
        message_wire(3, self.fields().wire())
    }

    open spec fn fits(&self) -> bool {
        self.fields().fits()
    }

    fn encode(&self, out: &mut Vec<u8>) -> (r: Result<(), Error>) {
        encode_message(3, &self.seq, out)
    }
}

impl<'b> Decode<'b> for Unimplemented {
    open spec fn outcome(buf: Seq<u8>) -> Result<nat, ErrorKind> {
        message_outcome(3, buf, <u32>::outcome(buf.skip(1)))
    }

    open spec fn decoded_from(&self, buf: Seq<u8>) -> bool {
        self.fields().decoded_from(buf.skip(1))
    }

    open spec fn sound(&self) -> bool {
        self.fields().sound()
    }

    fn decode(buf: &'b [u8]) -> (r: Result<(Self, usize), Error>) {
        let (fields, n) = decode_message::<u32>(3, buf)?;
        let seq = fields;
        Ok((Unimplemented { seq }, n))
    }
}

impl<'b> Roundtrip<'b> for Unimplemented {
    proof fn lemma_reads_back(&self, rest: Seq<u8>) {
        lemma_message_reads_back(3, self.fields(), rest);
    }
}

/// The `SSH_MSG_DEBUG` message.
///
/// see <https://datatracker.ietf.org/doc/html/rfc4253#section-11.3>.
#[derive(Debug, Clone)]
pub struct Debug {
    /// Whether the debug data should be forcefully displayed.
    pub always_display: Bool,

    /// The debug message.
    pub message: StringUtf8,

    /// Language tag.
    pub language: StringAscii,
}

impl Debug {
    /// The number of the message.
    pub const NUMBER: u8 = 4;

    /// The fields of the message in the order in which they are sent.
    pub open spec fn fields(&self) -> (Bool, (StringUtf8, StringAscii)) {
        (self.always_display, (self.message, self.language))
    }
}

impl Encode for Debug {
    open spec fn wire(&self) -> Seq<u8> {
        message_wire(4, self.fields().wire())
    }

    open spec fn fits(&self) -> bool {
        self.fields().fits()
    }

    fn encode(&self, out: &mut Vec<u8>) -> (r: Result<(), Error>) {
        encode_message(4, &(&self.always_display, (&self.message, &self.language)), out)
    }
}

impl<'b> Decode<'b> for Debug {
    open spec fn outcome(buf: Seq<u8>) -> Result<nat, ErrorKind> {
        message_outcome(4, buf, <(Bool, (StringUtf8, StringAscii))>::outcome(buf.skip(1)))
    }

    open spec fn decoded_from(&self, buf: Seq<u8>) -> bool {
        self.fields().decoded_from(buf.skip(1))
    }

    open spec fn sound(&self) -> bool {
        self.fields().sound()
    }

    fn decode(buf: &'b [u8]) -> (r: Result<(Self, usize), Error>) {
        let (fields, n) = decode_message::<(Bool, (StringUtf8, StringAscii))>(4, buf)?;
        let (always_display, (message, language)) = fields;
        Ok((Debug { always_display, message, language }, n))
    }
}

impl<'b> Roundtrip<'b> for Debug {
    proof fn lemma_reads_back(&self, rest: Seq<u8>) {
        lemma_message_reads_back(4, self.fields(), rest);
    }
}

/// The `SSH_MSG_SERVICE_REQUEST` message.
///
/// see <https://datatracker.ietf.org/doc/html/rfc4253#section-10>.
#[derive(Debug, Clone)]
pub struct ServiceRequest {
    /// The service name to request.
    pub service_name: StringAscii,
}

impl ServiceRequest {
    /// The number of the message.
    pub const NUMBER: u8 = 5;

    /// The fields of the message in the order in which they are sent.
    pub open spec fn fields(&self) -> StringAscii {
        self.service_name
    }
}

impl Encode for ServiceRequest {
    open spec fn wire(&self) -> Seq<u8> {
        message_wire(5, self.fields().wire())
    }

    open spec fn fits(&self) -> bool {
        self.fields().fits()
    }

    fn encode(&self, out: &mut Vec<u8>) -> (r: Result<(), Error>) {
        encode_message(5, &self.service_name, out)
    }
}

impl<'b> Decode<'b> for ServiceRequest {
    open spec fn outcome(buf: Seq<u8>) -> Result<nat, ErrorKind> {
        message_outcome(5, buf, <StringAscii>::outcome(buf.skip(1)))
    }

    open spec fn decoded_from(&self, buf: Seq<u8>) -> bool {
        self.fields().decoded_from(buf.skip(1))
    }

    open spec fn sound(&self) -> bool {
        self.fields().sound()
    }

    fn decode(buf: &'b [u8]) -> (r: Result<(Self, usize), Error>) {
        let (fields, n) = decode_message::<StringAscii>(5, buf)?;
        let service_name = fields;
        Ok((ServiceRequest { service_name }, n))
    }
}

impl<'b> Roundtrip<'b> for ServiceRequest {
    proof fn lemma_reads_back(&self, rest: Seq<u8>) {
        lemma_message_reads_back(5, self.fields(), rest);
    }
}

/// The `SSH_MSG_SERVICE_ACCEPT` message.
///
/// see <https://datatracker.ietf.org/doc/html/rfc4253#section-10>.
#[derive(Debug, Clone)]
pub struct ServiceAccept {
    /// Service name accepted to be requested.
    pub service_name: StringAscii,
}

impl ServiceAccept {
    /// The number of the message.
    pub const NUMBER: u8 = 6;

    /// The fields of the message in the order in which they are sent.
    pub open spec fn fields(&self) -> StringAscii {
        self.service_name
    }
}

impl Encode for ServiceAccept {
    open spec fn wire(&self) -> Seq<u8> {
        message_wire(6, self.fields().wire())
    }

    open spec fn fits(&self) -> bool {
        self.fields().fits()
    }

    fn encode(&self, out: &mut Vec<u8>) -> (r: Result<(), Error>) {
        encode_message(6, &self.service_name, out)
    }
}

impl<'b> Decode<'b> for ServiceAccept {
    open spec fn outcome(buf: Seq<u8>) -> Result<nat, ErrorKind> {
        message_outcome(6, buf, <StringAscii>::outcome(buf.skip(1)))
    }

    open spec fn decoded_from(&self, buf: Seq<u8>) -> bool {
        self.fields().decoded_from(buf.skip(1))
    }

    open spec fn sound(&self) -> bool {
        self.fields().sound()
    }

    fn decode(buf: &'b [u8]) -> (r: Result<(Self, usize), Error>) {
        let (fields, n) = decode_message::<StringAscii>(6, buf)?;
        let service_name = fields;
        Ok((ServiceAccept { service_name }, n))
    }
}

impl<'b> Roundtrip<'b> for ServiceAccept {
    proof fn lemma_reads_back(&self, rest: Seq<u8>) {
        lemma_message_reads_back(6, self.fields(), rest);
    }
}

/// The `SSH_MSG_KEXINIT` message.
///
/// see <https://datatracker.ietf.org/doc/html/rfc4253#section-7.1>.
#[derive(Debug, Clone)]
pub struct KexInit {
    /// The kex-init cookie.
    pub cookie: [u8; 16],

    /// Kex algorithms.
    pub kex_algorithms: NameList,

    /// Server host-key algorithms.
    pub server_host_key_algorithms: NameList,

    /// Client -> server encryption algorithms.
    pub encryption_algorithms_client_to_server: NameList,

    /// Server -> client encryption algorithms.
    pub encryption_algorithms_server_to_client: NameList,

    /// Client -> server MAC algorithms.
    pub mac_algorithms_client_to_server: NameList,

    /// Server -> client MAC algorithms.
    pub mac_algorithms_server_to_client: NameList,

    /// Client -> server compression algorithms.
    pub compression_algorithms_client_to_server: NameList,

    /// Server -> client compression algorithms.
    pub compression_algorithms_server_to_client: NameList,

    /// Client -> server languages.
    pub languages_client_to_server: NameList,

    /// Server -> client languages.
    pub languages_server_to_client: NameList,

    /// Whether the first kex packet follows.
    pub first_kex_packet_follows: Bool,
}

impl KexInit {
    /// The number of the message.
    pub const NUMBER: u8 = 20;

    /// The fields of the message in the order in which they are sent.
    pub open spec fn fields(&self) -> (
        [u8; 16],
        (
            NameList,
            (
                NameList,
                (
                    NameList,
                    (
                        NameList,
                        (
                            NameList,
                            (
                                NameList,
                                (NameList, (NameList, (NameList, (NameList, (Bool, Reserved))))),
                            ),
                        ),
                    ),
                ),
            ),
        ),
    ) {
        (
            self.cookie,
            (
                self.kex_algorithms,
                (
                    self.server_host_key_algorithms,
                    (
                        self.encryption_algorithms_client_to_server,
                        (
                            self.encryption_algorithms_server_to_client,
                            (
                                self.mac_algorithms_client_to_server,
                                (
                                    self.mac_algorithms_server_to_client,
                                    (
                                        self.compression_algorithms_client_to_server,
                                        (
                                            self.compression_algorithms_server_to_client,
                                            (
                                                self.languages_client_to_server,
                                                (
                                                    self.languages_server_to_client,
                                                    (self.first_kex_packet_follows, Reserved),
                                                ),
                                            ),
                                        ),
                                    ),
                                ),
                            ),
                        ),
                    ),
                ),
            ),
        )
    }
}

impl Encode for KexInit {
    open spec fn wire(&self) -> Seq<u8> {
        message_wire(20, self.fields().wire())
    }

    open spec fn fits(&self) -> bool {
        self.fields().fits()
    }

    fn encode(&self, out: &mut Vec<u8>) -> (r: Result<(), Error>) {
        encode_message(
            20,
            &(
                &self.cookie,
                (
                    &self.kex_algorithms,
                    (
                        &self.server_host_key_algorithms,
                        (
                            &self.encryption_algorithms_client_to_server,
                            (
                                &self.encryption_algorithms_server_to_client,
                                (
                                    &self.mac_algorithms_client_to_server,
                                    (
                                        &self.mac_algorithms_server_to_client,
                                        (
                                            &self.compression_algorithms_client_to_server,
                                            (
                                                &self.compression_algorithms_server_to_client,
                                                (
                                                    &self.languages_client_to_server,
                                                    (
                                                        &self.languages_server_to_client,
                                                        (&self.first_kex_packet_follows, &Reserved),
                                                    ),
                                                ),
                                            ),
                                        ),
                                    ),
                                ),
                            ),
                        ),
                    ),
                ),
            ),
            out,
        )
    }
}

impl<'b> Decode<'b> for KexInit {
    open spec fn outcome(buf: Seq<u8>) -> Result<nat, ErrorKind> {
        message_outcome(
            20,
            buf,
            <(
                [u8; 16],
                (
                    NameList,
                    (
                        NameList,
                        (
                            NameList,
                            (
                                NameList,
                                (
                                    NameList,
                                    (
                                        NameList,
                                        (
                                            NameList,
                                            (NameList, (NameList, (NameList, (Bool, Reserved)))),
                                        ),
                                    ),
                                ),
                            ),
                        ),
                    ),
                ),
            )>::outcome(buf.skip(1)),
        )
    }

    open spec fn decoded_from(&self, buf: Seq<u8>) -> bool {
        self.fields().decoded_from(buf.skip(1))
    }

    open spec fn sound(&self) -> bool {
        self.fields().sound()
    }

    fn decode(buf: &'b [u8]) -> (r: Result<(Self, usize), Error>) {
        let (fields, n) = decode_message::<(
            [u8; 16],
            (
                NameList,
                (
                    NameList,
                    (
                        NameList,
                        (
                            NameList,
                            (
                                NameList,
                                (
                                    NameList,
                                    (
                                        NameList,
                                        (NameList, (NameList, (NameList, (Bool, Reserved)))),
                                    ),
                                ),
                            ),
                        ),
                    ),
                ),
            ),
        )>(20, buf)?;
        let (
            cookie,
            (
                kex_algorithms,
                (
                    server_host_key_algorithms,
                    (
                        encryption_algorithms_client_to_server,
                        (
                            encryption_algorithms_server_to_client,
                            (
                                mac_algorithms_client_to_server,
                                (
                                    mac_algorithms_server_to_client,
                                    (
                                        compression_algorithms_client_to_server,
                                        (
                                            compression_algorithms_server_to_client,
                                            (
                                                languages_client_to_server,
                                                (
                                                    languages_server_to_client,
                                                    (first_kex_packet_follows, _),
                                                ),
                                            ),
                                        ),
                                    ),
                                ),
                            ),
                        ),
                    ),
                ),
            ),
        ) = fields;
        Ok((
            KexInit {
                cookie,
                kex_algorithms,
                server_host_key_algorithms,
                encryption_algorithms_client_to_server,
                encryption_algorithms_server_to_client,
                mac_algorithms_client_to_server,
                mac_algorithms_server_to_client,
                compression_algorithms_client_to_server,
                compression_algorithms_server_to_client,
                languages_client_to_server,
                languages_server_to_client,
                first_kex_packet_follows,
            },
            n,
        ))
    }
}

impl<'b> Roundtrip<'b> for KexInit {
    proof fn lemma_reads_back(&self, rest: Seq<u8>) {
        lemma_message_reads_back(20, self.fields(), rest);
    }
}

/// The `SSH_MSG_NEWKEYS` message.
///
/// see <https://datatracker.ietf.org/doc/html/rfc4253#section-7.3>.
#[derive(Debug, Default, Clone)]
pub struct NewKeys;

impl NewKeys {
    /// The number of the message.
    pub const NUMBER: u8 = 21;

    /// The fields of the message in the order in which they are sent.
    pub open spec fn fields(&self) -> () {
        ()
    }
}

impl Encode for NewKeys {
    open spec fn wire(&self) -> Seq<u8> {
        message_wire(21, self.fields().wire())
    }

    open spec fn fits(&self) -> bool {
        self.fields().fits()
    }

    fn encode(&self, out: &mut Vec<u8>) -> (r: Result<(), Error>) {
        encode_message(21, &(), out)
    }
}

impl<'b> Decode<'b> for NewKeys {
    open spec fn outcome(buf: Seq<u8>) -> Result<nat, ErrorKind> {
        message_outcome(21, buf, <()>::outcome(buf.skip(1)))
    }

    open spec fn decoded_from(&self, buf: Seq<u8>) -> bool {
        self.fields().decoded_from(buf.skip(1))
    }

    open spec fn sound(&self) -> bool {
        self.fields().sound()
    }

    fn decode(buf: &'b [u8]) -> (r: Result<(Self, usize), Error>) {
        let (fields, n) = decode_message::<()>(21, buf)?;
        Ok((NewKeys, n))
    }
}

impl<'b> Roundtrip<'b> for NewKeys {
    proof fn lemma_reads_back(&self, rest: Seq<u8>) {
        lemma_message_reads_back(21, self.fields(), rest);
    }
}

/// The `SSH_MSG_KEXDH_INIT` message.
///
/// see <https://datatracker.ietf.org/doc/html/rfc4253#section-8>.
#[derive(Debug, Clone)]
pub struct KexdhInit {
    /// Exchange value sent by the client.
    pub e: MpInt,
}

impl KexdhInit {
    /// The number of the message.
    pub const NUMBER: u8 = 30;

    /// The fields of the message in the order in which they are sent.
    pub open spec fn fields(&self) -> MpInt {
        self.e
    }
}

impl Encode for KexdhInit {
    open spec fn wire(&self) -> Seq<u8> {
        message_wire(30, self.fields().wire())
    }

    open spec fn fits(&self) -> bool {
        self.fields().fits()
    }

    fn encode(&self, out: &mut Vec<u8>) -> (r: Result<(), Error>) {
        encode_message(30, &self.e, out)
    }
}

impl<'b> Decode<'b> for KexdhInit {
    open spec fn outcome(buf: Seq<u8>) -> Result<nat, ErrorKind> {
        message_outcome(30, buf, <MpInt>::outcome(buf.skip(1)))
    }

    open spec fn decoded_from(&self, buf: Seq<u8>) -> bool {
        self.fields().decoded_from(buf.skip(1))
    }

    open spec fn sound(&self) -> bool {
        self.fields().sound()
    }

    fn decode(buf: &'b [u8]) -> (r: Result<(Self, usize), Error>) {
        let (fields, n) = decode_message::<MpInt>(30, buf)?;
        let e = fields;
        Ok((KexdhInit { e }, n))
    }
}

impl<'b> Roundtrip<'b> for KexdhInit {
    proof fn lemma_reads_back(&self, rest: Seq<u8>) {
        lemma_message_reads_back(30, self.fields(), rest);
    }
}

/// The `SSH_MSG_KEXDH_REPLY` message.
///
/// see <https://datatracker.ietf.org/doc/html/rfc4253#section-8>.
#[derive(Debug, Clone)]
pub struct KexdhReply<'b> {
    /// Server's public host key.
    pub k_s: Bytes<'b>,

    /// Exchange value sent by the server.
    pub f: MpInt,

    /// Signature of the exchange hash.
    pub signature: Bytes<'b>,
}

impl<'b> KexdhReply<'b> {
    /// The number of the message.
    pub const NUMBER: u8 = 31;

    /// The fields of the message in the order in which they are sent.
    pub open spec fn fields(&self) -> (Bytes<'b>, (MpInt, Bytes<'b>)) {
        (self.k_s, (self.f, self.signature))
    }
}

impl<'b> Encode for KexdhReply<'b> {
    open spec fn wire(&self) -> Seq<u8> {
        message_wire(31, self.fields().wire())
    }

    open spec fn fits(&self) -> bool {
        self.fields().fits()
    }

    fn encode(&self, out: &mut Vec<u8>) -> (r: Result<(), Error>) {
        encode_message(31, &(&self.k_s, (&self.f, &self.signature)), out)
    }
}

impl<'b> Decode<'b> for KexdhReply<'b> {
    open spec fn outcome(buf: Seq<u8>) -> Result<nat, ErrorKind> {
        message_outcome(31, buf, <(Bytes<'b>, (MpInt, Bytes<'b>))>::outcome(buf.skip(1)))
    }

    open spec fn decoded_from(&self, buf: Seq<u8>) -> bool {
        self.fields().decoded_from(buf.skip(1))
    }

    open spec fn sound(&self) -> bool {
        self.fields().sound()
    }

    fn decode(buf: &'b [u8]) -> (r: Result<(Self, usize), Error>) {
        let (fields, n) = decode_message::<(Bytes<'b>, (MpInt, Bytes<'b>))>(31, buf)?;
        let (k_s, (f, signature)) = fields;
        Ok((KexdhReply { k_s, f, signature }, n))
    }
}

impl<'b> Roundtrip<'b> for KexdhReply<'b> {
    proof fn lemma_reads_back(&self, rest: Seq<u8>) {
        lemma_message_reads_back(31, self.fields(), rest);
    }
}

/// The `SSH_MSG_KEX_ECDH_INIT` message.
///
/// see <https://datatracker.ietf.org/doc/html/rfc5656#section-4>.
#[derive(Debug, Clone)]
pub struct KexEcdhInit<'b> {
    /// Client's ephemeral public key octet string.
    pub q_c: Bytes<'b>,
}

impl<'b> KexEcdhInit<'b> {
    /// The number of the message.
    pub const NUMBER: u8 = 30;

    /// The fields of the message in the order in which they are sent.
    pub open spec fn fields(&self) -> Bytes<'b> {
        self.q_c
    }
}

impl<'b> Encode for KexEcdhInit<'b> {
    open spec fn wire(&self) -> Seq<u8> {
        message_wire(30, self.fields().wire())
    }

    open spec fn fits(&self) -> bool {
        self.fields().fits()
    }

    fn encode(&self, out: &mut Vec<u8>) -> (r: Result<(), Error>) {
        encode_message(30, &self.q_c, out)
    }
}

impl<'b> Decode<'b> for KexEcdhInit<'b> {
    open spec fn outcome(buf: Seq<u8>) -> Result<nat, ErrorKind> {
        message_outcome(30, buf, <Bytes<'b>>::outcome(buf.skip(1)))
    }

    open spec fn decoded_from(&self, buf: Seq<u8>) -> bool {
        self.fields().decoded_from(buf.skip(1))
    }

    open spec fn sound(&self) -> bool {
        self.fields().sound()
    }

    fn decode(buf: &'b [u8]) -> (r: Result<(Self, usize), Error>) {
        let (fields, n) = decode_message::<Bytes<'b>>(30, buf)?;
        let q_c = fields;
        Ok((KexEcdhInit { q_c }, n))
    }
}

impl<'b> Roundtrip<'b> for KexEcdhInit<'b> {
    proof fn lemma_reads_back(&self, rest: Seq<u8>) {
        lemma_message_reads_back(30, self.fields(), rest);
    }
}

/// The `SSH_MSG_KEX_ECDH_REPLY` message.
///
/// see <https://datatracker.ietf.org/doc/html/rfc5656#section-4>.
#[derive(Debug, Clone)]
pub struct KexEcdhReply<'b> {
    /// Server's public host key.
    pub k_s: Bytes<'b>,

    /// Server's ephemeral public key octet string.
    pub q_s: Bytes<'b>,

    /// Signature of the exchange hash.
    pub signature: Bytes<'b>,
}

impl<'b> KexEcdhReply<'b> {
    /// The number of the message.
    pub const NUMBER: u8 = 31;

    /// The fields of the message in the order in which they are sent.
    pub open spec fn fields(&self) -> (Bytes<'b>, (Bytes<'b>, Bytes<'b>)) {
        (self.k_s, (self.q_s, self.signature))
    }
}

impl<'b> Encode for KexEcdhReply<'b> {
    open spec fn wire(&self) -> Seq<u8> {
        message_wire(31, self.fields().wire())
    }

    open spec fn fits(&self) -> bool {
        self.fields().fits()
    }

    fn encode(&self, out: &mut Vec<u8>) -> (r: Result<(), Error>) {
        encode_message(31, &(&self.k_s, (&self.q_s, &self.signature)), out)
    }
}

impl<'b> Decode<'b> for KexEcdhReply<'b> {
    open spec fn outcome(buf: Seq<u8>) -> Result<nat, ErrorKind> {
        message_outcome(31, buf, <(Bytes<'b>, (Bytes<'b>, Bytes<'b>))>::outcome(buf.skip(1)))
    }

    open spec fn decoded_from(&self, buf: Seq<u8>) -> bool {
        self.fields().decoded_from(buf.skip(1))
    }

    open spec fn sound(&self) -> bool {
        self.fields().sound()
    }

    fn decode(buf: &'b [u8]) -> (r: Result<(Self, usize), Error>) {
        let (fields, n) = decode_message::<(Bytes<'b>, (Bytes<'b>, Bytes<'b>))>(31, buf)?;
        let (k_s, (q_s, signature)) = fields;
        Ok((KexEcdhReply { k_s, q_s, signature }, n))
    }
}

impl<'b> Roundtrip<'b> for KexEcdhReply<'b> {
    proof fn lemma_reads_back(&self, rest: Seq<u8>) {
        lemma_message_reads_back(31, self.fields(), rest);
    }
}

} // verus!
