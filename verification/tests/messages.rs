//! Messages, and payloads whose shape a tag names.

use ssh_packet::arch::{Bool, Bytes, MpInt, NameList, StringAscii, StringUtf8};
use ssh_packet::connect::{
    ChannelData, ChannelExtendedData, ChannelOpen, ChannelOpenContext, ChannelOpenFailure,
    ChannelOpenFailureReason, ChannelRequest, ChannelRequestContext, DataType, GlobalRequest,
    GlobalRequestContext, RequestSuccess,
};
use ssh_packet::kex::{Ecdh, Lengthed};
use ssh_packet::packet::{IntoPacket, Packet};
use ssh_packet::sig::Publickey;
use ssh_packet::trans::{
    Disconnect, DisconnectReason, Ignore, KexEcdhReply, KexInit, KexdhInit, NewKeys,
    ServiceRequest, Unimplemented,
};
use ssh_packet::userauth::{
    Banner, Failure, InfoRequest, InfoRequestPrompt, InfoResponse, Method, Request,
};
use ssh_packet::wire::{from_bytes, to_bytes, Decode, Encode, Reserved};
use ssh_packet::{Error, ErrorKind};

fn kind<T: std::fmt::Debug>(r: Result<T, Error>) -> ErrorKind {
    r.expect_err("an error was expected").kind()
}

fn string(text: &[u8]) -> Vec<u8> {
    let mut wire = (text.len() as u32).to_be_bytes().to_vec();
    wire.extend_from_slice(text);
    wire
}

fn names(list: &[&str]) -> NameList {
    NameList::new(list.iter().map(|name| name.as_bytes().to_vec()).collect()).unwrap()
}

#[test]
fn disconnect_is_written_field_by_field() {
    let message = Disconnect {
        reason: DisconnectReason::ByApplication,
        description: StringUtf8::new("bye"),
        language: StringAscii::new("en"),
    };
    let mut expected = vec![1, 0, 0, 0, 11];
    expected.extend(string(b"bye"));
    expected.extend(string(b"en"));
    let wire = to_bytes(&message).unwrap();
    assert_eq!(wire, expected);
    let (back, taken) = Disconnect::decode(&wire).unwrap();
    assert_eq!(taken, wire.len());
    assert_eq!(back.reason, DisconnectReason::ByApplication);
    assert_eq!(back.description.as_str(), "bye");
    assert_eq!(back.language.as_str(), "en");
}

#[test]
fn disconnect_reason_codes() {
    assert_eq!(DisconnectReason::HostNotAllowedToConnect.to_code(), 1);
    assert_eq!(DisconnectReason::IllegalUserName.to_code(), 15);
    assert_eq!(DisconnectReason::from_code(5), DisconnectReason::MacError);
    assert_eq!(DisconnectReason::from_code(16), DisconnectReason::Other(16));
    assert_eq!(DisconnectReason::from_code(0), DisconnectReason::Other(0));
    assert_eq!(DisconnectReason::Other(0xfe00_0000).to_code(), 0xfe00_0000);
    for code in 0..32 {
        assert_eq!(DisconnectReason::from_code(code).to_code(), code);
    }
    assert_eq!(ChannelOpenFailureReason::from_code(2), ChannelOpenFailureReason::ConnectFailed);
    assert_eq!(ChannelOpenFailureReason::from_code(5), ChannelOpenFailureReason::Other(5));
    assert_eq!(ChannelOpenFailureReason::ResourceShortage.to_code(), 4);
}

#[test]
fn a_message_with_another_number_is_an_unknown_variant() {
    let wire = to_bytes(&Unimplemented { seq: 7 }).unwrap();
    assert_eq!(wire, vec![3, 0, 0, 0, 7]);
    assert_eq!(Unimplemented::decode(&wire).unwrap().0.seq, 7);
    match ServiceRequest::decode(&wire) {
        Err(Error::UnknownVariant(tag)) => assert_eq!(tag, vec![3]),
        other => panic!("not refused: {other:?}"),
    }
    assert_eq!(kind(NewKeys::decode(&[])), ErrorKind::TruncatedInput);
    assert_eq!(kind(Unimplemented::decode(&[3, 0, 0])), ErrorKind::TruncatedInput);
    assert_eq!(to_bytes(&NewKeys).unwrap(), vec![21]);
    assert_eq!(NewKeys::decode(&[21, 9]).unwrap().1, 1);
    assert_eq!(to_bytes(&RequestSuccess).unwrap(), vec![81]);
}

#[test]
fn simple_messages_round_trip() {
    let wire = to_bytes(&Ignore { data: Bytes::borrowed(b"noise") }).unwrap();
    assert_eq!(wire[0], 2);
    assert_eq!(Ignore::decode(&wire).unwrap().0.data.as_ref(), b"noise");

    let debug = ssh_packet::trans::Debug {
        always_display: Bool(true),
        message: StringUtf8::new("détail"),
        language: StringAscii::new(""),
    };
    let wire = to_bytes(&debug).unwrap();
    let back: ssh_packet::trans::Debug = from_bytes(&wire).unwrap();
    assert_eq!(back.always_display, Bool(true));
    assert_eq!(back.message.as_str(), "détail");

    let wire = to_bytes(&KexdhInit { e: MpInt::from_i64(0x80) }).unwrap();
    assert_eq!(wire, vec![30, 0, 0, 0, 2, 0, 0x80]);
    assert_eq!(KexdhInit::decode(&wire).unwrap().0.e, MpInt::from_i64(0x80));

    let reply = KexEcdhReply {
        k_s: Bytes::borrowed(b"host"),
        q_s: Bytes::borrowed(b"point"),
        signature: Bytes::borrowed(b"sig"),
    };
    let wire = to_bytes(&reply).unwrap();
    let (back, taken) = KexEcdhReply::decode(&wire).unwrap();
    assert_eq!(taken, 1 + 8 + 9 + 7);
    assert_eq!(back.q_s.as_ref(), b"point");
    assert_eq!(back.signature.as_ref(), b"sig");

    let failure = Failure {
        continue_with: names(&["publickey", "password"]),
        partial_success: Bool(false),
    };
    let wire = to_bytes(&failure).unwrap();
    let mut expected = vec![51];
    expected.extend(string(b"publickey,password"));
    expected.push(0);
    assert_eq!(wire, expected);
    assert_eq!(Failure::decode(&wire).unwrap().0.continue_with, failure.continue_with);

    let banner = Banner { message: StringUtf8::new("hi"), language: StringAscii::new("") };
    assert_eq!(Banner::decode(&to_bytes(&banner).unwrap()).unwrap().0.message.as_str(), "hi");
}

fn kexinit() -> KexInit {
    KexInit {
        cookie: [7; 16],
        kex_algorithms: names(&["curve25519-sha256"]),
        server_host_key_algorithms: names(&["ssh-ed25519", "rsa-sha2-512"]),
        encryption_algorithms_client_to_server: names(&["aes128-ctr"]),
        encryption_algorithms_server_to_client: names(&["aes128-ctr"]),
        mac_algorithms_client_to_server: names(&["hmac-sha2-256"]),
        mac_algorithms_server_to_client: names(&["hmac-sha2-256"]),
        compression_algorithms_client_to_server: names(&["zlib", "none"]),
        compression_algorithms_server_to_client: names(&["none"]),
        languages_client_to_server: names(&[]),
        languages_server_to_client: names(&[]),
        first_kex_packet_follows: Bool(false),
    }
}

#[test]
fn kexinit_round_trip() {
    let message = kexinit();
    let wire = to_bytes(&message).unwrap();
    assert_eq!(wire[0], 20);
    assert_eq!(&wire[1..17], &[7; 16]);
    assert_eq!(&wire[17..21], &[0, 0, 0, 17]);
    assert_eq!(&wire[wire.len() - 5..], &[0, 0, 0, 0, 0]);
    let (back, taken) = KexInit::decode(&wire).unwrap();
    assert_eq!(taken, wire.len());
    assert_eq!(back.cookie, [7; 16]);
    assert_eq!(back.server_host_key_algorithms, message.server_host_key_algorithms);
    assert_eq!(
        back.compression_algorithms_client_to_server,
        message.compression_algorithms_client_to_server
    );
    assert!(back.languages_server_to_client.is_empty());
    // The reserved field is read whatever it holds.
    let mut other = wire.clone();
    let last = other.len() - 1;
    other[last] = 9;
    assert_eq!(KexInit::decode(&other).unwrap().1, wire.len());
    assert_eq!(kind(KexInit::decode(&wire[..wire.len() - 1])), ErrorKind::TruncatedInput);
    assert_eq!(to_bytes(&Reserved).unwrap(), vec![0, 0, 0, 0]);
}

#[test]
fn tags_of_the_shapes() {
    assert_eq!(Method::NoAuth.as_ascii().as_str(), "none");
    assert_eq!(
        Method::KeyboardInteractive {
            language: StringAscii::new(""),
            submethods: StringUtf8::new("")
        }
        .as_ascii()
        .as_str(),
        "keyboard-interactive"
    );
    assert_eq!(ChannelOpenContext::Session.as_ascii().as_str(), "session");
    assert_eq!(
        ChannelOpenContext::X11 { originator_address: StringAscii::new("::1"), originator_port: 1 }
            .as_ascii()
            .as_str(),
        "x11"
    );
    assert_eq!(ChannelRequestContext::Shell.as_ascii().as_str(), "shell");
    assert_eq!(
        ChannelRequestContext::ExitStatus { code: 0 }.as_ascii().as_str(),
        "exit-status"
    );
    assert_eq!(
        ChannelRequestContext::WindowChange {
            width_chars: 1,
            height_chars: 2,
            width_pixels: 3,
            height_pixels: 4
        }
        .as_ascii()
        .as_str(),
        "window-change"
    );
    assert_eq!(
        GlobalRequestContext::CancelTcpipForward { bind_address: Bytes::default(), bind_port: 0 }
            .as_ascii()
            .as_str(),
        "cancel-tcpip-forward"
    );
}

#[test]
fn channel_request_writes_the_tag_of_its_context() {
    let request = ChannelRequest {
        recipient_channel: 3,
        want_reply: Bool(true),
        context: ChannelRequestContext::Exec { command: Bytes::borrowed(b"ls") },
    };
    let mut expected = vec![98, 0, 0, 0, 3];
    expected.extend(string(b"exec"));
    expected.push(1);
    expected.extend(string(b"ls"));
    let wire = to_bytes(&request).unwrap();
    assert_eq!(wire, expected);
    let (back, taken) = ChannelRequest::decode(&wire).unwrap();
    assert_eq!(taken, wire.len());
    assert_eq!(back.recipient_channel, 3);
    assert_eq!(back.want_reply, Bool(true));
    match back.context {
        ChannelRequestContext::Exec { command } => assert_eq!(command.as_ref(), b"ls"),
        other => panic!("another shape: {other:?}"),
    }
}

#[test]
fn channel_request_of_every_shape_round_trips() {
    let contexts = vec![
        ChannelRequestContext::Pty {
            term: Bytes::borrowed(b"xterm"),
            width_chars: 80,
            height_chars: 24,
            width_pixels: 0,
            height_pixels: 0,
            modes: Bytes::borrowed(&[0]),
        },
        ChannelRequestContext::X11 {
            single_connection: Bool(false),
            x11_authentication_protocol: Bytes::borrowed(b"MIT-MAGIC-COOKIE-1"),
            x11_authentication_cookie: Bytes::borrowed(b"abcd"),
            x11_screen_number: 0,
        },
        ChannelRequestContext::Env { name: Bytes::borrowed(b"A"), value: Bytes::borrowed(b"b") },
        ChannelRequestContext::Shell,
        ChannelRequestContext::Exec { command: Bytes::borrowed(b"true") },
        ChannelRequestContext::Subsystem { name: Bytes::borrowed(b"sftp") },
        ChannelRequestContext::WindowChange {
            width_chars: 1,
            height_chars: 2,
            width_pixels: 3,
            height_pixels: 4,
        },
        ChannelRequestContext::XonXoff { client_can_do: Bool(true) },
        ChannelRequestContext::Signal { name: Bytes::borrowed(b"TERM") },
        ChannelRequestContext::ExitStatus { code: 2 },
        ChannelRequestContext::ExitSignal {
            name: Bytes::borrowed(b"KILL"),
            core_dumped: Bool(false),
            error_message: StringUtf8::new("tué"),
            language: StringAscii::new("fr"),
        },
    ];
    for context in contexts {
        let tag = context.as_ascii();
        let request = ChannelRequest { recipient_channel: 1, want_reply: Bool(false), context };
        let wire = to_bytes(&request).unwrap();
        assert_eq!(&wire[5..9], &(tag.as_str().len() as u32).to_be_bytes());
        assert_eq!(&wire[9..9 + tag.as_str().len()], tag.as_bytes());
        let (back, taken) = ChannelRequest::decode(&wire).unwrap();
        assert_eq!(taken, wire.len());
        assert_eq!(back.context.as_ascii(), tag);
        assert_eq!(to_bytes(&back).unwrap(), wire);
    }
}

#[test]
fn an_unknown_tag_is_refused_whatever_follows_it() {
    let mut wire = vec![98, 0, 0, 0, 3];
    wire.extend(string(b"teleport"));
    wire.push(1);
    for payload in [vec![], vec![0, 0, 0, 2, b'l', b's'], vec![0xff; 40]] {
        let mut buffer = wire.clone();
        buffer.extend(payload);
        match ChannelRequest::decode(&buffer) {
            Err(Error::UnknownVariant(tag)) => assert_eq!(tag, b"teleport".to_vec()),
            other => panic!("not refused: {other:?}"),
        }
    }
    let mut open = vec![90];
    open.extend(string(b"sessions"));
    open.extend([0; 12]);
    assert_eq!(kind(ChannelOpen::decode(&open)), ErrorKind::UnknownVariant);
    let mut global = vec![80];
    global.extend(string(b""));
    global.push(0);
    assert_eq!(kind(GlobalRequest::decode(&global)), ErrorKind::UnknownVariant);
}

#[test]
fn a_tag_that_is_not_ascii_is_a_constraint_violation() {
    let mut wire = vec![98, 0, 0, 0, 3];
    wire.extend(string("exéc".as_bytes()));
    wire.push(1);
    assert_eq!(kind(ChannelRequest::decode(&wire)), ErrorKind::ConstraintViolation);
}

#[test]
fn channel_open_and_global_request_round_trip() {
    let open = ChannelOpen {
        sender_channel: 1,
        initial_window_size: 2,
        maximum_packet_size: 3,
        context: ChannelOpenContext::DirectTcpip {
            address: StringAscii::new("example.org"),
            port: 80,
            originator_address: StringAscii::new("127.0.0.1"),
            originator_port: 1234,
        },
    };
    let wire = to_bytes(&open).unwrap();
    let mut expected = vec![90];
    expected.extend(string(b"direct-tcpip"));
    expected.extend([0, 0, 0, 1, 0, 0, 0, 2, 0, 0, 0, 3]);
    expected.extend(string(b"example.org"));
    expected.extend([0, 0, 0, 80]);
    expected.extend(string(b"127.0.0.1"));
    expected.extend([0, 0, 0x04, 0xd2]);
    assert_eq!(wire, expected);
    let back = ChannelOpen::decode(&wire).unwrap().0;
    assert_eq!(back.maximum_packet_size, 3);
    assert_eq!(to_bytes(&back).unwrap(), wire);

    let session = ChannelOpen {
        sender_channel: 0,
        initial_window_size: 0,
        maximum_packet_size: 0,
        context: ChannelOpenContext::Session,
    };
    let wire = to_bytes(&session).unwrap();
    assert_eq!(wire.len(), 1 + 4 + 7 + 12);
    assert_eq!(ChannelOpen::decode(&wire).unwrap().1, wire.len());

    let global = GlobalRequest {
        want_reply: Bool(true),
        context: GlobalRequestContext::TcpipForward {
            bind_address: Bytes::borrowed(b"0.0.0.0"),
            bind_port: 22,
        },
    };
    let wire = to_bytes(&global).unwrap();
    let mut expected = vec![80];
    expected.extend(string(b"tcpip-forward"));
    expected.push(1);
    expected.extend(string(b"0.0.0.0"));
    expected.extend([0, 0, 0, 22]);
    assert_eq!(wire, expected);
    match GlobalRequest::decode(&wire).unwrap().0.context {
        GlobalRequestContext::TcpipForward { bind_address, bind_port } => {
            assert_eq!((bind_address.as_ref(), bind_port), (&b"0.0.0.0"[..], 22));
        }
        other => panic!("another shape: {other:?}"),
    }
}

#[test]
fn userauth_request_with_and_without_what_may_be_left_out() {
    let unsigned = Request {
        username: StringUtf8::new("bill"),
        service_name: StringAscii::new("ssh-connection"),
        method: Method::Publickey {
            algorithm: Bytes::borrowed(b"ssh-ed25519"),
            blob: Bytes::borrowed(b"key"),
            signature: None,
        },
    };
    let mut expected = vec![50];
    expected.extend(string(b"bill"));
    expected.extend(string(b"ssh-connection"));
    expected.extend(string(b"publickey"));
    expected.push(0);
    expected.extend(string(b"ssh-ed25519"));
    expected.extend(string(b"key"));
    let wire = to_bytes(&unsigned).unwrap();
    assert_eq!(wire, expected);
    match Request::decode(&wire).unwrap().0.method {
        Method::Publickey { signature, .. } => assert!(signature.is_none()),
        other => panic!("another shape: {other:?}"),
    }

    let signed = Request {
        username: StringUtf8::new("bill"),
        service_name: StringAscii::new("ssh-connection"),
        method: Method::Publickey {
            algorithm: Bytes::borrowed(b"ssh-ed25519"),
            blob: Bytes::borrowed(b"key"),
            signature: Some(Bytes::borrowed(b"sig")),
        },
    };
    expected[1 + 8 + 18 + 13] = 1;
    expected.extend(string(b"sig"));
    let wire = to_bytes(&signed).unwrap();
    assert_eq!(wire, expected);
    let (back, taken) = Request::decode(&wire).unwrap();
    assert_eq!(taken, wire.len());
    match back.method {
        Method::Publickey { algorithm, blob, signature } => {
            assert_eq!(algorithm.as_ref(), b"ssh-ed25519");
            assert_eq!(blob.as_ref(), b"key");
            assert_eq!(signature.unwrap().as_ref(), b"sig");
        }
        other => panic!("another shape: {other:?}"),
    }
    // The flag says that a signature follows, and none does.
    assert_eq!(kind(Request::decode(&wire[..wire.len() - 7])), ErrorKind::TruncatedInput);

    let password = Request {
        username: StringUtf8::new("bill"),
        service_name: StringAscii::new("ssh-connection"),
        method: Method::Password {
            password: StringUtf8::new("old"),
            new: Some(StringUtf8::new("nouveau")),
        },
    };
    let wire = to_bytes(&password).unwrap();
    match Request::decode(&wire).unwrap().0.method {
        Method::Password { password, new } => {
            assert_eq!(password.as_str(), "old");
            assert_eq!(new.unwrap().as_str(), "nouveau");
        }
        other => panic!("another shape: {other:?}"),
    }
    let none = Request {
        username: StringUtf8::new(""),
        service_name: StringAscii::new("s"),
        method: Method::NoAuth,
    };
    let wire = to_bytes(&none).unwrap();
    assert_eq!(&wire[wire.len() - 8..], &string(b"none")[..]);
    assert!(matches!(Request::decode(&wire).unwrap().0.method, Method::NoAuth));
}

#[test]
fn lists_are_sent_behind_their_number() {
    let request = InfoRequest {
        name: StringUtf8::new("n"),
        instruction: StringUtf8::new("i"),
        language: StringAscii::new(""),
        prompts: vec![
            InfoRequestPrompt { prompt: StringUtf8::new("Password: "), echo: Bool(false) },
            InfoRequestPrompt { prompt: StringUtf8::new("Code: "), echo: Bool(true) },
        ],
    };
    let mut expected = vec![60];
    expected.extend(string(b"n"));
    expected.extend(string(b"i"));
    expected.extend(string(b""));
    expected.extend([0, 0, 0, 2]);
    expected.extend(string(b"Password: "));
    expected.push(0);
    expected.extend(string(b"Code: "));
    expected.push(1);
    let wire = to_bytes(&request).unwrap();
    assert_eq!(wire, expected);
    let (back, taken) = InfoRequest::decode(&wire).unwrap();
    assert_eq!(taken, wire.len());
    assert_eq!(back.prompts.len(), 2);
    assert_eq!(back.prompts[1].prompt.as_str(), "Code: ");
    assert_eq!(back.prompts[1].echo, Bool(true));
    // One prompt is announced that is not there.
    let mut short = wire.clone();
    short[1 + 5 + 5 + 4 + 3] = 3;
    assert_eq!(kind(InfoRequest::decode(&short)), ErrorKind::TruncatedInput);

    let response = InfoResponse { responses: vec![StringUtf8::new("a"), StringUtf8::new("")] };
    let wire = to_bytes(&response).unwrap();
    assert_eq!(wire, vec![61, 0, 0, 0, 2, 0, 0, 0, 1, b'a', 0, 0, 0, 0]);
    assert_eq!(InfoResponse::decode(&wire).unwrap().0.responses.len(), 2);
    let empty = InfoResponse { responses: vec![] };
    assert_eq!(to_bytes(&empty).unwrap(), vec![61, 0, 0, 0, 0]);
}

#[test]
fn extended_data_has_a_type_that_is_not_zero() {
    assert!(DataType::new(0).is_none());
    assert_eq!(DataType::new(7).unwrap().get(), 7);
    assert_eq!(DataType::stderr().get(), 1);
    let message = ChannelExtendedData {
        recipient_channel: 9,
        data_type: DataType::stderr(),
        data: Bytes::borrowed(b"oops"),
    };
    let wire = to_bytes(&message).unwrap();
    assert_eq!(&wire[..9], &[95, 0, 0, 0, 9, 0, 0, 0, 1]);
    assert_eq!(ChannelExtendedData::decode(&wire).unwrap().0.data.as_ref(), b"oops");
    let mut zero = wire.clone();
    zero[8] = 0;
    assert_eq!(kind(ChannelExtendedData::decode(&zero)), ErrorKind::ConstraintViolation);
    let data = ChannelData { recipient_channel: 1, data: Bytes::borrowed(b"x") };
    assert_eq!(to_bytes(&data).unwrap(), vec![94, 0, 0, 0, 1, 0, 0, 0, 1, b'x']);
    let failure = ChannelOpenFailure {
        recipient_channel: 1,
        reason: ChannelOpenFailureReason::ConnectFailed,
        description: StringUtf8::new(""),
        language: StringAscii::new(""),
    };
    assert_eq!(
        to_bytes(&failure).unwrap(),
        vec![92, 0, 0, 0, 1, 0, 0, 0, 2, 0, 0, 0, 0, 0, 0, 0, 0]
    );
}

#[test]
fn lengthed_sends_the_size_first() {
    let wire = to_bytes(&Lengthed(Bool(true))).unwrap();
    assert_eq!(wire, vec![0, 0, 0, 1, 1]);
    let wire = to_bytes(&Lengthed(Bytes::borrowed(b"ab"))).unwrap();
    assert_eq!(wire, vec![0, 0, 0, 6, 0, 0, 0, 2, b'a', b'b']);
    let (back, taken) = Lengthed::<Bytes>::decode(&wire).unwrap();
    assert_eq!(taken, 10);
    assert_eq!(back.get().as_ref(), b"ab");
    assert_eq!(back.into_inner().into_vec(), b"ab".to_vec());
    let message = kexinit();
    let inner = to_bytes(&message).unwrap();
    let wire = to_bytes(&Lengthed(&message)).unwrap();
    assert_eq!(&wire[..4], &(inner.len() as u32).to_be_bytes());
    assert_eq!(&wire[4..], &inner[..]);
}

#[test]
fn lengthed_refuses_a_size_that_is_not_the_size_of_the_value() {
    // The value takes one byte of the two that the size announces.
    assert_eq!(
        kind(Lengthed::<Bool>::decode(&[0, 0, 0, 2, 1, 1])),
        ErrorKind::ConstraintViolation
    );
    // The value needs more than the size announces.
    assert_eq!(
        kind(Lengthed::<u32>::decode(&[0, 0, 0, 2, 1, 1, 1, 1])),
        ErrorKind::TruncatedInput
    );
    assert_eq!(kind(Lengthed::<Bool>::decode(&[0, 0, 0, 2, 1])), ErrorKind::TruncatedInput);
    assert_eq!(
        kind(Lengthed::<Bool>::decode(&[0, 1, 0, 0, 1])),
        ErrorKind::OversizedPacket
    );
}

#[test]
fn lengthed_refuses_a_value_above_the_maximum_size() {
    let large = Lengthed(Bytes::owned(vec![0; 70_000]));
    assert_eq!(kind(to_bytes(&large)), ErrorKind::EncodingOverflow);
    let mut out = vec![1, 2, 3];
    assert!(large.encode(&mut out).is_err());
    assert_eq!(&out[..3], &[1, 2, 3]);
    let fitting = Lengthed(Bytes::owned(vec![0; 65_531]));
    assert_eq!(to_bytes(&fitting).unwrap().len(), 4 + 65_535);
}

#[test]
fn exchange_hash_input_keeps_the_order_of_the_fields() {
    let client = kexinit();
    let mut server = kexinit();
    server.cookie = [9; 16];
    let exchange = Ecdh {
        v_c: Bytes::borrowed(b"SSH-2.0-client"),
        v_s: Bytes::borrowed(b"SSH-2.0-server"),
        i_c: Lengthed(&client),
        i_s: Lengthed(&server),
        k_s: Bytes::borrowed(b"hostkey"),
        q_c: Bytes::borrowed(b"qc"),
        q_s: Bytes::borrowed(b"qs"),
        k: MpInt::from_i64(0x80),
    };
    let mut expected = Vec::new();
    expected.extend(string(b"SSH-2.0-client"));
    expected.extend(string(b"SSH-2.0-server"));
    expected.extend(string(&to_bytes(&client).unwrap()));
    expected.extend(string(&to_bytes(&server).unwrap()));
    expected.extend(string(b"hostkey"));
    expected.extend(string(b"qc"));
    expected.extend(string(b"qs"));
    expected.extend([0, 0, 0, 2, 0, 0x80]);
    assert_eq!(exchange.hash_input().unwrap(), expected);
    assert_eq!(to_bytes(&exchange).unwrap(), expected);
}

#[test]
fn signed_data_of_a_public_key_request() {
    let data = Publickey {
        session_id: Bytes::borrowed(b"session"),
        username: StringUtf8::new("bill"),
        service_name: StringAscii::new("ssh-connection"),
        algorithm: Bytes::borrowed(b"ssh-ed25519"),
        blob: Bytes::borrowed(b"key"),
    };
    let mut expected = Vec::new();
    expected.extend(string(b"session"));
    expected.push(50);
    expected.extend(string(b"bill"));
    expected.extend(string(b"ssh-connection"));
    expected.extend(string(b"publickey"));
    expected.push(1);
    expected.extend(string(b"ssh-ed25519"));
    expected.extend(string(b"key"));
    assert_eq!(data.message().unwrap(), expected);
}

#[test]
fn packets_carry_messages() {
    let message = Unimplemented { seq: 258 };
    let packet = (&message).into_packet();
    assert_eq!(packet.payload(), &[3, 0, 0, 1, 2]);
    assert_eq!(packet.to::<Unimplemented>().unwrap().seq, 258);
    assert_eq!(kind(packet.to::<NewKeys>()), ErrorKind::UnknownVariant);
    let same = packet.clone().into_packet();
    assert_eq!(same.0, packet.0);
    assert_eq!(kind(Packet(vec![]).to::<Unimplemented>()), ErrorKind::TruncatedInput);
}
