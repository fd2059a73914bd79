//! The primitive values of the wire format.

use ssh_packet::arch::{Bool, Bytes, MpInt, NameList, Secret, StringAscii, StringUtf8};
use ssh_packet::wire::{from_bytes, to_bytes, Decode, Encode};
use ssh_packet::{Error, ErrorKind};

fn kind<T: std::fmt::Debug>(r: Result<T, Error>) -> ErrorKind {
    r.expect_err("an error was expected").kind()
}

#[test]
fn u32_is_written_most_significant_byte_first() {
    assert_eq!(to_bytes(&0x0102_0304u32).unwrap(), vec![1, 2, 3, 4]);
    assert_eq!(to_bytes(&699921578u32).unwrap(), vec![0x29, 0xb7, 0xf4, 0xaa]);
    let (value, taken) = u32::decode(&[0x29, 0xb7, 0xf4, 0xaa, 0xff]).unwrap();
    assert_eq!((value, taken), (699921578, 4));
    assert_eq!(kind(u32::decode(&[1, 2, 3])), ErrorKind::TruncatedInput);
}

#[test]
fn bytes_round_trip() {
    for content in [vec![], vec![0u8], vec![1, 2, 3], vec![0xff; 300]] {
        let wire = to_bytes(&Bytes::owned(content.clone())).unwrap();
        assert_eq!(wire.len(), 4 + content.len());
        assert_eq!(&wire[..4], &(content.len() as u32).to_be_bytes());
        let (back, taken) = Bytes::decode(&wire).unwrap();
        assert_eq!(taken, wire.len());
        assert_eq!(back.into_vec(), content);
    }
}

#[test]
fn bytes_leave_what_follows_alone() {
    let wire = [0, 0, 0, 2, 7, 8, 9, 10];
    let (bytes, taken) = Bytes::decode(&wire).unwrap();
    assert_eq!(bytes.as_ref(), &[7, 8]);
    assert_eq!(taken, 6);
}

#[test]
fn bytes_longer_than_the_buffer_are_truncated() {
    assert_eq!(kind(Bytes::decode(&[0, 0, 0])), ErrorKind::TruncatedInput);
    assert_eq!(kind(Bytes::decode(&[0, 0, 0, 3, 1, 2])), ErrorKind::TruncatedInput);
    assert_eq!(
        kind(Bytes::decode(&[0xff, 0xff, 0xff, 0xff, 1, 2])),
        ErrorKind::TruncatedInput
    );
}

#[test]
fn bytes_owned_and_borrowed_read_alike() {
    let buffer = [1u8, 2, 3];
    let owned = Bytes::owned(buffer.to_vec());
    let borrowed = Bytes::borrowed(&buffer);
    assert_eq!(owned.as_ref(), borrowed.as_ref());
    assert_eq!(owned.len(), 3);
    assert!(!borrowed.is_empty());
    assert_eq!(to_bytes(&owned).unwrap(), to_bytes(&borrowed).unwrap());
    assert_eq!(borrowed.clone().into_vec(), vec![1, 2, 3]);
    assert_eq!(borrowed.to_owned().into_vec(), vec![1, 2, 3]);
    assert_eq!(Bytes::from(vec![4u8, 5]).into_vec(), vec![4, 5]);
    assert_eq!(Bytes::from(&buffer[..]).into_vec(), vec![1, 2, 3]);
    assert!(Bytes::default().is_empty());
}

#[test]
fn bytes_zeroize_empties_an_owned_buffer() {
    let mut secret = Bytes::owned(vec![1, 2, 3]);
    secret.zeroize();
    assert_eq!(secret.as_ref(), &[] as &[u8]);
    assert!(secret.is_empty());
}

#[test]
fn bytes_zeroize_leaves_a_borrowed_buffer() {
    let buffer = [1u8, 2, 3];
    let mut view = Bytes::borrowed(&buffer);
    view.zeroize();
    assert_eq!(view.as_ref(), &[1, 2, 3]);
}

#[test]
fn a_secret_is_erased() {
    let mut key = Secret::new(vec![0xde, 0xad, 0xbe, 0xef]);
    assert_eq!(key.expose(), &[0xde, 0xad, 0xbe, 0xef]);
    key.erase();
    assert_eq!(key.expose(), &[] as &[u8]);
    drop(Secret::new(vec![1, 2, 3]));
}

#[test]
fn boolean_decodes_leniently_and_encodes_canonically() {
    assert_eq!(Bool::decode(&[0x00]).unwrap().0, Bool(false));
    assert_eq!(Bool::decode(&[0x05]).unwrap().0, Bool(true));
    assert_eq!(Bool::decode(&[0x01]).unwrap().0, Bool(true));
    assert_eq!(to_bytes(&Bool(true)).unwrap(), vec![0x01]);
    assert_eq!(to_bytes(&Bool(false)).unwrap(), vec![0x00]);
    assert_eq!(kind(Bool::decode(&[])), ErrorKind::TruncatedInput);
    assert!(Bool::from(true).get());
}

#[test]
fn utf8_round_trip() {
    for text in ["", "hello", "héllo wörld", "utf∞", "\u{10348}\u{0}"] {
        let wire = to_bytes(&StringUtf8::new(text)).unwrap();
        assert_eq!(&wire[..4], &(text.len() as u32).to_be_bytes());
        assert_eq!(&wire[4..], text.as_bytes());
        let (back, taken) = StringUtf8::decode(&wire).unwrap();
        assert_eq!(taken, wire.len());
        assert_eq!(back.as_str(), text);
        assert_eq!(back.into_string(), text.to_string());
    }
}

#[test]
fn utf8_refuses_what_is_not_utf8() {
    assert_eq!(
        kind(StringUtf8::decode(&[0, 0, 0, 1, 0xff])),
        ErrorKind::ConstraintViolation
    );
    assert_eq!(
        kind(StringUtf8::decode(&[0, 0, 0, 2, 0xc3, 0x28])),
        ErrorKind::ConstraintViolation
    );
    assert_eq!(
        kind(StringUtf8::from_bytes(vec![0xed, 0xa0, 0x80])),
        ErrorKind::ConstraintViolation
    );
    assert_eq!(kind(StringUtf8::decode(&[0, 0, 0, 4, b'a'])), ErrorKind::TruncatedInput);
    assert_eq!(StringUtf8::from_bytes(b"abc".to_vec()).unwrap().as_str(), "abc");
    assert_eq!(StringUtf8::default().as_str(), "");
}

#[test]
fn ascii_strips_what_is_not_ascii() {
    assert_eq!(StringAscii::new("héllo wörld∞").as_str(), "hllo wrld");
    assert_eq!(StringAscii::new("ssh-userauth").as_str(), "ssh-userauth");
    assert_eq!(StringAscii::new("").into_string(), "");
    assert_eq!(StringAscii::new("\u{7f}\u{80}").as_bytes(), &[0x7f]);
}

#[test]
fn ascii_round_trip_and_refusal() {
    let wire = to_bytes(&StringAscii::new("ssh-connection")).unwrap();
    assert_eq!(&wire[..4], &[0, 0, 0, 14]);
    assert_eq!(&wire[4..], b"ssh-connection");
    let (back, taken) = StringAscii::decode(&wire).unwrap();
    assert_eq!((back.as_str(), taken), ("ssh-connection", 18));
    // Valid UTF-8 that is not ASCII is refused too.
    assert_eq!(
        kind(StringAscii::decode(&[0, 0, 0, 2, 0xc3, 0xa9])),
        ErrorKind::ConstraintViolation
    );
    assert_eq!(kind(StringAscii::from_bytes(vec![b'a', 0x80])), ErrorKind::ConstraintViolation);
    assert_eq!(StringAscii::from_bytes(b"none".to_vec()).unwrap().as_str(), "none");
}

fn names(list: &[&str]) -> Vec<Vec<u8>> {
    list.iter().map(|name| name.as_bytes().to_vec()).collect()
}

#[test]
fn namelist_zlib_none() {
    let list = NameList::new(names(&["zlib", "none"])).unwrap();
    let wire = to_bytes(&list).unwrap();
    assert_eq!(&wire[..4], &[0, 0, 0, 9]);
    assert_eq!(&wire[4..], b"zlib,none");
    assert_eq!(list.content(), b"zlib,none".to_vec());
}

#[test]
fn namelist_empty() {
    let list = NameList::new(vec![]).unwrap();
    assert_eq!(to_bytes(&list).unwrap(), vec![0, 0, 0, 0]);
    assert!(list.is_empty());
    let (back, taken) = NameList::decode(&[0, 0, 0, 0]).unwrap();
    assert_eq!(taken, 4);
    assert_eq!(back.len(), 0);
    assert_eq!(back, NameList::default());
}

#[test]
fn namelist_round_trip_keeps_order_and_duplicates() {
    for list in [
        vec!["none"],
        vec!["zlib", "none"],
        vec!["b", "a", "b", "a"],
        vec!["a", "", "b"],
        vec!["", ""],
        vec!["curve25519-sha256", "ecdh-sha2-nistp256", "diffie-hellman-group14-sha256"],
    ] {
        let value = NameList::new(names(&list)).unwrap();
        let wire = to_bytes(&value).unwrap();
        let (back, taken) = NameList::decode(&wire).unwrap();
        assert_eq!(taken, wire.len());
        assert_eq!(back.names(), &names(&list));
        assert_eq!(back.clone(), value);
    }
}

#[test]
fn namelist_keeps_an_empty_name_between_two_commas() {
    let list = NameList::parse(b"a,,b").unwrap();
    assert_eq!(list.names(), &names(&["a", "", "b"]));
    assert_eq!(list.len(), 3);
    let list = NameList::parse(b",").unwrap();
    assert_eq!(list.names(), &names(&["", ""]));
    let list = NameList::parse(b"a,").unwrap();
    assert_eq!(list.names(), &names(&["a", ""]));
    assert_eq!(list.content(), b"a,".to_vec());
}

#[test]
fn namelist_refuses_names_that_cannot_be_sent() {
    assert_eq!(kind(NameList::new(names(&["a,b"]))), ErrorKind::ConstraintViolation);
    assert_eq!(kind(NameList::new(names(&["ok", "é"]))), ErrorKind::ConstraintViolation);
    assert_eq!(kind(NameList::new(names(&[""]))), ErrorKind::ConstraintViolation);
    assert_eq!(kind(NameList::parse(&[b'a', 0xff])), ErrorKind::ConstraintViolation);
    assert_eq!(
        kind(NameList::decode(&[0, 0, 0, 2, b'a', 0x80])),
        ErrorKind::ConstraintViolation
    );
    assert_eq!(kind(NameList::decode(&[0, 0, 0, 2, b'a'])), ErrorKind::TruncatedInput);
}

fn mpint_wire(value: i64) -> Vec<u8> {
    to_bytes(&MpInt::from_i64(value)).unwrap()
}

#[test]
fn mpint_examples_of_the_protocol() {
    assert_eq!(mpint_wire(0), vec![0, 0, 0, 0]);
    assert_eq!(
        mpint_wire(0x9a378f9b2e332a7),
        vec![0, 0, 0, 8, 0x09, 0xa3, 0x78, 0xf9, 0xb2, 0xe3, 0x32, 0xa7]
    );
    assert_eq!(mpint_wire(0x80), vec![0, 0, 0, 2, 0x00, 0x80]);
    assert_eq!(mpint_wire(-0x1234), vec![0, 0, 0, 2, 0xed, 0xcc]);
    assert_eq!(mpint_wire(-0xdeadbeef), vec![0, 0, 0, 5, 0xff, 0x21, 0x52, 0x41, 0x11]);
}

#[test]
fn mpint_sign_boundaries() {
    assert_eq!(mpint_wire(1), vec![0, 0, 0, 1, 0x01]);
    assert_eq!(mpint_wire(-1), vec![0, 0, 0, 1, 0xff]);
    assert_eq!(mpint_wire(127), vec![0, 0, 0, 1, 0x7f]);
    assert_eq!(mpint_wire(128), vec![0, 0, 0, 2, 0x00, 0x80]);
    assert_eq!(mpint_wire(-128), vec![0, 0, 0, 1, 0x80]);
    assert_eq!(mpint_wire(-129), vec![0, 0, 0, 2, 0xff, 0x7f]);
    assert_eq!(mpint_wire(255), vec![0, 0, 0, 2, 0x00, 0xff]);
    assert_eq!(mpint_wire(256), vec![0, 0, 0, 2, 0x01, 0x00]);
    assert_eq!(mpint_wire(-256), vec![0, 0, 0, 2, 0xff, 0x00]);
    assert_eq!(mpint_wire(32767), vec![0, 0, 0, 2, 0x7f, 0xff]);
    assert_eq!(mpint_wire(32768), vec![0, 0, 0, 3, 0x00, 0x80, 0x00]);
    assert_eq!(mpint_wire(-32768), vec![0, 0, 0, 2, 0x80, 0x00]);
    assert_eq!(mpint_wire(-32769), vec![0, 0, 0, 3, 0xff, 0x7f, 0xff]);
    assert_eq!(
        mpint_wire(i64::MAX),
        vec![0, 0, 0, 8, 0x7f, 0xff, 0xff, 0xff, 0xff, 0xff, 0xff, 0xff]
    );
    assert_eq!(mpint_wire(i64::MIN), vec![0, 0, 0, 8, 0x80, 0, 0, 0, 0, 0, 0, 0]);
}

#[test]
fn mpint_round_trip() {
    for value in [0i64, 1, -1, 127, 128, -128, -129, 255, 256, 65535, -65536, i64::MAX, i64::MIN] {
        let wire = mpint_wire(value);
        let (back, taken) = MpInt::decode(&wire).unwrap();
        assert_eq!(taken, wire.len());
        assert_eq!(back, MpInt::from_i64(value));
        assert_eq!(back.is_zero(), value == 0);
        assert_eq!(to_bytes(&back).unwrap(), wire);
    }
}

#[test]
fn mpint_decodes_spare_sign_bytes_and_never_writes_them() {
    let (value, taken) = MpInt::decode(&[0, 0, 0, 3, 0x00, 0x00, 0x80]).unwrap();
    assert_eq!(taken, 7);
    assert_eq!(value, MpInt::from_i64(128));
    assert_eq!(to_bytes(&value).unwrap(), vec![0, 0, 0, 2, 0x00, 0x80]);
    let (value, _) = MpInt::decode(&[0, 0, 0, 3, 0xff, 0xff, 0x7f]).unwrap();
    assert_eq!(value.as_bytes(), &[0xff, 0x7f]);
    let (value, _) = MpInt::decode(&[0, 0, 0, 2, 0x00, 0x00]).unwrap();
    assert!(value.is_zero());
    assert_eq!(to_bytes(&value).unwrap(), vec![0, 0, 0, 0]);
    assert_eq!(MpInt::from_bytes(&[0xff, 0xff]).as_bytes(), &[0xff]);
    assert_eq!(MpInt::default(), MpInt::from_i64(0));
}

#[test]
fn mpint_positive_adds_the_sign_byte_where_it_is_needed() {
    assert_eq!(MpInt::positive(&[0x80]).as_bytes(), &[0x00, 0x80]);
    assert_eq!(MpInt::positive(&[0x7f]).as_bytes(), &[0x7f]);
    assert_eq!(MpInt::positive(&[0x00, 0x00, 0x01]).as_bytes(), &[0x01]);
    assert_eq!(MpInt::positive(&[]).as_bytes(), &[] as &[u8]);
    assert_eq!(MpInt::positive(&[0xde, 0xad]), MpInt::from_i64(0xdead));
    assert_eq!(kind(MpInt::decode(&[0, 0, 0, 2, 1])), ErrorKind::TruncatedInput);
}

#[test]
fn from_bytes_reads_the_value_at_the_front() {
    let value: u32 = from_bytes(&[0, 0, 0, 7, 9, 9]).unwrap();
    assert_eq!(value, 7);
    let pair: (Bool, u32) = from_bytes(&[1, 0, 0, 1, 0]).unwrap();
    assert_eq!(pair, (Bool(true), 256));
    assert_eq!(kind(from_bytes::<(Bool, u32)>(&[1, 0, 0, 1])), ErrorKind::TruncatedInput);
}
