//! Framing, and the two machines that read and write a packet.

use ssh_packet::framing::{advance, build_frame, padding_len, take_payload};
use ssh_packet::packet::{
    Mac, OpenAction, OpenReply, OpenStage, Opener, Packet, SealAction, SealStage, Sealer, Suite,
};
use ssh_packet::plain::{open_plain, seal_plain};
use ssh_packet::{Error, ErrorKind, MAX_SIZE, MIN_SIZE};

fn kind<T: std::fmt::Debug>(r: Result<T, Error>) -> ErrorKind {
    r.expect_err("an error was expected").kind()
}

fn suite(block_size: usize, mac_size: usize, etm: bool) -> Suite {
    Suite { block_size, mac: Mac { size: mac_size, etm } }
}

/// A cipher for the tests: it adds the key to every byte, and its code is
/// the sum of the bytes and the sequence number, spread over four bytes.
struct Toy {
    key: u8,
    read: usize,
    fills: u8,
}

impl Toy {
    fn new(key: u8) -> Self {
        Toy { key, read: 0, fills: 0 }
    }

    fn encrypt(&self, data: Vec<u8>) -> Vec<u8> {
        data.into_iter().map(|byte| byte.wrapping_add(self.key)).collect()
    }

    fn decrypt(&self, data: Vec<u8>) -> Vec<u8> {
        data.into_iter().map(|byte| byte.wrapping_sub(self.key)).collect()
    }

    fn code(&self, data: &[u8], seq: u32, size: usize) -> Vec<u8> {
        let mut sum = seq.wrapping_mul(0x9e37_79b9);
        for (at, byte) in data.iter().enumerate() {
            let mixed = (*byte as u32).wrapping_add(at as u32).wrapping_mul(0x0100_0193);
            sum = sum.rotate_left(5) ^ mixed;
        }
        sum.to_be_bytes().iter().cycle().take(size).copied().collect()
    }

    fn random(&mut self, count: usize) -> Vec<u8> {
        (0..count)
            .map(|_| {
                self.fills = self.fills.wrapping_mul(31).wrapping_add(17);
                self.fills
            })
            .collect()
    }
}

/// Writes a packet by doing what the machine asks for, one request
/// after the other.
fn write_packet(
    suite: Suite,
    cipher: &mut Toy,
    seq: u32,
    packet: &Packet,
) -> Result<(Vec<u8>, u32), Error> {
    assert!(suite.is_valid());
    let (mut sealer, mut action) = Sealer::start(suite, seq, packet);
    loop {
        let reply = match action {
            SealAction::Compress { data } => data,
            SealAction::Random { count } => cipher.random(count),
            SealAction::Encrypt { data } => cipher.encrypt(data),
            SealAction::Seal { data, seq } => cipher.code(&data, seq, suite.mac.size),
            SealAction::Write { data, seq } => return Ok((data, seq)),
            SealAction::Fail { error } => return Err(error),
        };
        assert!(sealer.accepts(&reply));
        (sealer, action) = sealer.step(reply);
    }
}

/// Reads a packet by doing what the machine asks for, one request after
/// the other. `cipher.read` counts the bytes taken from the stream.
fn read_packet(
    suite: Suite,
    cipher: &mut Toy,
    seq: u32,
    stream: &[u8],
) -> Result<(Packet, u32), Error> {
    assert!(suite.is_valid());
    cipher.read = 0;
    let (mut opener, mut action) = Opener::start(suite, seq);
    loop {
        let reply = match action {
            OpenAction::Read { count } => {
                if stream.len() - cipher.read < count {
                    return Err(Error::TruncatedInput);
                }
                let bytes = stream[cipher.read..cipher.read + count].to_vec();
                cipher.read += count;
                OpenReply::Bytes(bytes)
            }
            OpenAction::Decrypt { data } => OpenReply::Bytes(cipher.decrypt(data)),
            OpenAction::Verify { data, mac, seq } => {
                OpenReply::Verified(cipher.code(&data, seq, suite.mac.size) == mac)
            }
            OpenAction::Decompress { data } => OpenReply::Bytes(data),
            OpenAction::Done { packet, seq } => return Ok((packet, seq)),
            OpenAction::Fail { error } => {
                assert_eq!(opener.stage(), OpenStage::Closed);
                return Err(error);
            }
        };
        assert!(opener.accepts(&reply));
        (opener, action) = opener.step(reply);
    }
}

#[test]
fn padding_is_the_least_that_meets_the_three_demands() {
    // 5 + 0 + 11 = 16: the minimum size, and a multiple of 8.
    assert_eq!(padding_len(0, 8).unwrap(), 11);
    // 5 + 10 + 9 = 24.
    assert_eq!(padding_len(10, 8).unwrap(), 9);
    // 5 + 11 + 8 = 24: four bytes would reach 20 only.
    assert_eq!(padding_len(11, 8).unwrap(), 8);
    // 5 + 15 + 4 = 24.
    assert_eq!(padding_len(15, 8).unwrap(), 4);
    // 5 + 16 + 11 = 32: three bytes would be too few.
    assert_eq!(padding_len(16, 8).unwrap(), 11);
    assert_eq!(padding_len(1, 16).unwrap(), 10);
    assert_eq!(padding_len(27, 16).unwrap(), 16);
    assert_eq!(padding_len(0, 4).unwrap(), 11);
    assert_eq!(padding_len(100, 1).unwrap(), 4);
    assert_eq!(padding_len(0, 64).unwrap(), 59);
    for block in [4usize, 8, 16, 32, 64] {
        for len in 0..200usize {
            let padding = padding_len(len, block).unwrap() as usize;
            assert!(padding >= 4);
            assert!(5 + len + padding >= MIN_SIZE);
            assert_eq!((5 + len + padding) % block, 0);
            assert!(padding < 12 + block);
        }
    }
}

#[test]
fn padding_that_does_not_fit_its_byte_is_an_overflow() {
    assert_eq!(kind(padding_len(0, 1000)), ErrorKind::EncodingOverflow);
    assert_eq!(padding_len(0, 260).unwrap(), 255);
    assert_eq!(padding_len(1, 260).unwrap(), 254);
    assert_eq!(kind(padding_len(0, 261)), ErrorKind::EncodingOverflow);
    assert_eq!(kind(padding_len(usize::MAX, 8)), ErrorKind::EncodingOverflow);
    assert_eq!(kind(padding_len(0xffff_fff8, 8)), ErrorKind::EncodingOverflow);
}

#[test]
fn a_frame_is_length_padding_length_payload_padding() {
    let plain = build_frame(b"abc", &[9, 9, 9, 9]).unwrap();
    assert_eq!(plain, vec![0, 0, 0, 8, 4, b'a', b'b', b'c', 9, 9, 9, 9]);
    assert_eq!(take_payload(&plain).unwrap(), b"abc".to_vec());
    let plain = build_frame(&[], &[]).unwrap();
    assert_eq!(plain, vec![0, 0, 0, 1, 0]);
    assert_eq!(take_payload(&plain).unwrap(), Vec::<u8>::new());
    assert_eq!(kind(build_frame(b"abc", &[0; 256])), ErrorKind::EncodingOverflow);
    assert_eq!(build_frame(b"abc", &[0; 255]).unwrap().len(), 5 + 3 + 255);
}

#[test]
fn a_frame_with_a_padding_too_large_is_refused() {
    assert_eq!(kind(take_payload(&[0, 0, 0, 3, 3, 1, 2])), ErrorKind::PaddingTooLarge);
    assert_eq!(take_payload(&[0, 0, 0, 3, 2, 1, 2]).unwrap(), Vec::<u8>::new());
    assert_eq!(take_payload(&[0, 0, 0, 3, 1, 7, 2]).unwrap(), vec![7]);
    assert_eq!(kind(take_payload(&[0, 0, 0, 1, 1])), ErrorKind::PaddingTooLarge);
    assert_eq!(kind(take_payload(&[0, 0, 0, 0])), ErrorKind::TruncatedInput);
    assert_eq!(kind(take_payload(&[0, 0, 0])), ErrorKind::TruncatedInput);
    assert_eq!(kind(take_payload(&[0, 0, 0, 3, 0, 1])), ErrorKind::TruncatedInput);
    assert_eq!(kind(take_payload(&[0, 0, 0, 1, 0, 1])), ErrorKind::TruncatedInput);
    assert_eq!(kind(take_payload(&[0, 1, 0, 0, 0])), ErrorKind::OversizedPacket);
}

#[test]
fn the_sequence_counter_wraps() {
    assert_eq!(advance(0), 1);
    assert_eq!(advance(41), 42);
    assert_eq!(advance(u32::MAX), 0);
}

#[test]
fn packets_round_trip_in_the_clear() {
    for etm in [false, true] {
        let suite = suite(8, 0, etm);
        for len in [0usize, 1, 2, 3, 10, 11, 12, 255, 256, 1000, 32_000] {
            let payload: Vec<u8> = (0..len).map(|at| (at * 7 % 251) as u8).collect();
            let noise = [0x5a; 255];
            let (wire, next) = seal_plain(suite, 7, &Packet(payload.clone()), &noise).unwrap();
            assert_eq!(next, 8);
            assert_eq!(wire.len() % 8, 0);
            assert!(wire.len() >= MIN_SIZE);
            assert_eq!(&wire[..4], &((wire.len() - 4) as u32).to_be_bytes());
            let (packet, taken, next) = open_plain(suite, 7, &wire).unwrap();
            assert_eq!(packet.0, payload);
            assert_eq!(taken, wire.len());
            assert_eq!(next, 8);
            // What follows the packet in the stream is left alone.
            let mut stream = wire.clone();
            stream.extend([1, 2, 3]);
            let (packet, taken, _) = open_plain(suite, 7, &stream).unwrap();
            assert_eq!((packet.0, taken), (payload, wire.len()));
        }
    }
}

#[test]
fn packets_in_the_clear_are_refused_for_their_length() {
    let suite = suite(8, 0, false);
    assert_eq!(kind(open_plain(suite, 0, &[0, 0, 0, 12, 4, 1, 2])), ErrorKind::TruncatedInput);
    assert_eq!(
        kind(open_plain(suite, 0, &[0, 0, 0, 12, 4, 1, 2, 3, 0, 0, 0, 0, 0, 0, 0])),
        ErrorKind::TruncatedInput
    );
    assert_eq!(
        kind(open_plain(suite, 0, &[0, 1, 0, 0, 4, 1, 2, 3, 0, 0, 0, 0])),
        ErrorKind::OversizedPacket
    );
    assert_eq!(
        kind(open_plain(suite, 0, &[0, 0, 0, 3, 4, 1, 2, 3, 0, 0, 0, 0])),
        ErrorKind::TruncatedInput
    );
    assert_eq!(
        kind(open_plain(suite, 0, &[0, 0, 0, 4, 4, 1, 2, 3])),
        ErrorKind::PaddingTooLarge
    );
    assert_eq!(kind(seal_plain(suite, 0, &Packet(vec![1]), &[0; 3])), ErrorKind::EncodingOverflow);
    assert_eq!(
        seal_plain(suite, u32::MAX, &Packet(vec![1, 2, 3]), &[7; 8]).unwrap(),
        (vec![0, 0, 0, 12, 8, 1, 2, 3, 7, 7, 7, 7, 7, 7, 7, 7], 0)
    );
}

#[test]
fn packets_round_trip_through_a_cipher() {
    for etm in [false, true] {
        for (block, mac) in [(8usize, 0usize), (8, 4), (16, 4), (16, 32), (4, 1)] {
            let suite = suite(block, mac, etm);
            for len in [0usize, 1, 7, 8, 9, 100, 4096, 65_000] {
                let payload: Vec<u8> = (0..len).map(|at| (at % 256) as u8).collect();
                let mut cipher = Toy::new(0x3d);
                let (wire, next) =
                    write_packet(suite, &mut cipher, u32::MAX, &Packet(payload.clone())).unwrap();
                assert_eq!(next, 0);
                assert_eq!((wire.len() - mac) % block, 0);
                let (packet, next) = read_packet(suite, &mut cipher, u32::MAX, &wire).unwrap();
                assert_eq!(packet.0, payload);
                assert_eq!(next, 0);
                assert_eq!(cipher.read, wire.len());
                // Under another sequence number the code is not the right one.
                if mac > 0 {
                    assert_eq!(
                        kind(read_packet(suite, &mut cipher, 3, &wire)),
                        ErrorKind::AuthenticationFailed
                    );
                }
            }
        }
    }
}

#[test]
fn the_order_of_encryption_and_authentication() {
    let payload = Packet(vec![1, 2, 3]);
    // Encrypt and MAC: the code is over the plaintext, and everything is encrypted.
    let mut cipher = Toy::new(1);
    let (wire, _) = write_packet(suite(8, 4, false), &mut cipher, 5, &payload).unwrap();
    let plain: Vec<u8> = wire[..16].iter().map(|byte| byte.wrapping_sub(1)).collect();
    assert_eq!(&plain[..8], &[0, 0, 0, 12, 8, 1, 2, 3]);
    assert_eq!(&wire[16..], &cipher.code(&plain, 5, 4)[..]);
    // Encrypt then MAC: the length stays in the clear, and the code is over
    // the length and the ciphertext.
    let mut cipher = Toy::new(1);
    let (wire, _) = write_packet(suite(8, 4, true), &mut cipher, 5, &payload).unwrap();
    assert_eq!(&wire[..4], &[0, 0, 0, 12]);
    assert_eq!(&wire[4..8], &[9, 2, 3, 4]);
    assert_eq!(&wire[16..], &cipher.code(&wire[..16], 5, 4)[..]);
}

#[test]
fn a_flipped_byte_is_an_authentication_failure() {
    for etm in [false, true] {
        let suite = suite(8, 4, etm);
        let payload: Vec<u8> = (0..61).collect();
        let mut cipher = Toy::new(0x11);
        let (wire, _) = write_packet(suite, &mut cipher, 9, &Packet(payload)).unwrap();
        // Everything behind the length field: padding length, payload,
        // padding and code.
        for at in 4..wire.len() {
            for flip in [0x01u8, 0x80, 0xff] {
                let mut damaged = wire.clone();
                damaged[at] ^= flip;
                assert_eq!(
                    kind(read_packet(suite, &mut cipher, 9, &damaged)),
                    ErrorKind::AuthenticationFailed,
                    "byte {at} of {}, etm: {etm}",
                    wire.len()
                );
            }
        }
    }
}

#[test]
fn a_padding_too_large_is_found_after_the_code_only() {
    for etm in [false, true] {
        let suite = suite(8, 4, etm);
        let mut cipher = Toy::new(0);
        // A packet whose padding length is larger than the packet, with the right code.
        let mut wire = vec![0, 0, 0, 12, 200, 1, 2, 3, 0, 0, 0, 0, 0, 0, 0, 0];
        let code = cipher.code(&wire, 1, 4);
        wire.extend(&code);
        assert_eq!(kind(read_packet(suite, &mut cipher, 1, &wire)), ErrorKind::PaddingTooLarge);
        // The same packet with a wrong code is not authentic, and nothing more is said.
        let last = wire.len() - 1;
        wire[last] ^= 1;
        assert_eq!(
            kind(read_packet(suite, &mut cipher, 1, &wire)),
            ErrorKind::AuthenticationFailed
        );
    }
}

#[test]
fn an_oversized_packet_is_refused_before_more_is_read() {
    for etm in [false, true] {
        let suite = suite(16, 32, etm);
        let mut cipher = Toy::new(0);
        let mut stream = ((MAX_SIZE + 1) as u32).to_be_bytes().to_vec();
        stream.extend(vec![0; 70_000]);
        assert_eq!(kind(read_packet(suite, &mut cipher, 0, &stream)), ErrorKind::OversizedPacket);
        assert_eq!(cipher.read, 16);
        // The largest length is read.
        let mut stream = (MAX_SIZE as u32).to_be_bytes().to_vec();
        stream.extend(vec![0; 3]);
        assert_eq!(kind(read_packet(suite, &mut cipher, 0, &stream)), ErrorKind::TruncatedInput);
    }
    // The length is looked at once it is in the clear.
    let mut cipher = Toy::new(7);
    let first: Vec<u8> =
        [0xffu8, 0xff, 0xff, 0xff, 0, 0, 0, 0].iter().map(|b| b.wrapping_add(7)).collect();
    assert_eq!(
        kind(read_packet(suite(8, 4, false), &mut cipher, 0, &first)),
        ErrorKind::OversizedPacket
    );
    assert_eq!(cipher.read, 8);
}

#[test]
fn a_packet_shorter_than_a_block_is_truncated() {
    let mut cipher = Toy::new(0);
    let stream = [0u8, 0, 0, 3, 1, 2, 3, 4, 5, 6, 7, 8, 9, 10, 11, 12];
    assert_eq!(
        kind(read_packet(suite(16, 0, true), &mut cipher, 0, &stream)),
        ErrorKind::TruncatedInput
    );
    assert_eq!(cipher.read, 16);
}

#[test]
fn the_machines_say_what_they_expect() {
    let suite = suite(8, 4, true);
    let (opener, action) = Opener::start(suite, 3);
    assert!(matches!(action, OpenAction::Read { count: 8 }));
    assert_eq!(opener.stage(), OpenStage::First);
    assert!(opener.accepts(&OpenReply::Bytes(vec![0; 8])));
    assert!(!opener.accepts(&OpenReply::Bytes(vec![0; 7])));
    assert!(!opener.accepts(&OpenReply::Verified(true)));
    let (opener, action) = opener.step(OpenReply::Bytes(vec![0, 0, 0, 12, 4, 1, 2, 3]));
    assert!(matches!(action, OpenAction::Read { count: 8 }));
    assert_eq!(opener.stage(), OpenStage::Rest);
    let (opener, action) = opener.step(OpenReply::Bytes(vec![4, 5, 6, 7, 0, 0, 0, 0]));
    assert!(matches!(action, OpenAction::Read { count: 4 }));
    let (opener, action) = opener.step(OpenReply::Bytes(vec![1, 1, 1, 1]));
    match action {
        OpenAction::Verify { data, mac, seq } => {
            assert_eq!(data, vec![0, 0, 0, 12, 4, 1, 2, 3, 4, 5, 6, 7, 0, 0, 0, 0]);
            assert_eq!(mac, vec![1, 1, 1, 1]);
            assert_eq!(seq, 3);
        }
        other => panic!("another request: {other:?}"),
    }
    assert!(!opener.verified());
    assert!(opener.accepts(&OpenReply::Verified(false)));
    let (opener, action) = opener.step(OpenReply::Verified(false));
    assert!(matches!(action, OpenAction::Fail { error: Error::AuthenticationFailed }));
    assert_eq!(opener.stage(), OpenStage::Closed);
    assert!(!opener.accepts(&OpenReply::Bytes(vec![])));

    let (sealer, action) = Sealer::start(suite, 3, &Packet(vec![1, 2, 3]));
    assert!(matches!(action, SealAction::Compress { .. }));
    assert_eq!(sealer.stage(), SealStage::Deflate);
    let (sealer, action) = sealer.step(vec![1, 2, 3]);
    assert!(matches!(action, SealAction::Random { count: 8 }));
    assert!(sealer.accepts(&[0; 8]));
    assert!(!sealer.accepts(&[0; 4]));
    let (sealer, action) = sealer.step(vec![9; 8]);
    match action {
        SealAction::Encrypt { data } => assert_eq!(data, vec![8, 1, 2, 3, 9, 9, 9, 9, 9, 9, 9, 9]),
        other => panic!("another request: {other:?}"),
    }
    assert_eq!(sealer.stage(), SealStage::Encrypt);
    assert!(!suite_is_valid(3));
    assert!(suite_is_valid(4));
}

fn suite_is_valid(block_size: usize) -> bool {
    suite(block_size, 0, false).is_valid()
}

#[test]
fn a_payload_that_cannot_be_framed_is_refused() {
    let suite = suite(1000, 0, false);
    let mut cipher = Toy::new(0);
    assert_eq!(
        kind(write_packet(suite, &mut cipher, 0, &Packet(vec![1, 2, 3]))),
        ErrorKind::EncodingOverflow
    );
}
