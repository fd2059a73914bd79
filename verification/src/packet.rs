//! Packets, and the order in which a packet is read and written.
//!
//! Reading and writing a packet alternate work that this library cannot
//! do (waiting for bytes of a stream, running a cipher, drawing random
//! bytes) with decisions that depend on what that work gave. The
//! decisions are made here, by two machines: [`Opener`] reads a packet
//! and [`Sealer`] writes one. A machine hands out one request at a time;
//! its driver does what the request says and hands back what came of it.

use vstd::prelude::*;
use vstd::slice::{slice_subrange, slice_to_vec};

use crate::error::{Error, ErrorKind};
use crate::framing::{
    advance, build_frame, frame, frame_fits, next_seq, padding_for, padding_len, take_payload,
    unframe,
};
use crate::wire::{from_be32, Decode, Encode};
use crate::MAX_SIZE;

verus! {

/// A packet _deserialization_ & _serialization_ helper: the payload of
/// one packet, decrypted and decompressed.
///
/// see <https://datatracker.ietf.org/doc/html/rfc4253#section-6>.
#[derive(Debug)]
pub struct Packet(pub Vec<u8>);

impl View for Packet {
    type V = Seq<u8>;

    open spec fn view(&self) -> Seq<u8> {
        self.0@
    }
}

impl Clone for Packet {
    fn clone(&self) -> (p: Self)
        ensures
            p@ == self@,
    {
        Packet(slice_to_vec(self.0.as_slice()))
    }
}

impl Packet {
    /// Try to deserialize the [`Packet`] into `T`: the value that stands
    /// at the front of the payload.
    pub fn to<'b, T: Decode<'b>>(&'b self) -> (r: Result<T, Error>)
        ensures
            match r {
                Ok(v) => T::outcome(self@) is Ok && v.decoded_from(self@) && v.sound(),
                Err(e) => T::outcome(self@) == Err::<nat, ErrorKind>(e.spec_kind()),
            },
    {
        match T::decode(self.0.as_slice()) {
            Ok((v, _)) => Ok(v),
            Err(e) => Err(e),
        }
    }

    /// The payload of the packet.
    pub fn payload(&self) -> (bytes: &[u8])
        ensures
            bytes@ == self@,
    {
        self.0.as_slice()
    }
}

/// Allow types with a wire form to be easily converted to a [`Packet`].
pub trait IntoPacket: Sized {
    /// Whether the value can be sent as a packet.
    spec fn packable(&self) -> bool;

    /// The payload of the packet that carries the value.
    spec fn packed(&self) -> Seq<u8>;

    /// Convert the current type to a [`Packet`].
    fn into_packet(self) -> (p: Packet)
        requires
            self.packable(),
        ensures
            p@ == self.packed(),
    ;
}

impl IntoPacket for Packet {
    open spec fn packable(&self) -> bool {
        true
    }

    open spec fn packed(&self) -> Seq<u8> {
        self@
    }

    fn into_packet(self) -> (p: Packet) {
        self
    }
}

impl<T: Encode> IntoPacket for &T {
    open spec fn packable(&self) -> bool {
        self.fits()
    }

    open spec fn packed(&self) -> Seq<u8> {
        self.wire()
    }

    fn into_packet(self) -> (p: Packet) {
        let mut buffer: Vec<u8> = Vec::new();
        let _ = self.encode(&mut buffer);
        assert(buffer@ =~= self.wire());
        Packet(buffer)
    }
}

/// The message authentication of a cipher suite, as far as the packet
/// layer needs to know it.
#[derive(Debug, Clone, Copy, PartialEq, Eq, Structural)]
pub struct Mac {
    /// The number of bytes of an authentication code.
    pub size: usize,
    /// Whether the code is computed over the ciphertext ("encrypt then
    /// MAC") instead of the plaintext.
    pub etm: bool,
}

/// A cipher suite, as far as the packet layer needs to know it.
#[derive(Debug, Clone, Copy, PartialEq, Eq, Structural)]
pub struct Suite {
    /// The block size of the cipher, in bytes.
    pub block_size: usize,
    /// The message authentication in use.
    pub mac: Mac,
}

impl Suite {
    /// Whether a packet can be read and written with this suite: the
    /// first block of a packet has to hold the length field.
    pub open spec fn wf(&self) -> bool {
        self.block_size >= 4
    }

    /// Whether a packet can be read and written with this suite.
    pub fn is_valid(&self) -> (ok: bool)
        ensures
            ok == self.wf(),
    {
        self.block_size >= 4
    }

    /// The number of bytes left clear in front of what is encrypted
    /// after the code has been checked or before it is computed.
    pub open spec fn clear_len(&self) -> nat {
        if self.mac.etm {
            4
        } else {
            self.block_size as nat
        }
    }
}

/// How far an [`Opener`] has come.
#[derive(Debug, Clone, Copy, PartialEq, Eq, Structural)]
pub enum OpenStage {
    /// The first block of the packet is awaited.
    First,
    /// The first block is awaited in the clear.
    FirstClear,
    /// The rest of the packet is awaited.
    Rest,
    /// The authentication code is awaited.
    Trailer,
    /// The verdict on the authentication code is awaited.
    Check,
    /// What was still encrypted is awaited in the clear.
    Clear,
    /// The decompressed payload is awaited.
    Inflate,
    /// The packet was handed out, or refused.
    Closed,
}

/// What the driver of an [`Opener`] is asked to do next.
#[derive(Debug)]
pub enum OpenAction {
    /// Read exactly `count` bytes from the stream and reply with them.
    Read { count: usize },
    /// Decrypt `data` and reply with the result, which is as long.
    Decrypt { data: Vec<u8> },
    /// Check that `mac` authenticates `data` under the sequence number
    /// `seq`, and reply with the verdict.
    Verify { data: Vec<u8>, mac: Vec<u8>, seq: u32 },
    /// Decompress `data` and reply with the result.
    Decompress { data: Vec<u8> },
    /// The packet is read; `seq` is the sequence number of the next one.
    Done { packet: Packet, seq: u32 },
    /// The packet is refused, and no other may be read from the stream.
    Fail { error: Error },
}

/// What the driver of an [`Opener`] hands back.
#[derive(Debug)]
pub enum OpenReply {
    /// The bytes that were read, decrypted or decompressed.
    Bytes(Vec<u8>),
    /// Whether the authentication code was the right one.
    Verified(bool),
}

/// The reading of one packet.
#[derive(Debug)]
pub struct Opener {
    suite: Suite,
    seq: u32,
    stage: OpenStage,
    verified: bool,
    buf: Vec<u8>,
    mac: Vec<u8>,
}

/// The request that refuses the packet for the reason `kind`.
pub open spec fn refuses(post: Opener, action: OpenAction, kind: ErrorKind) -> bool {
    &&& post.stage() == OpenStage::Closed
    &&& action matches OpenAction::Fail { error }
    &&& error.spec_kind() == kind
}

/// What follows once the first block of the packet is there in the
/// clear: a packet that declares more than the maximum size is refused
/// before another byte is read, one that declares less than the block
/// that was read is refused as truncated, and the rest of any other is
/// asked for.
pub open spec fn first_block_seen(
    pre: Opener,
    block: Seq<u8>,
    post: Opener,
    action: OpenAction,
) -> bool {
    if from_be32(block) > MAX_SIZE {
        refuses(post, action, ErrorKind::OversizedPacket)
    } else if from_be32(block) + 4 < pre.suite().block_size {
        refuses(post, action, ErrorKind::TruncatedInput)
    } else {
        &&& post.stage() == OpenStage::Rest
        &&& post.buf() == block
        &&& post.verified() == pre.verified()
        &&& action == (OpenAction::Read {
            count: (from_be32(block) + 4 - pre.suite().block_size) as usize,
        })
    }
}

/// What follows once the whole packet is there in the clear and its
/// code was found right: the payload is taken out and handed over to be
/// decompressed, unless the packet has none.
pub open spec fn packet_seen(plain: Seq<u8>, post: Opener, action: OpenAction) -> bool {
    match unframe(plain) {
        Err(kind) => refuses(post, action, kind),
        Ok(payload) => {
            &&& post.stage() == OpenStage::Inflate
            &&& post.verified()
            &&& action matches OpenAction::Decompress { data }
            &&& data@ == payload
        },
    }
}

impl Opener {
    #[verifier::type_invariant]
    spec fn inv(&self) -> bool {
        self.valid()
    }

    /// The cipher suite that the packet was written with.
    pub closed spec fn spec_suite(&self) -> Suite {
        self.suite
    }

    /// The sequence number of the packet.
    pub closed spec fn spec_seq(&self) -> u32 {
        self.seq
    }

    /// How far the reading has come.
    pub closed spec fn spec_stage(&self) -> OpenStage {
        self.stage
    }

    /// Whether the authentication code of the packet was found right.
    pub closed spec fn spec_verified(&self) -> bool {
        self.verified
    }

    /// What is held of the packet, code excluded.
    pub closed spec fn buf(&self) -> Seq<u8> {
        self.buf@
    }

    /// The authentication code of the packet, once it was read.
    pub closed spec fn mac(&self) -> Seq<u8> {
        self.mac@
    }

    /// The cipher suite that the packet was written with.
    #[verifier::when_used_as_spec(spec_suite)]
    pub fn suite(&self) -> (suite: Suite)
        ensures
            suite == self.spec_suite(),
            suite.wf(),
    {
        proof {
            use_type_invariant(self);
        }
        self.suite
    }

    /// The sequence number of the packet.
    #[verifier::when_used_as_spec(spec_seq)]
    pub fn seq(&self) -> (seq: u32)
        ensures
            seq == self.spec_seq(),
    {
        self.seq
    }

    /// How far the reading has come.
    #[verifier::when_used_as_spec(spec_stage)]
    pub fn stage(&self) -> (stage: OpenStage)
        ensures
            stage == self.spec_stage(),
    {
        self.stage
    }

    /// Whether the authentication code of the packet was found right.
    #[verifier::when_used_as_spec(spec_verified)]
    pub fn verified(&self) -> (verified: bool)
        ensures
            verified == self.spec_verified(),
    {
        self.verified
    }

    /// What holds of every state of the machine.
    pub open spec fn valid(&self) -> bool {
        &&& self.suite().wf()
        &&& match self.stage() {
            OpenStage::First | OpenStage::FirstClear => !self.verified(),
            OpenStage::Rest => {
                &&& !self.verified()
                &&& self.buf().len() == self.suite().block_size
                &&& from_be32(self.buf()) <= MAX_SIZE
                &&& from_be32(self.buf()) + 4 >= self.suite().block_size
            },
            OpenStage::Trailer => {
                &&& !self.verified()
                &&& self.buf().len() == from_be32(self.buf()) + 4
                &&& self.buf().len() >= self.suite().block_size
                &&& from_be32(self.buf()) <= MAX_SIZE
            },
            OpenStage::Check => {
                &&& !self.verified()
                &&& self.buf().len() >= 4
            },
            OpenStage::Clear => {
                &&& self.verified() == self.suite().mac.etm
                &&& self.buf().len() >= self.suite().clear_len()
            },
            OpenStage::Inflate => self.verified(),
            OpenStage::Closed => true,
        }
    }

    /// Whether `reply` answers the request that led to this state.
    pub open spec fn expects(&self, reply: OpenReply) -> bool {
        match self.stage() {
            OpenStage::First | OpenStage::FirstClear => {
                reply matches OpenReply::Bytes(b) && b@.len() == self.suite().block_size
            },
            OpenStage::Rest => {
                reply matches OpenReply::Bytes(b) && b@.len() == from_be32(self.buf()) + 4
                    - self.suite().block_size
            },
            OpenStage::Trailer => reply matches OpenReply::Bytes(b) && b@.len()
                == self.suite().mac.size,
            OpenStage::Check => reply is Verified,
            OpenStage::Clear => reply matches OpenReply::Bytes(b) && b@.len() == self.buf().len()
                - self.suite().clear_len(),
            OpenStage::Inflate => reply is Bytes,
            OpenStage::Closed => false,
        }
    }

    /// The step that the machine takes from `self` on `reply`: the state
    /// it comes to and the request it makes.
    pub open spec fn steps(self, reply: OpenReply, post: Opener, action: OpenAction) -> bool {
        &&& post.suite() == self.suite()
        &&& post.seq() == self.seq()
        &&& post.verified() ==> (self.verified() || reply == OpenReply::Verified(true))
        &&& match self.stage() {
            OpenStage::First => if self.suite().mac.etm {
                first_block_seen(self, reply->Bytes_0@, post, action)
            } else {
                &&& post.stage() == OpenStage::FirstClear
                &&& !post.verified()
                &&& action matches OpenAction::Decrypt { data }
                &&& data@ == reply->Bytes_0@
            },
            OpenStage::FirstClear => first_block_seen(self, reply->Bytes_0@, post, action),
            OpenStage::Rest => {
                &&& post.stage() == OpenStage::Trailer
                &&& !post.verified()
                &&& post.buf() == self.buf() + reply->Bytes_0@
                &&& action == (OpenAction::Read { count: self.suite().mac.size })
            },
            OpenStage::Trailer => if self.suite().mac.etm {
                &&& post.stage() == OpenStage::Check
                &&& !post.verified()
                &&& post.buf() == self.buf()
                &&& post.mac() == reply->Bytes_0@
                &&& action matches OpenAction::Verify { data, mac, seq }
                &&& data@ == self.buf()
                &&& mac@ == reply->Bytes_0@
                &&& seq == self.seq()
            } else {
                &&& post.stage() == OpenStage::Clear
                &&& !post.verified()
                &&& post.buf() == self.buf()
                &&& post.mac() == reply->Bytes_0@
                &&& action matches OpenAction::Decrypt { data }
                &&& data@ == self.buf().skip(self.suite().block_size as int)
            },
            OpenStage::Check => if !reply->Verified_0 {
                refuses(post, action, ErrorKind::AuthenticationFailed)
            } else if self.suite().mac.etm {
                &&& post.stage() == OpenStage::Clear
                &&& post.verified()
                &&& post.buf() == self.buf()
                &&& action matches OpenAction::Decrypt { data }
                &&& data@ == self.buf().skip(4)
            } else {
                packet_seen(self.buf(), post, action)
            },
            OpenStage::Clear => if self.suite().mac.etm {
                packet_seen(self.buf().take(4) + reply->Bytes_0@, post, action)
            } else {
                &&& post.stage() == OpenStage::Check
                &&& !post.verified()
                &&& post.buf() == self.buf().take(self.suite().block_size as int) + reply->Bytes_0@
                &&& action matches OpenAction::Verify { data, mac, seq }
                &&& data@ == post.buf()
                &&& mac@ == self.mac()
                &&& seq == self.seq()
            },
            OpenStage::Inflate => {
                &&& post.stage() == OpenStage::Closed
                &&& action matches OpenAction::Done { packet, seq }
                &&& packet@ == reply->Bytes_0@
                &&& seq == next_seq(self.seq())
            },
            OpenStage::Closed => false,
        }
    }

    /// Begins to read the packet with the sequence number `seq`: the
    /// first block of it is asked for.
    pub fn start(suite: Suite, seq: u32) -> (r: (Opener, OpenAction))
        requires
            suite.wf(),
        ensures
            r.0.valid(),
            r.0.suite() == suite,
            r.0.seq() == seq,
            r.0.stage() == OpenStage::First,
            !r.0.verified(),
            r.1 == (OpenAction::Read { count: suite.block_size }),
    {
        let opener = Opener {
            suite,
            seq,
            stage: OpenStage::First,
            verified: false,
            buf: Vec::new(),
            mac: Vec::new(),
        };
        (opener, OpenAction::Read { count: suite.block_size })
    }

    /// Whether `reply` answers the request that led to this state.
    pub fn accepts(&self, reply: &OpenReply) -> (ok: bool)
        ensures
            ok == self.expects(*reply),
    {
        proof {
            use_type_invariant(self);
        }
        match self.stage {
            OpenStage::First | OpenStage::FirstClear => match reply {
                OpenReply::Bytes(b) => b.len() == self.suite.block_size,
                _ => false,
            },
            OpenStage::Rest => match reply {
                OpenReply::Bytes(b) => {
                    let declared = declared_len(self.buf.as_slice());
                    b.len() == declared + 4 - self.suite.block_size
                },
                _ => false,
            },
            OpenStage::Trailer => match reply {
                OpenReply::Bytes(b) => b.len() == self.suite.mac.size,
                _ => false,
            },
            OpenStage::Check => match reply {
                OpenReply::Verified(_) => true,
                _ => false,
            },
            OpenStage::Clear => match reply {
                OpenReply::Bytes(b) => {
                    let clear: usize = if self.suite.mac.etm {
                        4
                    } else {
                        self.suite.block_size
                    };
                    b.len() == self.buf.len() - clear
                },
                _ => false,
            },
            OpenStage::Inflate => match reply {
                OpenReply::Bytes(_) => true,
                _ => false,
            },
            OpenStage::Closed => false,
        }
    }

    /// Takes the next step: `reply` is what came of the request that led
    /// to this state.
    ///
    /// The length field is looked at as soon as it is there in the
    /// clear. Nothing else of the packet is looked at before its code was
    /// found right: with "encrypt then MAC" the code is checked before
    /// anything behind the length field is decrypted, else as soon as
    /// everything is decrypted. A wrong code refuses the packet with
    /// [`ErrorKind::AuthenticationFailed`], whatever the packet holds.
    pub fn step(self, reply: OpenReply) -> (r: (Opener, OpenAction))
        requires
            self.expects(reply),
        ensures
            r.0.valid(),
            self.steps(reply, r.0, r.1),
    {
        proof {
            use_type_invariant(&self);
        }
        let Opener { suite, seq, stage, verified, buf, mac } = self;
        match stage {
            OpenStage::First => match reply {
                OpenReply::Bytes(block) => {
                    if suite.mac.etm {
                        see_first_block(suite, seq, block)
                    } else {
                        let data = slice_to_vec(block.as_slice());
                        (
                            Opener { suite, seq, stage: OpenStage::FirstClear, verified, buf, mac },
                            OpenAction::Decrypt { data },
                        )
                    }
                },
                _ => closed(suite, seq, Error::TruncatedInput),
            },
            OpenStage::FirstClear => match reply {
                OpenReply::Bytes(block) => see_first_block(suite, seq, block),
                _ => closed(suite, seq, Error::TruncatedInput),
            },
            OpenStage::Rest => match reply {
                OpenReply::Bytes(rest) => {
                    let mut buf = buf;
                    let ghost first = buf@;
                    buf.extend_from_slice(rest.as_slice());
                    proof {
                        assert(buf@ =~= first + rest@);
                        assert(from_be32(buf@) == from_be32(first)) by {
                            assert(buf@[0] == first[0]);
                            assert(buf@[1] == first[1]);
                            assert(buf@[2] == first[2]);
                            assert(buf@[3] == first[3]);
                        }
                    }
                    (
                        Opener { suite, seq, stage: OpenStage::Trailer, verified, buf, mac },
                        OpenAction::Read { count: suite.mac.size },
                    )
                },
                _ => closed(suite, seq, Error::TruncatedInput),
            },
            OpenStage::Trailer => match reply {
                OpenReply::Bytes(code) => {
                    if suite.mac.etm {
                        let data = slice_to_vec(buf.as_slice());
                        let copy = slice_to_vec(code.as_slice());
                        let stage = OpenStage::Check;
                        (
                            Opener { suite, seq, stage, verified, buf, mac: code },
                            OpenAction::Verify { data, mac: copy, seq },
                        )
                    } else {
                        let data = slice_to_vec(
                            slice_subrange(buf.as_slice(), suite.block_size, buf.len()),
                        );
                        assert(data@ =~= buf@.skip(suite.block_size as int));
                        let stage = OpenStage::Clear;
                        (
                            Opener { suite, seq, stage, verified, buf, mac: code },
                            OpenAction::Decrypt { data },
                        )
                    }
                },
                _ => closed(suite, seq, Error::TruncatedInput),
            },
            OpenStage::Check => match reply {
                OpenReply::Verified(right) => {
                    if !right {
                        closed(suite, seq, Error::AuthenticationFailed)
                    } else if suite.mac.etm {
                        let data = slice_to_vec(slice_subrange(buf.as_slice(), 4, buf.len()));
                        assert(data@ =~= buf@.skip(4));
                        (
                            Opener {
                                suite,
                                seq,
                                stage: OpenStage::Clear,
                                verified: true,
                                buf,
                                mac,
                            },
                            OpenAction::Decrypt { data },
                        )
                    } else {
                        see_packet(suite, seq, buf)
                    }
                },
                _ => closed(suite, seq, Error::TruncatedInput),
            },
            OpenStage::Clear => match reply {
                OpenReply::Bytes(clear) => {
                    let kept: usize = if suite.mac.etm {
                        4
                    } else {
                        suite.block_size
                    };
                    let mut plain = slice_to_vec(slice_subrange(buf.as_slice(), 0, kept));
                    plain.extend_from_slice(clear.as_slice());
                    assert(plain@ =~= buf@.take(kept as int) + clear@);
                    if suite.mac.etm {
                        see_packet(suite, seq, plain)
                    } else {
                        let data = slice_to_vec(plain.as_slice());
                        let copy = slice_to_vec(mac.as_slice());
                        (
                            Opener {
                                suite,
                                seq,
                                stage: OpenStage::Check,
                                verified: false,
                                buf: plain,
                                mac,
                            },
                            OpenAction::Verify { data, mac: copy, seq },
                        )
                    }
                },
                _ => closed(suite, seq, Error::TruncatedInput),
            },
            OpenStage::Inflate => match reply {
                OpenReply::Bytes(payload) => (
                    Opener { suite, seq, stage: OpenStage::Closed, verified, buf, mac },
                    OpenAction::Done { packet: Packet(payload), seq: advance(seq) },
                ),
                _ => closed(suite, seq, Error::TruncatedInput),
            },
            OpenStage::Closed => closed(suite, seq, Error::TruncatedInput),
        }
    }
}

/// The length that the first four bytes of a packet declare.
fn declared_len(buf: &[u8]) -> (len: usize)
    requires
        buf@.len() >= 4,
    ensures
        len == from_be32(buf@),
{
    match u32::decode(buf) {
        Ok((len, _)) => len as usize,
        Err(_) => 0,
    }
}

/// The end of a reading that refuses the packet.
fn closed(suite: Suite, seq: u32, error: Error) -> (r: (Opener, OpenAction))
    requires
        suite.wf(),
    ensures
        r.0.valid(),
        r.0.suite() == suite,
        r.0.seq() == seq,
        r.0.stage() == OpenStage::Closed,
        !r.0.verified(),
        r.1 == (OpenAction::Fail { error }),
{
    (
        Opener {
            suite,
            seq,
            stage: OpenStage::Closed,
            verified: false,
            buf: Vec::new(),
            mac: Vec::new(),
        },
        OpenAction::Fail { error },
    )
}

/// Looks at the length field of the first block.
fn see_first_block(suite: Suite, seq: u32, block: Vec<u8>) -> (r: (Opener, OpenAction))
    requires
        suite.wf(),
        block@.len() == suite.block_size,
    ensures
        r.0.valid(),
        r.0.suite() == suite,
        r.0.seq() == seq,
        !r.0.verified(),
        if from_be32(block@) > MAX_SIZE {
            refuses(r.0, r.1, ErrorKind::OversizedPacket)
        } else if from_be32(block@) + 4 < suite.block_size {
            refuses(r.0, r.1, ErrorKind::TruncatedInput)
        } else {
            &&& r.0.stage() == OpenStage::Rest
            &&& r.0.buf() == block@
            &&& r.1 == (OpenAction::Read {
                count: (from_be32(block@) + 4 - suite.block_size) as usize,
            })
        },
{
    let len = declared_len(block.as_slice());
    if len > MAX_SIZE {
        closed(suite, seq, Error::OversizedPacket)
    } else if len + 4 < suite.block_size {
        closed(suite, seq, Error::TruncatedInput)
    } else {
        (
            Opener {
                suite,
                seq,
                stage: OpenStage::Rest,
                verified: false,
                buf: block,
                mac: Vec::new(),
            },
            OpenAction::Read { count: len + 4 - suite.block_size },
        )
    }
}

/// Takes the payload out of the packet that was found authentic.
fn see_packet(suite: Suite, seq: u32, plain: Vec<u8>) -> (r: (Opener, OpenAction))
    requires
        suite.wf(),
    ensures
        r.0.valid(),
        r.0.suite() == suite,
        r.0.seq() == seq,
        packet_seen(plain@, r.0, r.1),
{
    match take_payload(plain.as_slice()) {
        Err(error) => closed(suite, seq, error),
        Ok(data) => (
            Opener {
                suite,
                seq,
                stage: OpenStage::Inflate,
                verified: true,
                buf: Vec::new(),
                mac: Vec::new(),
            },
            OpenAction::Decompress { data },
        ),
    }
}

/// A packet is refused for its length field as soon as that field is
/// there in the clear: the machine asks for no further byte of the
/// stream, and accepts none.
pub proof fn lemma_oversized_is_refused_at_once(
    pre: Opener,
    reply: OpenReply,
    post: Opener,
    action: OpenAction,
)
    requires
        pre.valid(),
        pre.expects(reply),
        pre.steps(reply, post, action),
        (pre.stage() == OpenStage::First && pre.suite().mac.etm) || pre.stage()
            == OpenStage::FirstClear,
        from_be32(reply->Bytes_0@) > MAX_SIZE,
    ensures
        refuses(post, action, ErrorKind::OversizedPacket),
        forall|next: OpenReply| !post.expects(next),
{
}

/// A wrong authentication code refuses the packet as not authentic,
/// whatever the packet holds; and before the code was found right the
/// machine neither judges the padding nor hands out a payload.
pub proof fn lemma_nothing_is_trusted_before_the_code(
    pre: Opener,
    reply: OpenReply,
    post: Opener,
    action: OpenAction,
)
    requires
        pre.valid(),
        pre.expects(reply),
        pre.steps(reply, post, action),
    ensures
        reply == OpenReply::Verified(false) ==> refuses(
            post,
            action,
            ErrorKind::AuthenticationFailed,
        ),
        action is Decompress ==> post.verified(),
        action is Done ==> pre.verified(),
        (action matches OpenAction::Fail { error } && error.spec_kind()
            == ErrorKind::PaddingTooLarge) ==> (pre.verified() || reply == OpenReply::Verified(
            true,
        )),
        post.verified() ==> (pre.verified() || reply == OpenReply::Verified(true)),
{
}

/// How far a [`Sealer`] has come.
#[derive(Debug, Clone, Copy, PartialEq, Eq, Structural)]
pub enum SealStage {
    /// The compressed payload is awaited.
    Deflate,
    /// The random padding is awaited.
    Pad,
    /// The ciphertext is awaited.
    Encrypt,
    /// The authentication code is awaited.
    Seal,
    /// The packet was handed out, or refused.
    Closed,
}

/// What the driver of a [`Sealer`] is asked to do next. It replies with
/// the bytes that came of it.
#[derive(Debug)]
pub enum SealAction {
    /// Compress `data`.
    Compress { data: Vec<u8> },
    /// Draw `count` random bytes.
    Random { count: usize },
    /// Encrypt `data`; the result is as long.
    Encrypt { data: Vec<u8> },
    /// Compute the authentication code of `data` under the sequence
    /// number `seq`.
    Seal { data: Vec<u8>, seq: u32 },
    /// Write `data` to the stream: the packet is done, and `seq` is the
    /// sequence number of the next one.
    Write { data: Vec<u8>, seq: u32 },
    /// The payload is refused.
    Fail { error: Error },
}

/// The writing of one packet.
#[derive(Debug)]
pub struct Sealer {
    suite: Suite,
    seq: u32,
    stage: SealStage,
    buf: Vec<u8>,
    mac: Vec<u8>,
}

impl Sealer {
    #[verifier::type_invariant]
    spec fn inv(&self) -> bool {
        self.valid()
    }

    /// The cipher suite that the packet is written with.
    pub closed spec fn spec_suite(&self) -> Suite {
        self.suite
    }

    /// The sequence number of the packet.
    pub closed spec fn spec_seq(&self) -> u32 {
        self.seq
    }

    /// How far the writing has come.
    pub closed spec fn spec_stage(&self) -> SealStage {
        self.stage
    }

    /// What is held of the packet, code excluded.
    pub closed spec fn buf(&self) -> Seq<u8> {
        self.buf@
    }

    /// The authentication code of the packet, once it was computed.
    pub closed spec fn mac(&self) -> Seq<u8> {
        self.mac@
    }

    /// The cipher suite that the packet is written with.
    #[verifier::when_used_as_spec(spec_suite)]
    pub fn suite(&self) -> (suite: Suite)
        ensures
            suite == self.spec_suite(),
            suite.wf(),
    {
        proof {
            use_type_invariant(self);
        }
        self.suite
    }

    /// The sequence number of the packet.
    #[verifier::when_used_as_spec(spec_seq)]
    pub fn seq(&self) -> (seq: u32)
        ensures
            seq == self.spec_seq(),
    {
        self.seq
    }

    /// How far the writing has come.
    #[verifier::when_used_as_spec(spec_stage)]
    pub fn stage(&self) -> (stage: SealStage)
        ensures
            stage == self.spec_stage(),
    {
        self.stage
    }

    /// What holds of every state of the machine.
    pub open spec fn valid(&self) -> bool {
        &&& self.suite().wf()
        &&& match self.stage() {
            SealStage::Pad => frame_fits(
                self.buf().len() as int,
                padding_for(self.buf().len() as int, self.suite().block_size as int),
            ),
            SealStage::Encrypt | SealStage::Seal => self.buf().len() >= 4,
            _ => true,
        }
    }

    /// Whether `reply` answers the request that led to this state.
    pub open spec fn expects(&self, reply: Seq<u8>) -> bool {
        match self.stage() {
            SealStage::Deflate => true,
            SealStage::Pad => reply.len() == padding_for(
                self.buf().len() as int,
                self.suite().block_size as int,
            ),
            SealStage::Encrypt => reply.len() == if self.suite().mac.etm {
                self.buf().len() - 4
            } else {
                self.buf().len() as int
            },
            SealStage::Seal => reply.len() == self.suite().mac.size,
            SealStage::Closed => false,
        }
    }

    /// The step that the machine takes from `self` on `reply`: the state
    /// it comes to and the request it makes.
    pub open spec fn steps(self, reply: Seq<u8>, post: Sealer, action: SealAction) -> bool {
        &&& post.suite() == self.suite()
        &&& post.seq() == self.seq()
        &&& match self.stage() {
            SealStage::Deflate => {
                let padding = padding_for(reply.len() as int, self.suite().block_size as int);
                if frame_fits(reply.len() as int, padding) {
                    &&& post.stage() == SealStage::Pad
                    &&& post.buf() == reply
                    &&& action == (SealAction::Random { count: padding as usize })
                } else {
                    &&& post.stage() == SealStage::Closed
                    &&& action matches SealAction::Fail { error }
                    &&& error.spec_kind() == ErrorKind::EncodingOverflow
                }
            },
            SealStage::Pad => {
                &&& post.buf() == frame(self.buf(), reply)
                &&& if self.suite().mac.etm {
                    &&& post.stage() == SealStage::Encrypt
                    &&& action matches SealAction::Encrypt { data }
                    &&& data@ == post.buf().skip(4)
                } else {
                    &&& post.stage() == SealStage::Seal
                    &&& action matches SealAction::Seal { data, seq }
                    &&& data@ == post.buf()
                    &&& seq == self.seq()
                }
            },
            SealStage::Encrypt => if self.suite().mac.etm {
                &&& post.stage() == SealStage::Seal
                &&& post.buf() == self.buf().take(4) + reply
                &&& action matches SealAction::Seal { data, seq }
                &&& data@ == post.buf()
                &&& seq == self.seq()
            } else {
                &&& post.stage() == SealStage::Closed
                &&& action matches SealAction::Write { data, seq }
                &&& data@ == reply + self.mac()
                &&& seq == next_seq(self.seq())
            },
            SealStage::Seal => if self.suite().mac.etm {
                &&& post.stage() == SealStage::Closed
                &&& action matches SealAction::Write { data, seq }
                &&& data@ == self.buf() + reply
                &&& seq == next_seq(self.seq())
            } else {
                &&& post.stage() == SealStage::Encrypt
                &&& post.buf() == self.buf()
                &&& post.mac() == reply
                &&& action matches SealAction::Encrypt { data }
                &&& data@ == self.buf()
            },
            SealStage::Closed => false,
        }
    }

    /// Begins to write `packet` with the sequence number `seq`: its
    /// payload is handed over to be compressed.
    pub fn start(suite: Suite, seq: u32, packet: &Packet) -> (r: (Sealer, SealAction))
        requires
            suite.wf(),
        ensures
            r.0.valid(),
            r.0.suite() == suite,
            r.0.seq() == seq,
            r.0.stage() == SealStage::Deflate,
            r.1 matches SealAction::Compress { data } && data@ == packet@,
    {
        let data = slice_to_vec(packet.0.as_slice());
        (
            Sealer { suite, seq, stage: SealStage::Deflate, buf: Vec::new(), mac: Vec::new() },
            SealAction::Compress { data },
        )
    }

    /// Whether `reply` answers the request that led to this state.
    pub fn accepts(&self, reply: &[u8]) -> (ok: bool)
        ensures
            ok == self.expects(reply@),
    {
        proof {
            use_type_invariant(self);
        }
        match self.stage {
            SealStage::Deflate => true,
            SealStage::Pad => match padding_len(self.buf.len(), self.suite.block_size) {
                Ok(padding) => reply.len() == padding as usize,
                Err(_) => false,
            },
            SealStage::Encrypt => if self.suite.mac.etm {
                reply.len() == self.buf.len() - 4
            } else {
                reply.len() == self.buf.len()
            },
            SealStage::Seal => reply.len() == self.suite.mac.size,
            SealStage::Closed => false,
        }
    }

    /// Takes the next step: `reply` is what came of the request that led
    /// to this state.
    ///
    /// The payload is compressed, padded and framed. With "encrypt then
    /// MAC" everything behind the length field is encrypted and the code
    /// is computed over the length field and the ciphertext; else the
    /// code is computed over the plaintext and then all of the plaintext
    /// is encrypted. The code follows the packet unencrypted.
    pub fn step(self, reply: Vec<u8>) -> (r: (Sealer, SealAction))
        requires
            self.expects(reply@),
        ensures
            r.0.valid(),
            self.steps(reply@, r.0, r.1),
    {
        proof {
            use_type_invariant(&self);
        }
        let Sealer { suite, seq, stage, buf, mac } = self;
        match stage {
            SealStage::Deflate => match padding_len(reply.len(), suite.block_size) {
                Err(error) => (
                    Sealer { suite, seq, stage: SealStage::Closed, buf, mac },
                    SealAction::Fail { error },
                ),
                Ok(padding) => (
                    Sealer { suite, seq, stage: SealStage::Pad, buf: reply, mac },
                    SealAction::Random { count: padding as usize },
                ),
            },
            SealStage::Pad => match build_frame(buf.as_slice(), reply.as_slice()) {
                Err(error) => (
                    Sealer { suite, seq, stage: SealStage::Closed, buf, mac },
                    SealAction::Fail { error },
                ),
                Ok(plain) => {
                    assert(plain@.len() == 5 + buf@.len() + reply@.len());
                    if suite.mac.etm {
                        let data = slice_to_vec(slice_subrange(plain.as_slice(), 4, plain.len()));
                        assert(data@ =~= plain@.skip(4));
                        (
                            Sealer { suite, seq, stage: SealStage::Encrypt, buf: plain, mac },
                            SealAction::Encrypt { data },
                        )
                    } else {
                        let data = slice_to_vec(plain.as_slice());
                        (
                            Sealer { suite, seq, stage: SealStage::Seal, buf: plain, mac },
                            SealAction::Seal { data, seq },
                        )
                    }
                },
            },
            SealStage::Encrypt => {
                if suite.mac.etm {
                    let mut sealed = slice_to_vec(slice_subrange(buf.as_slice(), 0, 4));
                    sealed.extend_from_slice(reply.as_slice());
                    assert(sealed@ =~= buf@.take(4) + reply@);
                    let data = slice_to_vec(sealed.as_slice());
                    (
                        Sealer { suite, seq, stage: SealStage::Seal, buf: sealed, mac },
                        SealAction::Seal { data, seq },
                    )
                } else {
                    let mut data = reply;
                    let ghost cipher = data@;
                    data.extend_from_slice(mac.as_slice());
                    assert(data@ =~= cipher + mac@);
                    (
                        Sealer { suite, seq, stage: SealStage::Closed, buf, mac },
                        SealAction::Write { data, seq: advance(seq) },
                    )
                }
            },
            SealStage::Seal => {
                if suite.mac.etm {
                    let mut data = slice_to_vec(buf.as_slice());
                    data.extend_from_slice(reply.as_slice());
                    assert(data@ =~= buf@ + reply@);
                    (
                        Sealer { suite, seq, stage: SealStage::Closed, buf, mac },
                        SealAction::Write { data, seq: advance(seq) },
                    )
                } else {
                    let data = slice_to_vec(buf.as_slice());
                    (
                        Sealer { suite, seq, stage: SealStage::Encrypt, buf, mac: reply },
                        SealAction::Encrypt { data },
                    )
                }
            },
            SealStage::Closed => (
                Sealer { suite, seq, stage: SealStage::Closed, buf, mac },
                SealAction::Fail { error: Error::EncodingOverflow },
            ),
        }
    }
}

} // verus!
