//! Facilities to produce some of the _exchange hashes_.

use vstd::prelude::*;

use crate::arch::{Bytes, MpInt};
use crate::error::{Error, ErrorKind};
use crate::trans::KexInit;
use crate::wire::{to_bytes, Encode};

pub mod lengthed;

pub use lengthed::Lengthed;

verus! {

/// The exchange hash for ECDH, computed as the
/// hash of the concatenation of the following.
///
/// see <https://datatracker.ietf.org/doc/html/rfc5656#section-4>.
#[derive(Debug)]
pub struct Ecdh<'b> {
    /// Client's identification string (`\r` and `\n` excluded).
    pub v_c: Bytes<'b>,

    /// Server's identification string (`\r` and `\n` excluded).
    pub v_s: Bytes<'b>,

    /// Payload of the client's `SSH_MSG_KEXINIT` message.
    pub i_c: Lengthed<&'b KexInit>,

    /// Payload of the server's `SSH_MSG_KEXINIT` message.
    pub i_s: Lengthed<&'b KexInit>,

    /// Server's public host key.
    pub k_s: Bytes<'b>,

    /// Client's ephemeral public key octet string.
    pub q_c: Bytes<'b>,

    /// Server's ephemeral public key octet string.
    pub q_s: Bytes<'b>,

    /// Computed shared secret.
    pub k: MpInt,
}

impl<'b> Encode for Ecdh<'b> {
    open spec fn wire(&self) -> Seq<u8> {
        self.fields().wire()
    }

    open spec fn fits(&self) -> bool {
        self.fields().fits()
    }

    fn encode(&self, out: &mut Vec<u8>) -> (r: Result<(), Error>) {
        (
            &self.v_c,
            (&self.v_s, (&self.i_c, (&self.i_s, (&self.k_s, (&self.q_c, (&self.q_s, &self.k)))))),
        ).encode(out)
    }
}

impl<'b> Ecdh<'b> {
    /// The fields in the order in which the protocol hashes them. The
    /// order is part of the protocol: another order gives another hash.
    pub open spec fn fields(&self) -> (
        Bytes<'b>,
        (
            Bytes<'b>,
            (
                Lengthed<&'b KexInit>,
                (Lengthed<&'b KexInit>, (Bytes<'b>, (Bytes<'b>, (Bytes<'b>, MpInt)))),
            ),
        ),
    ) {
        (
            self.v_c,
            (self.v_s, (self.i_c, (self.i_s, (self.k_s, (self.q_c, (self.q_s, self.k)))))),
        )
    }

    /// The bytes whose digest is the exchange hash.
    pub fn hash_input(&self) -> (r: Result<Vec<u8>, Error>)
        ensures
            self.fits() ==> r is Ok && r->Ok_0@ == self.wire(),
            !self.fits() ==> r is Err && r->Err_0.spec_kind() == ErrorKind::EncodingOverflow,
    {
        to_bytes(self)
    }
}

} // verus!
