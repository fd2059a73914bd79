//! Facilities to interact with some of the _signature algorithms_.

use vstd::prelude::*;

use crate::arch::boolean::bool_wire;
use crate::arch::string::text_wire;
use crate::arch::{Bool, Bytes, StringAscii, StringUtf8};
use crate::error::{Error, ErrorKind};
use crate::wire::{to_bytes, Encode};

verus! {

/// The data that gets _signed_ and _verified_ to prove the possession of the said private key in
/// the `publickey` authentication method, computed from the concatenation of the following.
///
/// see <https://datatracker.ietf.org/doc/html/rfc4252#section-7>.
#[derive(Debug)]
pub struct Publickey<'b> {
    /// The session identifier issued by the key-exchange.
    pub session_id: Bytes<'b>,

    /// Username for the auth request.
    pub username: StringUtf8,

    /// Service name to query.
    pub service_name: StringAscii,

    /// Public key algorithm's name.
    pub algorithm: Bytes<'b>,

    /// Public key blob.
    pub blob: Bytes<'b>,
}

impl<'b> Encode for Publickey<'b> {
    /// The session identifier, the number of the authentication request,
    /// the user and the service, the method `publickey` with the mark
    /// that a signature follows, and the key.
    open spec fn wire(&self) -> Seq<u8> {
        self.session_id.wire() + seq![50u8] + self.username.wire() + self.service_name.wire()
            + text_wire("publickey"@) + bool_wire(true) + self.algorithm.wire() + self.blob.wire()
    }

    open spec fn fits(&self) -> bool {
        &&& self.session_id.fits()
        &&& self.username.fits()
        &&& self.service_name.fits()
        &&& self.algorithm.fits()
        &&& self.blob.fits()
    }

    fn encode(&self, out: &mut Vec<u8>) -> (r: Result<(), Error>) {
        let magic: u8 = 50;
        let method = StringUtf8::new("publickey");
        let signed = Bool(true);
        proof {
            reveal_strlit("publickey");
            assert(vstd::utf8::is_ascii_chars("publickey"@));
            vstd::utf8::is_ascii_chars_encode_utf8("publickey"@);
        }
        let fields = (
            &self.session_id,
            (
                &magic,
                (
                    &self.username,
                    (&self.service_name, (&method, (&signed, (&self.algorithm, &self.blob)))),
                ),
            ),
        );
        let r = fields.encode(out);
        proof {
            assert(fields.wire() =~= self.wire());
        }
        r
    }
}

impl<'b> Publickey<'b> {
    /// The bytes that get signed and verified.
    pub fn message(&self) -> (r: Result<Vec<u8>, Error>)
        ensures
            self.fits() ==> r is Ok && r->Ok_0@ == self.wire(),
            !self.fits() ==> r is Err && r->Err_0.spec_kind() == ErrorKind::EncodingOverflow,
    {
        to_bytes(self)
    }
}

} // verus!
