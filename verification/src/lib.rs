//! Wire codec and packet framing for the SSH protocol.
//!
//! The crate turns typed SSH values and messages into their exact byte
//! representation and back, and frames payloads into transport packets.
//! Every function is verified against a contract stated over sequences of
//! bytes.

use vstd::prelude::*;

pub mod error;
pub mod wire;
pub mod arch;
pub mod dispatch;
pub mod framing;
pub mod packet;
pub mod plain;
pub mod kex;
pub mod trans;
pub mod connect;
pub mod userauth;
pub mod sig;

pub use error::{Error, ErrorKind};

verus! {

/// Maximum size for a packet, coincidentally this is
/// the maximum size for a TCP packet.
pub const MAX_SIZE: usize = 65535;

/// Minimum size for a packet, coincidentally this is
/// the largest block cipher's block-size.
pub const MIN_SIZE: usize = 16;

} // verus!
