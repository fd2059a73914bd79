//! Types defined in the SSH's **architecture** (`SSH-ARCH`) part of the protocol,
//! as defined in the [RFC 4251](https://datatracker.ietf.org/doc/html/rfc4251).

pub mod boolean;
pub mod bytes;
pub mod id;
pub mod mpint;
pub mod namelist;
pub mod secret;
pub mod string;

pub use boolean::Bool;
pub use bytes::Bytes;
pub use mpint::MpInt;
pub use namelist::NameList;
pub use secret::Secret;
pub use string::{StringAscii, StringUtf8};
