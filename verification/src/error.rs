//! The errors of the codec and of the framer.

use vstd::prelude::*;
use vstd::std_specs::convert::FromSpecImpl;

use crate::arch::id::ParseError;

verus! {

/// What went wrong, without the data that came with it.
#[derive(Debug, Clone, Copy, PartialEq, Eq, Structural)]
pub enum ErrorKind {
    /// The buffer is shorter than a declared field requires.
    TruncatedInput,
    /// A declared packet length exceeds the maximum packet size.
    OversizedPacket,
    /// The padding length is inconsistent with the declared packet length.
    PaddingTooLarge,
    /// The message authentication code did not verify.
    AuthenticationFailed,
    /// A discriminator names no variant of the set it selects from.
    UnknownVariant,
    /// A text does not obey its encoding (UTF-8, ASCII, name-list syntax).
    ConstraintViolation,
    /// A serialized size does not fit the length field that announces it.
    EncodingOverflow,
    /// An identification string is misformatted or misprefixed.
    BadIdentifier,
}

/// The error type used in the library.
#[derive(Debug, Clone, PartialEq, Eq)]
pub enum Error {
    /// The buffer is shorter than a declared field requires.
    TruncatedInput,
    /// A declared packet length exceeds the maximum packet size.
    OversizedPacket,
    /// The padding length is inconsistent with the declared packet length.
    PaddingTooLarge,
    /// The message authentication code did not verify.
    AuthenticationFailed,
    /// A discriminator names no variant; the bytes of the discriminator
    /// that was read are kept.
    UnknownVariant(Vec<u8>),
    /// A text does not obey its encoding (UTF-8, ASCII, name-list syntax).
    ConstraintViolation,
    /// A serialized size does not fit the length field that announces it.
    EncodingOverflow,
    /// An identification string is misformatted or misprefixed; the
    /// offending text is kept.
    BadIdentifier(String),
}

impl Error {
    /// The kind of an error as a specification value.
    pub open spec fn spec_kind(&self) -> ErrorKind {
        match self {
            Error::TruncatedInput => ErrorKind::TruncatedInput,
            Error::OversizedPacket => ErrorKind::OversizedPacket,
            Error::PaddingTooLarge => ErrorKind::PaddingTooLarge,
            Error::AuthenticationFailed => ErrorKind::AuthenticationFailed,
            Error::UnknownVariant(_) => ErrorKind::UnknownVariant,
            Error::ConstraintViolation => ErrorKind::ConstraintViolation,
            Error::EncodingOverflow => ErrorKind::EncodingOverflow,
            Error::BadIdentifier(_) => ErrorKind::BadIdentifier,
        }
    }

    /// The kind of this error.
    #[verifier::when_used_as_spec(spec_kind)]
    pub fn kind(&self) -> (k: ErrorKind)
        ensures
            k == self.spec_kind(),
    {
        match self {
            Error::TruncatedInput => ErrorKind::TruncatedInput,
            Error::OversizedPacket => ErrorKind::OversizedPacket,
            Error::PaddingTooLarge => ErrorKind::PaddingTooLarge,
            Error::AuthenticationFailed => ErrorKind::AuthenticationFailed,
            Error::UnknownVariant(_) => ErrorKind::UnknownVariant,
            Error::ConstraintViolation => ErrorKind::ConstraintViolation,
            Error::EncodingOverflow => ErrorKind::EncodingOverflow,
            Error::BadIdentifier(_) => ErrorKind::BadIdentifier,
        }
    }
}

impl From<ParseError> for Error {
    fn from(value: ParseError) -> (e: Self)
        ensures
            e.spec_kind() == ErrorKind::BadIdentifier,
    {
        match value {
            ParseError::Format(text) => Error::BadIdentifier(text),
        }
    }
}

impl FromSpecImpl<ParseError> for Error {
    open spec fn obeys_from_spec() -> bool {
        true
    }

    open spec fn from_spec(value: ParseError) -> Self {
        match value {
            ParseError::Format(text) => Error::BadIdentifier(text),
        }
    }
}

} // verus!
