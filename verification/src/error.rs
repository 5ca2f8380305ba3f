//! Contains [`Error`].
use crate::varint::DecodeError;
use vstd::prelude::*;
use vstd::std_specs::convert::FromSpecImpl;

verus! {

/// Error from this crate.
#[derive(Debug, Clone, Copy, PartialEq, Eq, Structural)]
pub enum Error {
    /// Generic error when the file is out of spec.
    OutOfSpec,
    /// When reading or writing with a codec that is not available.
    RequiresCompression,
}

impl Error {
    /// The name of the variant, as text.
    pub fn to_string(&self) -> (text: String)
        ensures
            text@ == (match *self {
                Error::OutOfSpec => "OutOfSpec"@,
                Error::RequiresCompression => "RequiresCompression"@,
            }),
    {
        match self {
            Error::OutOfSpec => "OutOfSpec".to_owned(),
            Error::RequiresCompression => "RequiresCompression".to_owned(),
        }
    }
}

/// `std::io::Error`, of which nothing is seen here.
#[verifier::external_type_specification]
#[verifier::external_body]
pub struct ExIoError(std::io::Error);

impl From<std::io::Error> for Error {
    fn from(error: std::io::Error) -> (converted: Self) {
        Error::OutOfSpec
    }
}

impl FromSpecImpl<std::io::Error> for Error {
    open spec fn obeys_from_spec() -> bool {
        true
    }

    open spec fn from_spec(error: std::io::Error) -> Self {
        Error::OutOfSpec
    }
}

impl From<DecodeError> for Error {
    fn from(error: DecodeError) -> (converted: Self) {
        Error::OutOfSpec
    }
}

impl FromSpecImpl<DecodeError> for Error {
    open spec fn obeys_from_spec() -> bool {
        true
    }

    open spec fn from_spec(error: DecodeError) -> Self {
        Error::OutOfSpec
    }
}

} // verus!
