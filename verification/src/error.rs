//! The error type of the value log.

use crate::serde::{DeserializeError, SerializeError};
use crate::version::Version;
use vstd::prelude::*;
use vstd::std_specs::convert::FromSpecImpl;

verus! {

/// Represents errors that can occur in the value log
#[derive(Debug)]
pub enum Error {
    /// I/O error
    Io(std::io::Error),
    /// Invalid data format version
    InvalidVersion(Option<Version>),
    /// Serialization failed
    Serialize(SerializeError),
    /// Deserialization failed
    Deserialize(DeserializeError),
    /// Compression failed
    Compress,
    /// Decompression failed
    Decompress,
}

impl From<std::io::Error> for Error {
    fn from(value: std::io::Error) -> (e: Self) {
        Self::Io(value)
    }
}

impl FromSpecImpl<std::io::Error> for Error {
    open spec fn obeys_from_spec() -> bool {
        true
    }

    open spec fn from_spec(value: std::io::Error) -> Self {
        Error::Io(value)
    }
}

impl From<SerializeError> for Error {
    fn from(value: SerializeError) -> (e: Self) {
        Self::Serialize(value)
    }
}

impl FromSpecImpl<SerializeError> for Error {
    open spec fn obeys_from_spec() -> bool {
        true
    }

    open spec fn from_spec(value: SerializeError) -> Self {
        Error::Serialize(value)
    }
}

impl From<DeserializeError> for Error {
    fn from(value: DeserializeError) -> (e: Self) {
        Self::Deserialize(value)
    }
}

impl FromSpecImpl<DeserializeError> for Error {
    open spec fn obeys_from_spec() -> bool {
        true
    }

    open spec fn from_spec(value: DeserializeError) -> Self {
        Error::Deserialize(value)
    }
}

impl Error {
    /// The error as a line of text: `ValueLogError: ` and the debug form of
    /// the error. This is `format!` from std, of which nothing is claimed.
    #[verifier::external_body]
    pub fn to_string(&self) -> String {
        format!("ValueLogError: {self:?}")
    }
}

/// Value log result
pub type Result<T> = std::result::Result<T, Error>;

} // verus!
