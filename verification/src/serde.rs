//! What can go wrong while values are turned into bytes and back, and the
//! two traits that a type with a wire form implements.

use vstd::prelude::*;
use vstd::std_specs::convert::FromSpecImpl;

verus! {

/// `std::io::Error`, carried through the library without being looked into.
#[verifier::external_type_specification]
#[verifier::external_body]
pub struct ExIoError(std::io::Error);

/// Error during serialization
#[derive(Debug)]
pub enum SerializeError {
    /// I/O error
    Io(std::io::Error),
}

/// Error during deserialization
#[derive(Debug)]
pub enum DeserializeError {
    /// I/O error
    Io(std::io::Error),
    /// Invalid enum tag: the name of the enum and the byte that was found
    InvalidTag((&'static str, u8)),
    /// Invalid trailer
    InvalidTrailer,
    /// Invalid block header
    InvalidHeader(&'static str),
}

impl From<std::io::Error> for SerializeError {
    fn from(value: std::io::Error) -> (e: Self) {
        Self::Io(value)
    }
}

impl FromSpecImpl<std::io::Error> for SerializeError {
    open spec fn obeys_from_spec() -> bool {
        true
    }

    open spec fn from_spec(value: std::io::Error) -> Self {
        SerializeError::Io(value)
    }
}

impl From<std::io::Error> for DeserializeError {
    fn from(value: std::io::Error) -> (e: Self) {
        Self::Io(value)
    }
}

impl FromSpecImpl<std::io::Error> for DeserializeError {
    open spec fn obeys_from_spec() -> bool {
        true
    }

    open spec fn from_spec(value: std::io::Error) -> Self {
        DeserializeError::Io(value)
    }
}

/// `std::io::Error::from` on `std::io::ErrorKind::UnexpectedEof`: the error
/// that a reader gives when the bytes end before a value does.
#[verifier::external_body]
pub(crate) fn unexpected_eof() -> std::io::Error {
    std::io::Error::from(std::io::ErrorKind::UnexpectedEof)
}

/// `std::io::Error::from` on `std::io::ErrorKind::InvalidInput`: the error
/// for a value that has no wire form.
#[verifier::external_body]
pub(crate) fn invalid_input() -> std::io::Error {
    std::io::Error::from(std::io::ErrorKind::InvalidInput)
}

/// A value with a wire form.
pub trait Serializable {
    /// The bytes that stand for this value, where it has a wire form.
    spec fn serialized(&self) -> Option<Seq<u8>>;

    /// Appends the wire form to `writer`. On failure `writer` is as it was.
    fn serialize(&self, writer: &mut Vec<u8>) -> (r: Result<(), SerializeError>)
        ensures
            r is Ok ==> self.serialized() is Some && final(writer)@ == old(writer)@
                + self.serialized().unwrap(),
            r is Err ==> final(writer)@ == old(writer)@,
    ;
}

/// A value that can be read back from its wire form.
pub trait Deserializable: Sized {
    /// Reads one value from `bytes`, starting at `start`, and returns it with
    /// the position of the first byte behind it.
    fn deserialize(bytes: &[u8], start: usize) -> (r: Result<(Self, usize), DeserializeError>)
        ensures
            r matches Ok((_, end)) ==> start <= end <= bytes@.len(),
    ;
}

} // verus!
