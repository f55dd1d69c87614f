//! The format version and the file header that carries it.

use crate::coding::{lemma_be_two_bytes, put_u16, read_u16_be};
use vstd::prelude::*;
use vstd::slice::slice_subrange;
use vstd::std_specs::convert::{FromSpecImpl, TryFromSpecImpl};

verus! {

/// Disk format version
#[derive(Copy, Clone, Debug, Eq, PartialEq, Structural)]
pub enum Version {
    /// Version for 1.x.x releases
    V1,
}

impl From<Version> for u16 {
    fn from(value: Version) -> (n: u16) {
        match value {
            Version::V1 => 1,
        }
    }
}

impl FromSpecImpl<Version> for u16 {
    open spec fn obeys_from_spec() -> bool {
        true
    }

    open spec fn from_spec(value: Version) -> u16 {
        value.number()
    }
}

impl TryFrom<u16> for Version {
    type Error = ();

    fn try_from(value: u16) -> (r: Result<Self, ()>) {
        match value {
            1 => Ok(Self::V1),
            _ => Err(()),
        }
    }
}

impl TryFromSpecImpl<u16> for Version {
    open spec fn obeys_try_from_spec() -> bool {
        true
    }

    open spec fn try_from_spec(value: u16) -> Result<Self, Self::Error> {
        match Version::of_number(value) {
            Some(version) => Ok(version),
            None => Err(()),
        }
    }
}

/// The three bytes every file of the log starts with: `V`, `L`, `G`.
pub const MAGIC_BYTES: [u8; 3] = [0x56, 0x4c, 0x47];

/// Length of a file header in bytes.
pub const FILE_HEADER_LEN: usize = 5;

/// The file header of a version: the magic bytes, then the version number
/// as a big-endian `u16`.
pub open spec fn file_header(version: Version) -> Seq<u8> {
    seq![
        0x56u8,
        0x4cu8,
        0x47u8,
        (version.number() / 256) as u8,
        (version.number() % 256) as u8,
    ]
}

/// The version that a file header names, if `bytes` start with one.
pub open spec fn parsed_file_header(bytes: Seq<u8>) -> Option<Version> {
    if bytes.len() >= 5 && bytes[0] == 0x56 && bytes[1] == 0x4c && bytes[2] == 0x47 {
        Version::of_number((bytes[3] as int * 256 + bytes[4] as int) as u16)
    } else {
        None
    }
}

/// A header that was written is read back as the version it was written for,
/// whatever follows it.
pub proof fn lemma_file_header_round_trip(version: Version, rest: Seq<u8>)
    ensures
        file_header(version).len() == 5,
        parsed_file_header(file_header(version) + rest) == Some(version),
{
}

impl Version {
    /// The number that stands for this version on disk.
    pub open spec fn number(self) -> u16 {
        match self {
            Version::V1 => 1,
        }
    }

    /// The version that a number stands for, if any.
    pub open spec fn of_number(number: u16) -> Option<Version> {
        if number == 1 {
            Some(Version::V1)
        } else {
            None
        }
    }

    /// Length of the file header in bytes.
    pub fn len() -> (n: u8)
        ensures
            n == 5,
    {
        5
    }

    /// The version number in decimal.
    pub fn to_string(&self) -> (s: String)
        ensures
            s@ == "1"@,
    {
        match self {
            Version::V1 => "1".to_owned(),
        }
    }

    /// Reads the version out of the file header that `bytes` start with.
    /// Gives `None` where the bytes are too few, do not start with the
    /// magic bytes, or name a version that this library does not know.
    pub fn parse_file_header(bytes: &[u8]) -> (version: Option<Self>)
        ensures
            version == parsed_file_header(bytes@),
    {
        if bytes.len() < 3 {
            return None;
        }
        if bytes[0] == MAGIC_BYTES[0] && bytes[1] == MAGIC_BYTES[1] && bytes[2] == MAGIC_BYTES[2] {
            if bytes.len() < 5 {
                return None;
            }
            let next_two = slice_subrange(bytes, 3, 5);
            let value = read_u16_be(next_two);
            proof {
                assert(next_two@.subrange(0, 2) =~= next_two@);
                lemma_be_two_bytes(next_two@, 0);
            }
            match Self::try_from(value) {
                Ok(version) => Some(version),
                Err(_) => None,
            }
        } else {
            None
        }
    }

    /// Appends the file header of this version to `writer` and returns the
    /// number of bytes written.
    pub fn write_file_header(self, writer: &mut Vec<u8>) -> (written: Result<usize, std::io::Error>)
        ensures
            written matches Ok(n) && n == 5,
            final(writer)@ == old(writer)@ + file_header(self),
    {
        writer.extend_from_slice(MAGIC_BYTES.as_slice());
        put_u16(writer, u16::from(self));
        proof {
            lemma_be_two_bytes(Seq::empty(), self.number() as nat);
            assert(writer@ =~= old(writer)@ + file_header(self));
        }
        Ok(5)
    }
}

} // verus!
