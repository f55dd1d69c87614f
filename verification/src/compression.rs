//! How the payload of a blob is stored.

use vstd::prelude::*;
use vstd::std_specs::convert::{FromSpecImpl, TryFromSpecImpl};

verus! {

/// Compression type
#[derive(Copy, Clone, Debug, Eq, PartialEq, Structural)]
pub enum CompressionType {
    /// No compression
    Uncompressed,
    /// LZ4 compression (speed-optimized)
    Lz4,
    /// Zlib/DEFLATE compression (space-optimized)
    Miniz,
}

impl From<CompressionType> for u8 {
    fn from(val: CompressionType) -> (tag: u8) {
        match val {
            CompressionType::Uncompressed => 0,
            CompressionType::Lz4 => 1,
            CompressionType::Miniz => 2,
        }
    }
}

impl FromSpecImpl<CompressionType> for u8 {
    open spec fn obeys_from_spec() -> bool {
        true
    }

    open spec fn from_spec(val: CompressionType) -> u8 {
        val.tag()
    }
}

impl TryFrom<u8> for CompressionType {
    type Error = ();

    fn try_from(value: u8) -> (r: Result<Self, ()>) {
        match value {
            0 => Ok(Self::Uncompressed),
            1 => Ok(Self::Lz4),
            2 => Ok(Self::Miniz),
            _ => Err(()),
        }
    }
}

impl TryFromSpecImpl<u8> for CompressionType {
    open spec fn obeys_try_from_spec() -> bool {
        true
    }

    open spec fn try_from_spec(value: u8) -> Result<Self, Self::Error> {
        match CompressionType::of_tag(value) {
            Some(compression) => Ok(compression),
            None => Err(()),
        }
    }
}

/// Every compression type is found again from its tag.
pub proof fn lemma_tag_round_trip(compression: CompressionType)
    ensures
        CompressionType::of_tag(compression.tag()) == Some(compression),
{
}

impl CompressionType {
    /// The byte that stands for this compression type on disk.
    pub open spec fn tag(self) -> u8 {
        match self {
            CompressionType::Uncompressed => 0,
            CompressionType::Lz4 => 1,
            CompressionType::Miniz => 2,
        }
    }

    /// The compression type that a byte stands for, if any.
    pub open spec fn of_tag(tag: u8) -> Option<CompressionType> {
        if tag == 0 {
            Some(CompressionType::Uncompressed)
        } else if tag == 1 {
            Some(CompressionType::Lz4)
        } else if tag == 2 {
            Some(CompressionType::Miniz)
        } else {
            None
        }
    }

    /// The name of the compression type, as shown to users.
    pub fn to_string(&self) -> (s: String)
        ensures
            s@ == match *self {
                CompressionType::Uncompressed => "no compression"@,
                CompressionType::Lz4 => "lz4"@,
                CompressionType::Miniz => "miniz"@,
            },
    {
        match self {
            Self::Uncompressed => "no compression".to_owned(),
            Self::Lz4 => "lz4".to_owned(),
            Self::Miniz => "miniz".to_owned(),
        }
    }
}

} // verus!
