//! The options of a value log.

use crate::compression::CompressionType;
use vstd::prelude::*;

verus! {

/// The options of a value log.
#[derive(Copy, Clone, Debug)]
pub struct Config {
    /// Size at which a segment is sealed and a new one is begun
    pub segment_size_bytes: u64,
    /// How payloads are compressed
    pub compression: CompressionType,
    /// Payloads shorter than this are stored as they are
    pub compression_threshold: u32,
}

impl Default for Config {
    fn default() -> (config: Self)
        ensures
            config.segment_size_bytes == 256 * 1024 * 1024,
            config.compression == CompressionType::Uncompressed,
            config.compression_threshold == 0,
    {
        Config {
            segment_size_bytes: 256 * 1024 * 1024,
            compression: CompressionType::Uncompressed,
            compression_threshold: 0,
        }
    }
}

impl Config {
    /// How a payload of `value_len` bytes is to be stored under these
    /// options: compressed where a compression type is set and the payload
    /// reaches the threshold, as it is otherwise.
    pub open spec fn spec_compression_for(self, value_len: nat) -> CompressionType {
        if value_len >= self.compression_threshold {
            self.compression
        } else {
            CompressionType::Uncompressed
        }
    }

    /// Sets the size at which a segment is sealed.
    pub fn segment_size_bytes(self, bytes: u64) -> (config: Self)
        ensures
            config == (Config { segment_size_bytes: bytes, ..self }),
    {
        Config { segment_size_bytes: bytes, ..self }
    }

    /// Sets the compression type.
    pub fn compression(self, compression: CompressionType) -> (config: Self)
        ensures
            config == (Config { compression, ..self }),
    {
        Config { compression, ..self }
    }

    /// Sets the length below which payloads are not compressed.
    pub fn compression_threshold(self, bytes: u32) -> (config: Self)
        ensures
            config == (Config { compression_threshold: bytes, ..self }),
    {
        Config { compression_threshold: bytes, ..self }
    }

    /// How a payload of `value_len` bytes is to be stored.
    pub fn compression_for(&self, value_len: usize) -> (compression: CompressionType)
        ensures
            compression == self.spec_compression_for(value_len as nat),
    {
        if value_len >= self.compression_threshold as usize {
            self.compression
        } else {
            CompressionType::Uncompressed
        }
    }
}

} // verus!
