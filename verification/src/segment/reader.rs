//! Reads the blobs of a segment file, one after the other.

use crate::blob::{decode_blob, decoded_blob, Blob, Decoded};
use crate::error::Error;
use crate::serde::DeserializeError;
use crate::version::{parsed_file_header, Version};
use vstd::prelude::*;

verus! {

/// The state of a segment reader as plain values.
pub struct SegmentReaderView {
    /// The bytes of the segment's file
    pub bytes: Seq<u8>,
    /// The position of the next record
    pub pos: int,
}

/// Reads a segment file from its first record to its last. The reader goes
/// forward only; a single blob is read by its handle instead.
pub struct SegmentReader {
    bytes: Vec<u8>,
    pos: usize,
}

impl View for SegmentReader {
    type V = SegmentReaderView;

    closed spec fn view(&self) -> SegmentReaderView {
        SegmentReaderView { bytes: self.bytes@, pos: self.pos as int }
    }
}

impl SegmentReader {
    #[verifier::type_invariant]
    spec fn inv(&self) -> bool {
        self.pos <= self.bytes@.len()
    }

    /// Begins to read a segment file. Fails with `InvalidHeader` where the
    /// bytes do not start with the file header of a known version.
    pub fn new(bytes: Vec<u8>) -> (r: Result<Self, Error>)
        ensures
            match parsed_file_header(bytes@) {
                Some(_) => r matches Ok(reader) && reader@ == (SegmentReaderView {
                    bytes: bytes@,
                    pos: 5,
                }),
                None => r matches Err(Error::Deserialize(DeserializeError::InvalidHeader(name)))
                    && name@ == "Segment"@,
            },
    {
        match Version::parse_file_header(bytes.as_slice()) {
            Some(_) => Ok(SegmentReader { bytes, pos: 5 }),
            None => Err(Error::Deserialize(DeserializeError::InvalidHeader("Segment"))),
        }
    }

    /// Reads the next blob and returns it with the position at which its
    /// record begins, that is the offset of its handle.
    ///
    /// Gives `None` where the file ends in front of the next record. A file
    /// that ends within a record, or a record whose header names no
    /// compression type, gives an error, and nothing is read after it.
    pub fn next(&mut self) -> (r: Option<Result<(Blob, u64), Error>>)
        ensures
            final(self)@.bytes == old(self)@.bytes,
            old(self)@.pos <= old(self)@.bytes.len(),
            old(self)@.pos == old(self)@.bytes.len() ==> r is None && final(self)@ == old(self)@,
            old(self)@.pos < old(self)@.bytes.len() ==> match decoded_blob(
                old(self)@.bytes,
                old(self)@.pos,
            ) {
                Decoded::Record { blob, end } => r matches Some(Ok((b, offset))) && b@ == blob
                    && offset == old(self)@.pos && final(self)@.pos == end,
                Decoded::Truncated => r matches Some(
                    Err(Error::Deserialize(DeserializeError::Io(_))),
                ) && final(self)@.pos == old(self)@.bytes.len(),
                Decoded::InvalidTag(tag) => r matches Some(
                    Err(Error::Deserialize(DeserializeError::InvalidTag(found))),
                ) && found.1 == tag && final(self)@.pos == old(self)@.bytes.len(),
            },
    {
        proof {
            use_type_invariant(&*self);
        }
        if self.pos == self.bytes.len() {
            return None;
        }
        match decode_blob(self.bytes.as_slice(), self.pos) {
            Ok((blob, end)) => {
                let offset = self.pos as u64;
                self.pos = end;
                Some(Ok((blob, offset)))
            },
            Err(e) => {
                self.pos = self.bytes.len();
                Some(Err(Error::Deserialize(e)))
            },
        }
    }
}

} // verus!
