//! Appends blobs to one segment.
//!
//! The writer keeps the books of a segment file: where the next record
//! goes and what has been written. It hands out the bytes to append; the
//! caller puts them into the file, in the order in which they were handed
//! out.

use crate::blob::{
    checked_value_len, encodable, encode_blob, encoded_blob, encoded_len, lemma_encoded_len, BLOB_HEADER_LEN,
    MAX_KEY_LEN, MAX_VALUE_LEN,
};
use crate::compression::CompressionType;
use crate::error::Error;
use crate::id::SegmentId;
use crate::serde::{invalid_input, SerializeError};
use crate::version::{file_header, Version};
use vstd::prelude::*;

verus! {

/// The state of a segment writer as plain values.
pub struct SegmentWriterView {
    /// The segment that is written
    pub segment_id: SegmentId,
    /// Every byte handed out for the segment's file so far, header included
    pub contents: Seq<u8>,
    /// Number of blobs written
    pub item_count: u64,
    /// Bytes of the payloads as stored
    pub written_blob_bytes: u64,
    /// Bytes of the payloads before compression
    pub uncompressed_bytes: u64,
}

impl SegmentWriterView {
    /// A writer that has handed out the file header and nothing else.
    pub open spec fn fresh(segment_id: SegmentId) -> SegmentWriterView {
        SegmentWriterView {
            segment_id,
            contents: file_header(Version::V1),
            item_count: 0,
            written_blob_bytes: 0,
            uncompressed_bytes: 0,
        }
    }

    /// The counters are within the file: no more blobs and no more payload
    /// bytes than bytes in the file, and the file position fits into `u64`.
    pub open spec fn wf(self) -> bool {
        &&& self.contents.len() <= u64::MAX
        &&& self.item_count <= self.contents.len()
        &&& self.written_blob_bytes <= self.contents.len()
    }

    /// Whether the writer takes a blob: key and payload fit into a record,
    /// a payload that is stored as it is has the length that is claimed for
    /// it, and neither the file position nor the byte count leaves `u64`.
    pub open spec fn accepts(
        self,
        key: Seq<u8>,
        payload: Seq<u8>,
        compression: CompressionType,
        uncompressed_len: u32,
    ) -> bool {
        &&& encodable(key, payload)
        &&& compression == CompressionType::Uncompressed ==> uncompressed_len == payload.len()
        &&& self.contents.len() + encoded_len(key, payload) <= u64::MAX
        &&& self.uncompressed_bytes + uncompressed_len <= u64::MAX
    }

    /// The writer after it took a blob.
    pub open spec fn appended(
        self,
        key: Seq<u8>,
        payload: Seq<u8>,
        compression: CompressionType,
        uncompressed_len: u32,
    ) -> SegmentWriterView {
        SegmentWriterView {
            segment_id: self.segment_id,
            contents: self.contents + encoded_blob(key, payload, compression),
            item_count: (self.item_count + 1) as u64,
            written_blob_bytes: (self.written_blob_bytes + payload.len()) as u64,
            uncompressed_bytes: (self.uncompressed_bytes + uncompressed_len) as u64,
        }
    }
}

/// Writes one segment.
pub struct SegmentWriter {
    segment_id: SegmentId,
    offset: u64,
    item_count: u64,
    written_blob_bytes: u64,
    uncompressed_bytes: u64,
    contents: Ghost<Seq<u8>>,
}

impl View for SegmentWriter {
    type V = SegmentWriterView;

    closed spec fn view(&self) -> SegmentWriterView {
        SegmentWriterView {
            segment_id: self.segment_id,
            contents: self.contents@,
            item_count: self.item_count,
            written_blob_bytes: self.written_blob_bytes,
            uncompressed_bytes: self.uncompressed_bytes,
        }
    }
}

impl SegmentWriter {
    #[verifier::type_invariant]
    spec fn inv(&self) -> bool {
        &&& self.offset == self.contents@.len()
        &&& self.item_count <= self.offset
        &&& self.written_blob_bytes <= self.offset
    }

    /// Begins the segment `segment_id`. Returns the writer and the file
    /// header, which are the first bytes of the segment's file.
    pub fn new(segment_id: SegmentId) -> (r: (Self, Vec<u8>))
        ensures
            r.0@ == SegmentWriterView::fresh(segment_id),
            r.0@.wf(),
            r.1@ == file_header(Version::V1),
    {
        let mut header: Vec<u8> = Vec::new();
        let _ = Version::V1.write_file_header(&mut header);
        assert(header@ =~= file_header(Version::V1));
        let writer = SegmentWriter {
            segment_id,
            offset: 5,
            item_count: 0,
            written_blob_bytes: 0,
            uncompressed_bytes: 0,
            contents: Ghost(file_header(Version::V1)),
        };
        (writer, header)
    }

    /// The segment that is written.
    pub fn segment_id(&self) -> (id: SegmentId)
        ensures
            id == self@.segment_id,
            self@.wf(),
    {
        proof {
            use_type_invariant(self);
        }
        self.segment_id
    }

    /// The position in the file at which the next record will begin. A
    /// caller asks for it before the write, to put the handle into the
    /// index first. The key plays no part in it.
    pub fn offset(&self, key: &[u8]) -> (offset: u64)
        ensures
            offset == self@.contents.len(),
    {
        proof {
            use_type_invariant(self);
        }
        self.offset
    }

    /// Number of blobs written.
    pub fn item_count(&self) -> (n: u64)
        ensures
            n == self@.item_count,
    {
        self.item_count
    }

    /// Bytes of the payloads as stored.
    pub fn written_blob_bytes(&self) -> (n: u64)
        ensures
            n == self@.written_blob_bytes,
    {
        self.written_blob_bytes
    }

    /// Bytes of the payloads before compression.
    pub fn uncompressed_bytes(&self) -> (n: u64)
        ensures
            n == self@.uncompressed_bytes,
    {
        self.uncompressed_bytes
    }

    /// Whether the writer takes a blob. See [`SegmentWriterView::accepts`].
    pub fn accepts(
        &self,
        key: &[u8],
        payload: &[u8],
        compression: CompressionType,
        uncompressed_len: u32,
    ) -> (accepted: bool)
        ensures
            accepted == self@.accepts(key@, payload@, compression, uncompressed_len),
    {
        proof {
            use_type_invariant(self);
        }
        if key.len() == 0 || key.len() > MAX_KEY_LEN || payload.len() > MAX_VALUE_LEN {
            return false;
        }
        let stored_as_is = match compression {
            CompressionType::Uncompressed => true,
            _ => false,
        };
        if stored_as_is && uncompressed_len as usize != payload.len() {
            return false;
        }
        let record_len = BLOB_HEADER_LEN as u64 + key.len() as u64 + payload.len() as u64;
        self.offset.checked_add(record_len).is_some() && self.uncompressed_bytes.checked_add(
            uncompressed_len as u64,
        ).is_some()
    }

    /// Takes a blob whose payload is stored as it is, and returns the
    /// record to append to the file. A blob that the writer does not accept
    /// fails with a serialization error and leaves the writer as it was.
    pub fn write(&mut self, key: &[u8], value: &[u8]) -> (r: Result<Vec<u8>, Error>)
        ensures
            r is Ok <==> value@.len() <= u32::MAX && old(self)@.accepts(
                key@,
                value@,
                CompressionType::Uncompressed,
                value@.len() as u32,
            ),
            r matches Ok(record) ==> record@ == encoded_blob(
                key@,
                value@,
                CompressionType::Uncompressed,
            ) && final(self)@ == old(self)@.appended(
                key@,
                value@,
                CompressionType::Uncompressed,
                value@.len() as u32,
            ),
            r matches Err(e) ==> e is Serialize && final(self)@ == old(self)@,
            final(self)@.wf(),
    {
        proof {
            use_type_invariant(&*self);
        }
        let len = match checked_value_len(value) {
            Ok(len) => len,
            Err(e) => {
                return Err(Error::Serialize(e));
            },
        };
        self.write_compressed(key, value, CompressionType::Uncompressed, len)
    }

    /// Takes a blob whose payload the caller has prepared: `payload` is
    /// what is stored, `compression` says how to read it, and
    /// `uncompressed_len` is the length of the value that it stands for.
    /// Returns the record to append to the file. A blob that the writer
    /// does not accept fails with a serialization error and leaves the
    /// writer as it was.
    pub fn write_compressed(
        &mut self,
        key: &[u8],
        payload: &[u8],
        compression: CompressionType,
        uncompressed_len: u32,
    ) -> (r: Result<Vec<u8>, Error>)
        ensures
            r is Ok <==> old(self)@.accepts(key@, payload@, compression, uncompressed_len),
            r matches Ok(record) ==> record@ == encoded_blob(key@, payload@, compression)
                && final(self)@ == old(self)@.appended(
                key@,
                payload@,
                compression,
                uncompressed_len,
            ),
            r matches Err(e) ==> e is Serialize && final(self)@ == old(self)@,
            final(self)@.wf(),
    {
        proof {
            use_type_invariant(&*self);
            lemma_encoded_len(key@, payload@, compression);
        }
        let record = match encode_blob(key, payload, compression) {
            Ok(record) => record,
            Err(e) => { return Err(Error::Serialize(e)); },
        };
        let stored_as_is = match compression {
            CompressionType::Uncompressed => true,
            _ => false,
        };
        let claimed_len_is_wrong = stored_as_is && uncompressed_len as usize != payload.len();
        let new_offset = self.offset.checked_add(record.len() as u64);
        let new_uncompressed = self.uncompressed_bytes.checked_add(uncompressed_len as u64);
        match (claimed_len_is_wrong, new_offset, new_uncompressed) {
            (false, Some(offset), Some(uncompressed_bytes)) => {
                *self = SegmentWriter {
                    segment_id: self.segment_id,
                    offset,
                    item_count: self.item_count + 1,
                    written_blob_bytes: self.written_blob_bytes + payload.len() as u64,
                    uncompressed_bytes,
                    contents: Ghost(self.contents@ + record@),
                };
                Ok(record)
            },
            _ => Err(Error::Serialize(SerializeError::Io(invalid_input()))),
        }
    }
}

} // verus!
