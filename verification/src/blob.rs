//! The record that holds one blob in a segment file.
//!
//! A record is eight header bytes followed by the key and the stored payload:
//!
//! ```text
//! reserved u8 | key length u16 | payload length u32 | compression u8 | key | payload
//! ```
//!
//! Numbers are big-endian. The reserved byte is written as zero and ignored
//! when a record is read. The payload length is that of the bytes as they
//! are stored, that is after compression.

use crate::coding::{
    be_bytes, be_value, lemma_be_bytes_len, lemma_be_bytes_of_value, lemma_be_limits,
    lemma_be_value_of_bytes, put_u16, put_u32, read_u16_be, read_u32_be,
};
use crate::compression::CompressionType;
use crate::serde::{
    invalid_input, unexpected_eof, DeserializeError, Deserializable, Serializable, SerializeError,
};
use vstd::prelude::*;
use vstd::slice::{slice_subrange, slice_to_vec};

verus! {

/// Length of the header of a record in bytes.
pub const BLOB_HEADER_LEN: usize = 8;

/// The longest key that a record can hold.
pub const MAX_KEY_LEN: usize = 0xffff;

/// The longest payload that a record can hold.
pub const MAX_VALUE_LEN: usize = 0xffff_ffff;

/// One blob as a segment stores it.
#[derive(Debug)]
pub struct Blob {
    /// The key that the index knows the blob by
    pub key: Vec<u8>,
    /// The payload as stored, compressed where `compression` says so
    pub value: Vec<u8>,
    /// How the payload is stored
    pub compression: CompressionType,
}

/// A blob as plain values.
pub struct BlobView {
    pub key: Seq<u8>,
    pub value: Seq<u8>,
    pub compression: CompressionType,
}

impl View for Blob {
    type V = BlobView;

    open spec fn view(&self) -> BlobView {
        BlobView { key: self.key@, value: self.value@, compression: self.compression }
    }
}

/// What reading a record at some position of a file comes to.
pub enum Decoded {
    /// A whole record stands there; `end` is the position behind it.
    Record { blob: BlobView, end: int },
    /// The file ends before the record does.
    Truncated,
    /// The compression byte of the header names no compression type.
    InvalidTag(u8),
}

/// Whether a key and a payload fit into a record: the key is not empty, and
/// both lengths fit into their header fields.
pub open spec fn encodable(key: Seq<u8>, value: Seq<u8>) -> bool {
    1 <= key.len() <= 0xffff && value.len() <= 0xffff_ffff
}

/// The header of the record for a key and a payload of the given lengths.
pub open spec fn encoded_header(key_len: nat, value_len: nat, compression: CompressionType) -> Seq<
    u8,
> {
    seq![0u8] + be_bytes(key_len, 2) + be_bytes(value_len, 4) + seq![compression.tag()]
}

/// The record for a key and a payload.
pub open spec fn encoded_blob(key: Seq<u8>, value: Seq<u8>, compression: CompressionType) -> Seq<
    u8,
> {
    encoded_header(key.len(), value.len(), compression) + key + value
}

/// The length of the record for a key and a payload.
pub open spec fn encoded_len(key: Seq<u8>, value: Seq<u8>) -> nat {
    8 + key.len() + value.len()
}

/// What stands at position `start` of `bytes`.
pub open spec fn decoded_blob(bytes: Seq<u8>, start: int) -> Decoded {
    if start < 0 || start + 8 > bytes.len() {
        Decoded::Truncated
    } else {
        let key_len = be_value(bytes.subrange(start + 1, start + 3));
        let value_len = be_value(bytes.subrange(start + 3, start + 7));
        let tag = bytes[start + 7];
        match CompressionType::of_tag(tag) {
            None => Decoded::InvalidTag(tag),
            Some(compression) => {
                let end = start + 8 + key_len + value_len;
                if end > bytes.len() {
                    Decoded::Truncated
                } else {
                    Decoded::Record {
                        blob: BlobView {
                            key: bytes.subrange(start + 8, start + 8 + key_len),
                            value: bytes.subrange(start + 8 + key_len, end),
                            compression,
                        },
                        end,
                    }
                }
            },
        }
    }
}

pub proof fn lemma_encoded_len(key: Seq<u8>, value: Seq<u8>, compression: CompressionType)
    ensures
        encoded_header(key.len(), value.len(), compression).len() == 8,
        encoded_blob(key, value, compression).len() == encoded_len(key, value),
{
    lemma_be_bytes_len(key.len(), 2);
    lemma_be_bytes_len(value.len(), 4);
}

/// A record that was written is read back as it was written: the same key,
/// the same payload and the same compression type, whatever stands before
/// and behind it in the file.
pub proof fn lemma_blob_round_trip(
    before: Seq<u8>,
    key: Seq<u8>,
    value: Seq<u8>,
    compression: CompressionType,
    behind: Seq<u8>,
)
    requires
        encodable(key, value),
    ensures
        decoded_blob(before + encoded_blob(key, value, compression) + behind, before.len() as int)
            == (Decoded::Record {
            blob: BlobView { key, value, compression },
            end: (before.len() + encoded_len(key, value)) as int,
        }),
{
    let record = encoded_blob(key, value, compression);
    let bytes = before + record + behind;
    let start = before.len() as int;
    lemma_encoded_len(key, value, compression);
    lemma_be_bytes_len(key.len(), 2);
    lemma_be_bytes_len(value.len(), 4);
    lemma_be_limits();
    lemma_be_value_of_bytes(key.len(), 2);
    lemma_be_value_of_bytes(value.len(), 4);
    assert(bytes.subrange(start + 1, start + 3) =~= be_bytes(key.len(), 2));
    assert(bytes.subrange(start + 3, start + 7) =~= be_bytes(value.len(), 4));
    assert(bytes[start + 7] == compression.tag());
    assert(bytes.subrange(start + 8, start + 8 + key.len()) =~= key);
    assert(bytes.subrange(start + 8 + key.len(), start + 8 + key.len() + value.len()) =~= value);
}

/// Reading a record looks at the bytes of the record alone: what is
/// appended to the file later does not change what is read.
pub proof fn lemma_decoded_blob_is_stable(bytes: Seq<u8>, start: int, more: Seq<u8>)
    requires
        decoded_blob(bytes, start) is Record,
    ensures
        decoded_blob(bytes + more, start) == decoded_blob(bytes, start),
{
    let longer = bytes + more;
    assert(longer.subrange(start + 1, start + 3) =~= bytes.subrange(start + 1, start + 3));
    assert(longer.subrange(start + 3, start + 7) =~= bytes.subrange(start + 3, start + 7));
    let key_len = be_value(bytes.subrange(start + 1, start + 3));
    let value_len = be_value(bytes.subrange(start + 3, start + 7));
    let end = start + 8 + key_len + value_len;
    assert(longer.subrange(start + 8, start + 8 + key_len) =~= bytes.subrange(
        start + 8,
        start + 8 + key_len,
    ));
    assert(longer.subrange(start + 8 + key_len, end) =~= bytes.subrange(start + 8 + key_len, end));
}

/// The length of a value as the header of a record holds it. Fails on a
/// value of more than 4294967295 bytes, which no record can hold.
pub fn checked_value_len(value: &[u8]) -> (r: Result<u32, SerializeError>)
    ensures
        r is Ok <==> value@.len() <= u32::MAX,
        r matches Ok(len) ==> len == value@.len(),
{
    if value.len() > MAX_VALUE_LEN {
        Err(SerializeError::Io(invalid_input()))
    } else {
        Ok(value.len() as u32)
    }
}

/// The length of a record as its header announces it: the header, the key
/// and the payload. Gives `None` where `header` is shorter than a header;
/// bytes behind the header are not looked at.
pub open spec fn spec_record_len(header: Seq<u8>) -> Option<nat> {
    if header.len() < 8 {
        None
    } else {
        Some(8 + be_value(header.subrange(1, 3)) + be_value(header.subrange(3, 7)))
    }
}

/// The length of the record whose header `header` begins with. A caller
/// that reads a single record from a file learns from it how many bytes to
/// read.
pub fn record_len(header: &[u8]) -> (len: Option<u64>)
    ensures
        match spec_record_len(header@) {
            Some(n) => len == Some(n as u64) && n <= u64::MAX,
            None => len is None,
        },
{
    if header.len() < BLOB_HEADER_LEN {
        return None;
    }
    let key_field = slice_subrange(header, 1, 3);
    let value_field = slice_subrange(header, 3, 7);
    let key_len = read_u16_be(key_field) as u64;
    let value_len = read_u32_be(value_field) as u64;
    proof {
        assert(key_field@.subrange(0, 2) =~= key_field@);
        assert(value_field@.subrange(0, 4) =~= value_field@);
    }
    Some(BLOB_HEADER_LEN as u64 + key_len + value_len)
}

/// A whole record is as long as its header announces.
pub proof fn lemma_record_len(bytes: Seq<u8>, start: int)
    requires
        decoded_blob(bytes, start) is Record,
    ensures
        spec_record_len(bytes.subrange(start, start + 8)) == Some(
            (decoded_blob(bytes, start)->end - start) as nat,
        ),
{
    let header = bytes.subrange(start, start + 8);
    assert(header.subrange(1, 3) =~= bytes.subrange(start + 1, start + 3));
    assert(header.subrange(3, 7) =~= bytes.subrange(start + 3, start + 7));
}

/// Builds the record for a key and a payload. Fails where they do not fit
/// into a record: on an empty key, a key of more than 65535 bytes or a
/// payload of more than 4294967295 bytes.
pub fn encode_blob(key: &[u8], value: &[u8], compression: CompressionType) -> (r: Result<
    Vec<u8>,
    SerializeError,
>)
    ensures
        r is Ok <==> encodable(key@, value@),
        r matches Ok(bytes) ==> bytes@ == encoded_blob(key@, value@, compression),
        r matches Ok(bytes) ==> decoded_blob(bytes@, 0) == (Decoded::Record {
            blob: BlobView { key: key@, value: value@, compression },
            end: bytes@.len() as int,
        }),
{
    if key.len() == 0 || key.len() > MAX_KEY_LEN || value.len() > MAX_VALUE_LEN {
        return Err(SerializeError::Io(invalid_input()));
    }
    let mut out: Vec<u8> = Vec::new();
    out.push(0u8);
    put_u16(&mut out, key.len() as u16);
    put_u32(&mut out, value.len() as u32);
    out.push(u8::from(compression));
    assert(out@ =~= encoded_header(key@.len(), value@.len(), compression));
    out.extend_from_slice(key);
    out.extend_from_slice(value);
    proof {
        assert(out@ =~= encoded_blob(key@, value@, compression));
        lemma_blob_round_trip(Seq::empty(), key@, value@, compression, Seq::empty());
        lemma_encoded_len(key@, value@, compression);
        assert(Seq::<u8>::empty() + out@ + Seq::<u8>::empty() =~= out@);
    }
    Ok(out)
}

/// Reads the record that starts at position `start` of `bytes`.
///
/// Fails with an I/O error where the bytes end before the record does, and
/// with `InvalidTag` where the header names no compression type.
pub fn decode_blob(bytes: &[u8], start: usize) -> (r: Result<(Blob, usize), DeserializeError>)
    ensures
        match decoded_blob(bytes@, start as int) {
            Decoded::Record { blob, end } => r matches Ok((b, e)) && b@ == blob && e == end,
            Decoded::Truncated => r matches Err(DeserializeError::Io(_)),
            Decoded::InvalidTag(tag) => r matches Err(DeserializeError::InvalidTag(found))
                && found.1 == tag && found.0@ == "CompressionType"@,
        },
{
    if start > bytes.len() || bytes.len() - start < BLOB_HEADER_LEN {
        return Err(DeserializeError::Io(unexpected_eof()));
    }
    let key_field = slice_subrange(bytes, start + 1, start + 3);
    let value_field = slice_subrange(bytes, start + 3, start + 7);
    let key_len = read_u16_be(key_field) as usize;
    let value_len = read_u32_be(value_field) as usize;
    proof {
        assert(key_field@.subrange(0, 2) =~= key_field@);
        assert(value_field@.subrange(0, 4) =~= value_field@);
        lemma_be_bytes_of_value(key_field@);
        lemma_be_bytes_of_value(value_field@);
        lemma_be_limits();
    }
    let tag = bytes[start + 7];
    let compression = match CompressionType::try_from(tag) {
        Ok(compression) => compression,
        Err(_) => {
            return Err(DeserializeError::InvalidTag(("CompressionType", tag)));
        },
    };
    let rest = bytes.len() - start - BLOB_HEADER_LEN;
    if key_len > rest || value_len > rest - key_len {
        return Err(DeserializeError::Io(unexpected_eof()));
    }
    let key_start = start + BLOB_HEADER_LEN;
    let value_start = key_start + key_len;
    let end = value_start + value_len;
    let key = slice_to_vec(slice_subrange(bytes, key_start, value_start));
    let value = slice_to_vec(slice_subrange(bytes, value_start, end));
    Ok((Blob { key, value, compression }, end))
}

impl Serializable for Blob {
    open spec fn serialized(&self) -> Option<Seq<u8>> {
        if encodable(self.key@, self.value@) {
            Some(encoded_blob(self.key@, self.value@, self.compression))
        } else {
            None
        }
    }

    fn serialize(&self, writer: &mut Vec<u8>) -> (r: Result<(), SerializeError>)
        ensures
            r is Ok <==> encodable(self.key@, self.value@),
    {
        let mut record = encode_blob(self.key.as_slice(), self.value.as_slice(), self.compression)?;
        writer.append(&mut record);
        Ok(())
    }
}

impl Deserializable for Blob {
    fn deserialize(bytes: &[u8], start: usize) -> (r: Result<(Self, usize), DeserializeError>)
        ensures
            match decoded_blob(bytes@, start as int) {
                Decoded::Record { blob, end } => r matches Ok((b, e)) && b@ == blob && e == end,
                Decoded::Truncated => r matches Err(DeserializeError::Io(_)),
                Decoded::InvalidTag(tag) => r matches Err(DeserializeError::InvalidTag(found))
                    && found.1 == tag && found.0@ == "CompressionType"@,
            },
    {
        decode_blob(bytes, start)
    }
}

} // verus!
