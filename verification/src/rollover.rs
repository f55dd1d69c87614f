//! The steps of a rollover, the garbage collection that copies the live
//! blobs of some segments into new segments.
//!
//! The caller scans the source segments in the order of their ids. For
//! every blob it asks [`is_live_in`] whether the index still points to it,
//! and hands a live blob to [`relocate`], which tells the index the new
//! handle and then takes the blob into the new segments. At the end the
//! caller registers the new segments, puts the manifest file in place and
//! calls `finish` on the index writer. Only where that succeeds does it mark
//! the source segments as stale.

use crate::blob::encoded_blob;
use crate::compression::CompressionType;
use crate::error::Error;
use crate::handle::ValueHandle;
use crate::id::{id_after, IdGenerator, SegmentId};
use crate::index::{is_live, spec_is_live, IndexReader, IndexWriter};
use crate::segment::multi_writer::{MultiWriter, WriteOutcome};
use crate::serde::{invalid_input, SerializeError};
use crate::version::{file_header, Version};
use vstd::prelude::*;

verus! {

/// What a lookup in the index says of the blob at `offset` of the segment
/// `segment_id`: whether it is live, or the error of the lookup.
pub fn liveness(
    looked_up: Result<Option<ValueHandle>, std::io::Error>,
    segment_id: SegmentId,
    offset: u64,
) -> (r: Result<bool, Error>)
    ensures
        match looked_up {
            Ok(found) => r == Ok::<bool, Error>(spec_is_live(found, segment_id, offset)),
            Err(e) => r == Err::<bool, Error>(Error::Io(e)),
        },
{
    match looked_up {
        Ok(found) => Ok(is_live(found, segment_id, offset)),
        Err(e) => Err(Error::Io(e)),
    }
}

/// What [`liveness`] makes of a lookup: whether the handle that was found
/// points to `offset` of the segment `segment_id`, or the error of the
/// lookup as an I/O error.
pub open spec fn spec_liveness(
    looked_up: Result<Option<ValueHandle>, std::io::Error>,
    segment_id: SegmentId,
    offset: u64,
) -> Result<bool, Error> {
    match looked_up {
        Ok(found) => Ok(spec_is_live(found, segment_id, offset)),
        Err(e) => Err(Error::Io(e)),
    }
}

/// Asks the index whether the blob of `key` at `offset` of the segment
/// `segment_id` is live.
///
/// The index is asked once, for `key`, and the answer is what [`liveness`]
/// makes of what the index returned: the blob is live where the index
/// holds exactly this place for the key, and an error of the index is
/// handed on as an I/O error.
pub fn is_live_in<R: IndexReader>(index: &R, key: &[u8], segment_id: SegmentId, offset: u64) -> (r:
    Result<bool, Error>)
    ensures
        exists|looked_up: Result<Option<ValueHandle>, std::io::Error>|
            call_ensures(R::get, (index, key), looked_up) && r == #[trigger] spec_liveness(
                looked_up,
                segment_id,
                offset,
            ),
{
    let looked_up = index.get(key);
    let r = liveness(looked_up, segment_id, offset);
    assert(r == spec_liveness(looked_up, segment_id, offset));
    r
}

/// The second half of [`relocate`]: takes the blob into the new segments
/// where the index has taken its new handle, and hands the error on where
/// it has not.
pub fn write_relocated(
    writer: &mut MultiWriter,
    ids: &mut IdGenerator,
    inserted: Result<(), std::io::Error>,
    key: &[u8],
    payload: &[u8],
    compression: CompressionType,
    uncompressed_len: u32,
) -> (r: Result<WriteOutcome, Error>)
    ensures
        r is Ok <==> inserted is Ok && old(writer)@.current.accepts(
            key@,
            payload@,
            compression,
            uncompressed_len,
        ),
        r matches Ok(outcome) ==> {
            let fills = old(writer)@.fills(key@, payload@);
            &&& outcome.segment_id == old(writer)@.current.segment_id
            &&& outcome.record@ == encoded_blob(key@, payload@, compression)
            &&& final(writer)@ == old(writer)@.appended(
                key@,
                payload@,
                compression,
                uncompressed_len,
                old(ids)@,
            )
            &&& final(ids)@ == if fills { id_after(old(ids)@) } else { old(ids)@ }
            &&& outcome.next_segment is Some <==> fills
            &&& outcome.next_segment matches Some(next) ==> next.id == old(ids)@ && next.header@
                == file_header(Version::V1)
        },
        r is Err ==> final(writer)@ == old(writer)@ && final(ids)@ == old(ids)@,
        inserted matches Err(e) ==> r matches Err(Error::Io(x)) && x == e,
        inserted is Ok ==> (r matches Err(e) ==> e is Serialize),
        old(writer)@.wf() ==> final(writer)@.wf(),
{
    match inserted {
        Ok(()) => writer.write_compressed(ids, key, payload, compression, uncompressed_len),
        Err(e) => Err(Error::Io(e)),
    }
}

/// Moves one live blob into the new segments of a rollover. The index is
/// told the new handle first; the blob is written only where the index has
/// taken the handle. The outcome says what to append to which file.
///
/// A blob that the writer does not accept fails with a serialization error
/// before the index is asked. A blob that the writer accepts is written
/// unless the index fails, and an error of the index is handed on as an I/O
/// error; no other error comes of it. On failure the writer and the id
/// generator are as they were.
pub fn relocate<W: IndexWriter>(
    writer: &mut MultiWriter,
    ids: &mut IdGenerator,
    index_writer: &mut W,
    key: &[u8],
    payload: &[u8],
    compression: CompressionType,
    uncompressed_len: u32,
) -> (r: Result<WriteOutcome, Error>)
    ensures
        r is Ok ==> old(writer)@.current.accepts(key@, payload@, compression, uncompressed_len),
        !old(writer)@.current.accepts(key@, payload@, compression, uncompressed_len) ==> (
        r matches Err(e) && e is Serialize),
        old(writer)@.current.accepts(key@, payload@, compression, uncompressed_len) ==> (r is Ok
            || (r matches Err(Error::Io(_)))),
        r matches Ok(outcome) ==> {
            let fills = old(writer)@.fills(key@, payload@);
            &&& outcome.segment_id == old(writer)@.current.segment_id
            &&& outcome.record@ == encoded_blob(key@, payload@, compression)
            &&& final(writer)@ == old(writer)@.appended(
                key@,
                payload@,
                compression,
                uncompressed_len,
                old(ids)@,
            )
            &&& final(ids)@ == if fills { id_after(old(ids)@) } else { old(ids)@ }
            &&& outcome.next_segment is Some <==> fills
            &&& outcome.next_segment matches Some(next) ==> next.id == old(ids)@ && next.header@
                == file_header(Version::V1)
        },
        r is Err ==> final(writer)@ == old(writer)@ && final(ids)@ == old(ids)@,
        old(writer)@.wf() ==> final(writer)@.wf(),
{
    if !writer.accepts(key, payload, compression, uncompressed_len) {
        return Err(Error::Serialize(SerializeError::Io(invalid_input())));
    }
    let handle = writer.next_handle(key);
    let inserted = index_writer.insert_indirection(key, handle, uncompressed_len);
    write_relocated(writer, ids, inserted, key, payload, compression, uncompressed_len)
}

} // verus!
