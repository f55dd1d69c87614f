//! What the value log asks of the index that points into it.
//!
//! The index maps keys to handles and lives outside of this library. During
//! garbage collection the log asks it which blobs are still pointed to, and
//! tells it where the blobs that it moves have gone.

use crate::handle::ValueHandle;
use crate::id::SegmentId;
use vstd::prelude::*;

verus! {

/// Looks handles up in the index.
pub trait IndexReader {
    /// Returns the handle that the index holds for `key`, if any. The call
    /// changes nothing.
    fn get(&self, key: &[u8]) -> Result<Option<ValueHandle>, std::io::Error>;
}

/// Takes the new handles of the blobs that a rollover moves.
pub trait IndexWriter {
    /// Points `key` to `handle`, the new place of its blob, whose value has
    /// `size` bytes before compression. Called once for every live blob,
    /// before the blob is written to its new place.
    fn insert_indirection(&mut self, key: &[u8], handle: ValueHandle, size: u32) -> Result<
        (),
        std::io::Error,
    >;

    /// Makes the new handles durable. This call is the one point at which
    /// a rollover takes effect.
    fn finish(self) -> Result<(), std::io::Error>;
}

/// Whether the blob at `offset` of the segment `segment_id` is live: the
/// index points to exactly this place for the blob's key.
pub open spec fn spec_is_live(
    found: Option<ValueHandle>,
    segment_id: SegmentId,
    offset: u64,
) -> bool {
    found == Some(ValueHandle { segment_id, offset })
}

/// Decides whether a blob is live from what the index holds for its key.
pub fn is_live(found: Option<ValueHandle>, segment_id: SegmentId, offset: u64) -> (live: bool)
    ensures
        live == spec_is_live(found, segment_id, offset),
{
    match found {
        Some(handle) => handle.segment_id == segment_id && handle.offset == offset,
        None => false,
    }
}

} // verus!
