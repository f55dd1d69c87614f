//! The pointer that the index keeps for a blob.

use crate::id::SegmentId;
use vstd::prelude::*;

verus! {

/// Locates a blob: the segment that holds it and the position of the first
/// byte of its record in that segment's file.
#[derive(Copy, Clone, Debug, PartialEq, Eq, Hash, Structural)]
pub struct ValueHandle {
    /// Segment ID
    pub segment_id: SegmentId,
    /// Offset in file
    pub offset: u64,
}

} // verus!
