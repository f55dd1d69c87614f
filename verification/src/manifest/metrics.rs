//! The sums that the metrics of a registry are made of.

use crate::id::SegmentId;
use crate::segment::stats::StatsView;
use vstd::prelude::*;

verus! {

/// The counters that the metrics of a registry add up.
#[derive(Copy, Clone, Debug, PartialEq, Eq, Structural)]
pub enum Counter {
    /// Bytes that the stored payloads occupy on disk
    TotalBytes,
    /// Bytes of the payloads before compression
    TotalUncompressedBytes,
    /// Uncompressed bytes of the stale blobs
    StaleBytes,
}

impl Counter {
    /// The value of the counter in the statistics of one segment.
    pub open spec fn of(self, stats: StatsView) -> nat {
        match self {
            Counter::TotalBytes => stats.total_bytes as nat,
            Counter::TotalUncompressedBytes => stats.total_uncompressed_bytes as nat,
            Counter::StaleBytes => stats.stale_bytes as nat,
        }
    }
}

/// The sum of a counter over the segments of a registry.
pub open spec fn total(segments: Map<SegmentId, StatsView>, counter: Counter) -> nat
    decreases segments.dom().len(),
    when segments.dom().finite()
{
    if segments.dom().len() == 0 {
        0
    } else {
        let id = segments.dom().choose();
        counter.of(segments[id]) + total(segments.remove(id), counter)
    }
}

/// Bytes that the stored payloads of all segments occupy on disk.
pub open spec fn total_bytes(segments: Map<SegmentId, StatsView>) -> nat {
    total(segments, Counter::TotalBytes)
}

/// Bytes of all payloads before compression.
pub open spec fn used_bytes(segments: Map<SegmentId, StatsView>) -> nat {
    total(segments, Counter::TotalUncompressedBytes)
}

/// Uncompressed bytes of all stale blobs.
pub open spec fn stale_bytes(segments: Map<SegmentId, StatsView>) -> nat {
    total(segments, Counter::StaleBytes)
}

/// Every segment of a registry has its stale counters within its totals.
pub open spec fn all_wf(segments: Map<SegmentId, StatsView>) -> bool {
    forall|id: SegmentId| segments.contains_key(id) ==> (#[trigger] segments[id]).wf()
}

/// A sum does not depend on where it starts: any segment can be taken out
/// first.
pub proof fn lemma_total_remove(
    segments: Map<SegmentId, StatsView>,
    counter: Counter,
    id: SegmentId,
)
    requires
        segments.dom().finite(),
        segments.contains_key(id),
    ensures
        total(segments, counter) == counter.of(segments[id]) + total(
            segments.remove(id),
            counter,
        ),
    decreases segments.dom().len(),
{
    let first = segments.dom().choose();
    if first != id {
        let rest = segments.remove(first);
        lemma_total_remove(rest, counter, id);
        lemma_total_remove(segments.remove(id), counter, first);
        assert(rest.remove(id) =~= segments.remove(id).remove(first));
    }
}

/// The sum over no segments is zero, and the sum over one segment is its
/// counter.
pub proof fn lemma_total_small(id: SegmentId, stats: StatsView, counter: Counter)
    ensures
        total(Map::empty(), counter) == 0,
        total(Map::empty().insert(id, stats), counter) == counter.of(stats),
{
    let one = Map::<SegmentId, StatsView>::empty().insert(id, stats);
    lemma_total_remove(one, counter, id);
    assert(one.remove(id) =~= Map::<SegmentId, StatsView>::empty());
}

/// No more bytes are stale than there are: the sum of the stale bytes of a
/// registry is within the sum of its bytes.
pub proof fn lemma_stale_within_used(segments: Map<SegmentId, StatsView>)
    requires
        segments.dom().finite(),
        all_wf(segments),
    ensures
        stale_bytes(segments) <= used_bytes(segments),
    decreases segments.dom().len(),
{
    if segments.dom().len() > 0 {
        let first = segments.dom().choose();
        let rest = segments.remove(first);
        assert(segments[first].wf());
        assert forall|id: SegmentId| rest.contains_key(id) implies (#[trigger] rest[id]).wf() by {
            assert(rest[id] == segments[id]);
        }
        lemma_stale_within_used(rest);
    }
}

/// A fraction of two byte counts. The denominator is never zero.
#[derive(Copy, Clone, Debug, PartialEq, Eq, Structural)]
pub struct Ratio {
    /// The count above the line
    pub numerator: u128,
    /// The count below the line
    pub denominator: u128,
}

/// The fraction that stands for zero.
pub open spec fn zero_ratio() -> Ratio {
    Ratio { numerator: 0, denominator: 1 }
}

/// The share of stale bytes among the bytes of a registry, and zero for a
/// registry without bytes.
pub open spec fn spec_stale_ratio(segments: Map<SegmentId, StatsView>) -> Ratio {
    if used_bytes(segments) == 0 || stale_bytes(segments) == 0 {
        zero_ratio()
    } else {
        Ratio {
            numerator: stale_bytes(segments) as u128,
            denominator: used_bytes(segments) as u128,
        }
    }
}

/// The bytes of a registry over its live bytes, and zero where there are
/// no bytes or no live bytes.
pub open spec fn spec_space_amp(segments: Map<SegmentId, StatsView>) -> Ratio {
    if used_bytes(segments) == 0 || used_bytes(segments) <= stale_bytes(segments) {
        zero_ratio()
    } else {
        Ratio {
            numerator: used_bytes(segments) as u128,
            denominator: (used_bytes(segments) - stale_bytes(segments)) as u128,
        }
    }
}

} // verus!
