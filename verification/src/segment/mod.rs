//! A finished segment as the log knows it.

pub mod multi_writer;
pub mod name;
pub mod reader;
pub mod stats;
pub mod totals;
pub mod writer;

use crate::id::SegmentId;
use crate::manifest::Ratio;
use stats::Stats;
use vstd::prelude::*;

verus! {

/// Describes one segment of the log: its id and what is known of its blobs.
/// The segment's file is named by the id.
#[derive(Copy, Clone, Debug)]
pub struct Segment {
    /// Segment ID
    pub id: SegmentId,
    /// Statistics
    pub stats: Stats,
}

impl Segment {
    /// The share of stale bytes among the bytes of a segment, and zero for
    /// a segment without bytes.
    pub open spec fn spec_stale_ratio(stats: stats::StatsView) -> Ratio {
        if stats.total_uncompressed_bytes == 0 {
            Ratio { numerator: 0, denominator: 1 }
        } else {
            Ratio {
                numerator: stats.stale_bytes as u128,
                denominator: stats.total_uncompressed_bytes as u128,
            }
        }
    }

    /// Returns the number of blobs in the segment.
    pub fn len(&self) -> (n: u64)
        ensures
            n == self.stats@.item_count,
    {
        self.stats.item_count()
    }

    /// Returns `true` where the segment holds no blobs.
    pub fn is_empty(&self) -> (empty: bool)
        ensures
            empty == (self.stats@.item_count == 0),
    {
        self.stats.item_count() == 0
    }

    /// Whether the segment holds data and all of it is stale. Such a
    /// segment can be dropped.
    pub fn is_stale(&self) -> (stale: bool)
        ensures
            stale == self.stats@.is_stale(),
    {
        self.stats.is_stale()
    }

    /// Marks everything in the segment as stale.
    pub fn mark_as_stale(&mut self)
        ensures
            final(self).id == old(self).id,
            final(self).stats@ == old(self).stats@.all_stale(),
    {
        self.stats.mark_as_stale();
    }

    /// Returns the share of stale bytes in the segment as a fraction: the
    /// stale bytes over all bytes (uncompressed). It is one if and only if
    /// the segment is stale.
    pub fn stale_ratio(&self) -> (ratio: Ratio)
        ensures
            ratio == Segment::spec_stale_ratio(self.stats@),
            ratio.denominator > 0,
            ratio.numerator <= ratio.denominator,
            ratio.numerator == ratio.denominator <==> self.stats@.is_stale(),
    {
        let used = self.stats.total_uncompressed_bytes();
        if used == 0 {
            return Ratio { numerator: 0, denominator: 1 };
        }
        let stale = self.stats.stale_bytes();
        Ratio { numerator: stale as u128, denominator: used as u128 }
    }
}

} // verus!
