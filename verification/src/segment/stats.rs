//! How many blobs and bytes a segment holds, and how many of them are stale.

use vstd::prelude::*;

verus! {

/// The counters of a segment as plain numbers.
pub struct StatsView {
    /// Number of blobs in the segment
    pub item_count: u64,
    /// Bytes that the stored payloads occupy on disk
    pub total_bytes: u64,
    /// Bytes of the payloads before compression
    pub total_uncompressed_bytes: u64,
    /// Number of blobs that the index no longer points to
    pub stale_items: u64,
    /// Uncompressed bytes of the blobs that the index no longer points to
    pub stale_bytes: u64,
}

impl StatsView {
    /// No more is stale than there is.
    pub open spec fn wf(self) -> bool {
        &&& self.stale_items <= self.item_count
        &&& self.stale_bytes <= self.total_uncompressed_bytes
    }

    /// The segment holds data and all of it is stale.
    pub open spec fn is_stale(self) -> bool {
        self.total_uncompressed_bytes > 0 && self.stale_bytes == self.total_uncompressed_bytes
    }

    /// The counters of a segment of which nothing is known yet.
    pub open spec fn zero() -> StatsView {
        StatsView {
            item_count: 0,
            total_bytes: 0,
            total_uncompressed_bytes: 0,
            stale_items: 0,
            stale_bytes: 0,
        }
    }

    /// The counters of a freshly sealed segment: nothing is stale.
    pub open spec fn sealed(
        item_count: u64,
        total_bytes: u64,
        total_uncompressed_bytes: u64,
    ) -> StatsView {
        StatsView {
            item_count,
            total_bytes,
            total_uncompressed_bytes,
            stale_items: 0,
            stale_bytes: 0,
        }
    }

    /// The counters after a scan found `live_items` live blobs of
    /// `live_bytes` uncompressed bytes: what is not live is stale. A scan
    /// that finds more than the segment holds leaves nothing stale.
    pub open spec fn with_live(self, live_items: nat, live_bytes: nat) -> StatsView {
        StatsView {
            stale_items: if live_items <= self.item_count {
                (self.item_count - live_items) as u64
            } else {
                0
            },
            stale_bytes: if live_bytes <= self.total_uncompressed_bytes {
                (self.total_uncompressed_bytes - live_bytes) as u64
            } else {
                0
            },
            ..self
        }
    }

    /// The counters with everything marked stale.
    pub open spec fn all_stale(self) -> StatsView {
        StatsView {
            stale_items: self.item_count,
            stale_bytes: self.total_uncompressed_bytes,
            ..self
        }
    }
}

/// What a scan of the index has found live in one segment. The counts stop
/// at the largest `u64`.
#[derive(Copy, Clone, Debug, PartialEq, Eq, Structural)]
pub struct LiveCounter {
    /// Number of live blobs
    pub items: u64,
    /// Uncompressed bytes of the live blobs
    pub bytes: u64,
}

/// A count as a `u64` holds it: the count itself, or the largest `u64`
/// where the count is larger.
pub open spec fn saturated(count: nat) -> u64 {
    if count <= u64::MAX {
        count as u64
    } else {
        u64::MAX
    }
}

impl LiveCounter {
    /// The counter that stands for `items` live blobs of `bytes` bytes.
    pub open spec fn counting(items: nat, bytes: nat) -> LiveCounter {
        LiveCounter { items: saturated(items), bytes: saturated(bytes) }
    }

    /// The counter after one more live blob of `size` bytes.
    pub open spec fn spec_add(self, size: u32) -> LiveCounter {
        LiveCounter {
            items: saturated(self.items as nat + 1),
            bytes: saturated(self.bytes as nat + size as nat),
        }
    }

    /// A counter that has seen nothing.
    pub fn new() -> (counter: Self)
        ensures
            counter == LiveCounter::counting(0, 0),
    {
        LiveCounter { items: 0, bytes: 0 }
    }

    /// Counts one more live blob of `size` uncompressed bytes.
    pub fn add(&mut self, size: u32)
        ensures
            *final(self) == old(self).spec_add(size),
    {
        self.items = self.items.saturating_add(1);
        self.bytes = self.bytes.saturating_add(size as u64);
    }
}

/// Counting one more blob gives the counter of the larger counts.
pub proof fn lemma_counter_add(items: nat, bytes: nat, size: u32)
    ensures
        LiveCounter::counting(items, bytes).spec_add(size) == LiveCounter::counting(
            items + 1,
            bytes + size as nat,
        ),
{
}

/// A count that has stopped at the largest `u64` says as much of a segment
/// as the count itself: what is stale comes out the same.
pub proof fn lemma_with_live_saturated(stats: StatsView, items: nat, bytes: nat)
    ensures
        stats.with_live(saturated(items) as nat, saturated(bytes) as nat) == stats.with_live(
            items,
            bytes,
        ),
{
}

/// The counters of one segment. What was written is fixed when the segment
/// is sealed; the stale counters follow the scans of the index. The stale
/// counters never exceed the totals.
#[derive(Copy, Clone, Debug)]
pub struct Stats {
    item_count: u64,
    total_bytes: u64,
    total_uncompressed_bytes: u64,
    stale_items: u64,
    stale_bytes: u64,
}

impl View for Stats {
    type V = StatsView;

    closed spec fn view(&self) -> StatsView {
        StatsView {
            item_count: self.item_count,
            total_bytes: self.total_bytes,
            total_uncompressed_bytes: self.total_uncompressed_bytes,
            stale_items: self.stale_items,
            stale_bytes: self.stale_bytes,
        }
    }
}

impl Default for Stats {
    fn default() -> (stats: Self)
        ensures
            stats@ == StatsView::zero(),
    {
        Stats {
            item_count: 0,
            total_bytes: 0,
            total_uncompressed_bytes: 0,
            stale_items: 0,
            stale_bytes: 0,
        }
    }
}

impl Stats {
    #[verifier::type_invariant]
    spec fn inv(&self) -> bool {
        &&& self.stale_items <= self.item_count
        &&& self.stale_bytes <= self.total_uncompressed_bytes
    }

    /// The counters of a freshly sealed segment.
    pub fn new(item_count: u64, total_bytes: u64, total_uncompressed_bytes: u64) -> (stats: Self)
        ensures
            stats@ == StatsView::sealed(item_count, total_bytes, total_uncompressed_bytes),
            stats@.wf(),
    {
        Stats { item_count, total_bytes, total_uncompressed_bytes, stale_items: 0, stale_bytes: 0 }
    }

    /// Number of blobs in the segment.
    pub fn item_count(&self) -> (n: u64)
        ensures
            n == self@.item_count,
    {
        self.item_count
    }

    /// Bytes that the stored payloads occupy on disk.
    pub fn total_bytes(&self) -> (n: u64)
        ensures
            n == self@.total_bytes,
    {
        self.total_bytes
    }

    /// Bytes of the payloads before compression.
    pub fn total_uncompressed_bytes(&self) -> (n: u64)
        ensures
            n == self@.total_uncompressed_bytes,
    {
        self.total_uncompressed_bytes
    }

    /// Number of stale blobs; never more than there are blobs.
    pub fn stale_items(&self) -> (n: u64)
        ensures
            n == self@.stale_items,
            n <= self@.item_count,
    {
        proof {
            use_type_invariant(self);
        }
        self.stale_items
    }

    /// Uncompressed bytes of the stale blobs; never more than there are bytes.
    pub fn stale_bytes(&self) -> (n: u64)
        ensures
            n == self@.stale_bytes,
            n <= self@.total_uncompressed_bytes,
    {
        proof {
            use_type_invariant(self);
        }
        self.stale_bytes
    }

    /// Whether the segment holds data and all of it is stale.
    pub fn is_stale(&self) -> (stale: bool)
        ensures
            stale == self@.is_stale(),
    {
        self.total_uncompressed_bytes > 0 && self.stale_bytes == self.total_uncompressed_bytes
    }

    /// Sets the stale counters from what a scan found live.
    pub fn set_live(&mut self, live_items: u64, live_bytes: u64)
        ensures
            final(self)@ == old(self)@.with_live(live_items as nat, live_bytes as nat),
            final(self)@.wf(),
    {
        proof {
            use_type_invariant(&*self);
        }
        let stale_items = if live_items <= self.item_count {
            self.item_count - live_items
        } else {
            0
        };
        let stale_bytes = if live_bytes <= self.total_uncompressed_bytes {
            self.total_uncompressed_bytes - live_bytes
        } else {
            0
        };
        self.stale_items = stale_items;
        self.stale_bytes = stale_bytes;
    }

    /// Marks everything in the segment as stale.
    pub fn mark_as_stale(&mut self)
        ensures
            final(self)@ == old(self)@.all_stale(),
            final(self)@.wf(),
    {
        proof {
            use_type_invariant(&*self);
        }
        self.stale_items = self.item_count;
        self.stale_bytes = self.total_uncompressed_bytes;
    }
}

} // verus!
