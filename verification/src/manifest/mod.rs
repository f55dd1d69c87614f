//! The registry of the segments that make up the log.
//!
//! Every change of the registry comes with the bytes of the new manifest
//! file, which the caller puts in place of the old file in one step.

pub mod format;
pub mod metrics;
pub mod model;
pub mod sweep;

pub use format::{
    decoded_ids, encode_ids, encoded_ids, id_bytes, is_manifest_of, lemma_id_bytes,
    lemma_manifest_round_trip, load_ids,
};
pub use metrics::{
    all_wf, lemma_stale_within_used, lemma_total_remove, lemma_total_small, spec_space_amp,
    spec_stale_ratio, stale_bytes, total, total_bytes, used_bytes, zero_ratio, Counter, Ratio,
};
pub use model::{
    all_sealed, lemma_recovery_restores_totals, lemma_registered_dom,
    lemma_segment_stays_until_dropped, live_bytes, live_items, marked_stale, recovered,
    registered, scanned, sealed_stats, sealed_with, stale_segments, totals_for, writes_segment,
};
pub use sweep::{
    contains_id, is_orphan, lemma_name_sweep, lemma_recovery_sweep, names, orphan_names,
    unfinished, unfinished_names, unfinished_segments,
};

use crate::coding::lemma_be_bytes_len;
use crate::error::Error;
use crate::handle::ValueHandle;
use crate::id::SegmentId;
use crate::segment::multi_writer::{writer_views, MultiWriter};
use crate::segment::stats::{
    lemma_counter_add, lemma_with_live_saturated, saturated, LiveCounter, Stats, StatsView,
};
use crate::segment::totals::Totals;
use crate::segment::Segment;
use crate::serde::invalid_input;
use std::collections::HashMap;
use vstd::prelude::*;
use vstd::std_specs::iter::IteratorSpec;

verus! {

broadcast use vstd::std_specs::hash::group_hash_axioms;

/// Name of the marker file of a value log. It holds a file header and
/// nothing else.
pub const VLOG_MARKER: &'static str = ".vlog";

/// Name of the folder that holds the segments, each under its id.
pub const SEGMENTS_FOLDER: &'static str = "segments";

/// Name of the manifest file.
pub const MANIFEST_FILE: &'static str = "vlog_manifest";

/// Counts, for every segment that a handle of `live` points into, the
/// handles and their sizes.
fn count_live(live: &[(ValueHandle, u32)]) -> (counters: HashMap<SegmentId, LiveCounter>)
    ensures
        forall|id: SegmentId| #[trigger]
            counters@.contains_key(id) ==> counters@[id] == LiveCounter::counting(
                live_items(live@, id),
                live_bytes(live@, id),
            ),
        forall|id: SegmentId|
            !(#[trigger] counters@.contains_key(id)) ==> live_items(live@, id) == 0 && live_bytes(
                live@,
                id,
            ) == 0,
{
    let mut counters: HashMap<SegmentId, LiveCounter> = HashMap::new();
    let mut i: usize = 0;
    while i < live.len()
        invariant
            i <= live.len(),
            forall|id: SegmentId| #[trigger]
                counters@.contains_key(id) ==> counters@[id] == LiveCounter::counting(
                    live_items(live@.take(i as int), id),
                    live_bytes(live@.take(i as int), id),
                ),
            forall|id: SegmentId|
                !(#[trigger] counters@.contains_key(id)) ==> live_items(live@.take(i as int), id)
                    == 0 && live_bytes(live@.take(i as int), id) == 0,
        decreases live.len() - i,
    {
        let segment_id = live[i].0.segment_id;
        let size = live[i].1;
        let mut counter = match counters.get(&segment_id) {
            Some(counter) => *counter,
            None => LiveCounter::new(),
        };
        proof {
            let before = live@.take(i as int);
            let after = live@.take(i + 1);
            assert(after.drop_last() =~= before);
            assert(after.last() == live@[i as int]);
            lemma_counter_add(
                live_items(before, segment_id),
                live_bytes(before, segment_id),
                size,
            );
        }
        counter.add(size);
        let _ = counters.insert(segment_id, counter);
        i += 1;
    }
    assert(live@.take(i as int) =~= live@);
    counters
}

/// Looks up the counts that `sealed` holds for the segment `id`.
fn find_totals(sealed: &[(SegmentId, Totals)], id: SegmentId) -> (found: Option<Totals>)
    ensures
        found == totals_for(sealed@, id),
{
    let mut i: usize = 0;
    assert(sealed@.skip(0) =~= sealed@);
    while i < sealed.len()
        invariant
            i <= sealed.len(),
            totals_for(sealed@, id) == totals_for(sealed@.skip(i as int), id),
        decreases sealed.len() - i,
    {
        proof {
            assert(sealed@.skip(i as int)[0] == sealed@[i as int]);
            assert(sealed@.skip(i as int).drop_first() =~= sealed@.skip(i + 1));
        }
        if sealed[i].0 == id {
            return Some(sealed[i].1);
        }
        i += 1;
    }
    None
}

/// The state of the registry: the segments by their ids.
pub struct SegmentManifestInner {
    segments: HashMap<SegmentId, Segment>,
}

impl SegmentManifestInner {
    #[verifier::type_invariant]
    spec fn inv(&self) -> bool {
        valid_segments(self.segments@)
    }
}

/// Every segment stands under its own id and has its stale counters
/// within its totals.
spec fn valid_segments(segments: Map<SegmentId, Segment>) -> bool {
    forall|id: SegmentId| #[trigger]
        segments.contains_key(id) ==> segments[id].id == id && segments[id].stats@.wf()
}

/// The registry of the segments that make up the log.
pub struct SegmentManifest(SegmentManifestInner);

impl View for SegmentManifest {
    type V = Map<SegmentId, StatsView>;

    /// The statistics of every registered segment, by its id.
    closed spec fn view(&self) -> Map<SegmentId, StatsView> {
        self.0.segments@.map_values(|segment: Segment| segment.stats@)
    }
}

impl SegmentManifest {
    /// What holds of every registry: it is finite, and no segment has
    /// more stale than it holds.
    pub fn invariants(&self)
        ensures
            self@.dom().finite(),
            all_wf(self@),
    {
        proof {
            use_type_invariant(&self.0);
            assert(self.0.segments@.dom().finite());
            assert(self@.dom() =~= self.0.segments@.dom());
        }
    }

    /// An empty registry, and the bytes of its manifest file.
    pub fn create_new() -> (r: (Self, Vec<u8>))
        ensures
            r.0@ == Map::<SegmentId, StatsView>::empty(),
            r.1@ == encoded_ids(Seq::empty()),
            is_manifest_of(r.1@, r.0@.dom()),
    {
        let manifest = SegmentManifest(SegmentManifestInner { segments: HashMap::new() });
        let ids: Vec<SegmentId> = Vec::new();
        let bytes = encode_ids(ids.as_slice());
        proof {
            assert(manifest@ =~= Map::<SegmentId, StatsView>::empty());
            lemma_manifest_round_trip(Seq::empty());
            lemma_id_bytes(Seq::empty());
            lemma_be_bytes_len(0, 8);
            assert(Seq::<SegmentId>::empty().to_set() =~= Set::<SegmentId>::empty());
        }
        (manifest, bytes)
    }

    /// The registry of a log that holds the segments `ids`, each of them
    /// with the counts that it was sealed with and nothing stale. `sealed`
    /// holds the counts by segment id. Fails with an I/O error where one of
    /// the segments has no counts.
    pub fn from_ids(ids: &[SegmentId], sealed: &[(SegmentId, Totals)]) -> (r: Result<Self, Error>)
        ensures
            all_sealed(ids@, sealed@) ==> (r matches Ok(manifest) && manifest@ == recovered(
                ids@,
                sealed@,
            )),
            !all_sealed(ids@, sealed@) ==> (r matches Err(Error::Io(_))),
    {
        let mut segments: HashMap<SegmentId, Segment> = HashMap::new();
        let mut i: usize = 0;
        while i < ids.len()
            invariant
                i <= ids.len(),
                forall|id: SegmentId| #[trigger]
                    segments@.contains_key(id) <==> ids@.take(i as int).contains(id),
                forall|id: SegmentId| #[trigger]
                    segments@.contains_key(id) ==> segments@[id].id == id && totals_for(
                        sealed@,
                        id,
                    ) is Some && segments@[id].stats@ == sealed_with(
                        totals_for(sealed@, id).unwrap(),
                    ),
                forall|j: int| 0 <= j < i ==> totals_for(sealed@, #[trigger] ids@[j]) is Some,
            decreases ids.len() - i,
        {
            let id = ids[i];
            let totals = match find_totals(sealed, id) {
                Some(totals) => totals,
                None => {
                    return Err(Error::Io(invalid_input()));
                },
            };
            let stats = Stats::new(
                totals.item_count,
                totals.total_bytes,
                totals.total_uncompressed_bytes,
            );
            let _ = segments.insert(id, Segment { id, stats });
            proof {
                let before = ids@.take(i as int);
                let after = ids@.take(i + 1);
                assert(after =~= before.push(id));
                assert forall|x: SegmentId| #[trigger]
                    segments@.contains_key(x) <==> after.contains(x) by {
                    vstd::seq_lib::lemma_seq_contains_after_push(before, id, x);
                }
            }
            i += 1;
        }
        let manifest = SegmentManifest(SegmentManifestInner { segments });
        proof {
            assert(ids@.take(i as int) =~= ids@);
            assert(manifest@ =~= recovered(ids@, sealed@));
        }
        Ok(manifest)
    }

    /// Rebuilds the registry from the bytes of the manifest file, and picks
    /// the folders to remove: those of `found`, the names of the folders
    /// under the segments folder, that stand for no listed segment.
    ///
    /// Every listed segment is registered with the counts that it was
    /// sealed with, which `sealed` holds by segment id as they were counted
    /// from the segment's file (see [`crate::segment::totals::scan_totals`]),
    /// and with nothing stale. Fails with an I/O error where the manifest
    /// file is cut short, or where a listed segment has no counts.
    pub fn recover(bytes: &[u8], found: &[Vec<u8>], sealed: &[(SegmentId, Totals)]) -> (r: Result<
        (Self, Vec<Vec<u8>>),
        Error,
    >)
        ensures
            match decoded_ids(bytes@) {
                Some(ids) => if all_sealed(ids, sealed@) {
                    r matches Ok((manifest, orphans)) && manifest@ == recovered(ids, sealed@)
                        && names(orphans@) == orphan_names(names(found@), ids)
                } else {
                    r matches Err(Error::Io(_))
                },
                None => r matches Err(Error::Io(_)),
            },
    {
        let ids = load_ids(bytes)?;
        let orphans = unfinished_names(found, ids.as_slice());
        let manifest = Self::from_ids(ids.as_slice(), sealed)?;
        Ok((manifest, orphans))
    }

    /// The bytes of the manifest file for the registry as it stands.
    pub fn encode(&self) -> (bytes: Vec<u8>)
        ensures
            is_manifest_of(bytes@, self@.dom()),
    {
        let ids = self.list_segment_ids();
        let bytes = encode_ids(ids.as_slice());
        let count = ids.len();
        proof {
            assert(ids@.len() == count);
            lemma_manifest_round_trip(ids@);
            lemma_id_bytes(ids@);
            lemma_be_bytes_len(ids@.len(), 8);
        }
        bytes
    }

    /// Takes the segments `ids` out of the registry and returns the bytes
    /// of the new manifest file. Ids that are not registered are passed
    /// over. The caller removes the segments' files once the manifest file
    /// is in place.
    pub fn drop_segments(&mut self, ids: &[u64]) -> (bytes: Vec<u8>)
        ensures
            final(self)@ == old(self)@.remove_keys(ids@.to_set()),
            is_manifest_of(bytes@, final(self)@.dom()),
    {
        proof {
            use_type_invariant(&self.0);
        }
        let mut segments: HashMap<SegmentId, Segment> = HashMap::new();
        core::mem::swap(&mut self.0.segments, &mut segments);
        let ghost initial = segments@;
        let mut i: usize = 0;
        while i < ids.len()
            invariant
                i <= ids.len(),
                valid_segments(initial),
                segments@ == initial.remove_keys(ids@.take(i as int).to_set()),
            decreases ids.len() - i,
        {
            let _ = segments.remove(&ids[i]);
            proof {
                let before = ids@.take(i as int);
                let after = ids@.take(i + 1);
                assert(after =~= before.push(ids@[i as int]));
                assert forall|x: SegmentId|
                    after.to_set().contains(x) <==> before.to_set().insert(
                        ids@[i as int],
                    ).contains(x) by {
                    vstd::seq_lib::lemma_seq_contains_after_push(before, ids@[i as int], x);
                }
                assert(after.to_set() =~= before.to_set().insert(ids@[i as int]));
                assert(segments@ =~= initial.remove_keys(after.to_set()));
            }
            i += 1;
        }
        proof {
            assert(ids@.take(i as int) =~= ids@);
        }
        self.0.segments = segments;
        proof {
            assert(self@ =~= old(self)@.remove_keys(ids@.to_set()));
        }
        self.encode()
    }

    /// Ends the run of `writer` and registers the segments that it has
    /// written, each with the numbers that its writer has counted and
    /// nothing stale. Returns the bytes of the new manifest file.
    ///
    /// The handles of the blobs are to be in the index before this call, and
    /// the segments' files are to be complete on disk.
    pub fn register(&mut self, writer: MultiWriter) -> (bytes: Vec<u8>)
        ensures
            final(self)@ == registered(old(self)@, writer@.finished()),
            is_manifest_of(bytes@, final(self)@.dom()),
    {
        proof {
            use_type_invariant(&self.0);
        }
        let writers = writer.finish();
        let mut segments: HashMap<SegmentId, Segment> = HashMap::new();
        core::mem::swap(&mut self.0.segments, &mut segments);
        let ghost stats_of = |segment: Segment| segment.stats@;
        let mut i: usize = 0;
        while i < writers.len()
            invariant
                i <= writers.len(),
                valid_segments(segments@),
                stats_of == |segment: Segment| segment.stats@,
                segments@.map_values(stats_of) == registered(
                    old(self)@,
                    writer_views(writers@).take(i as int),
                ),
            decreases writers.len() - i,
        {
            let segment_writer = &writers[i];
            let segment_id = segment_writer.segment_id();
            let stats = Stats::new(
                segment_writer.item_count(),
                segment_writer.written_blob_bytes(),
                segment_writer.uncompressed_bytes(),
            );
            let ghost before = segments@;
            let _ = segments.insert(segment_id, Segment { id: segment_id, stats });
            proof {
                let views = writer_views(writers@);
                assert(views.take(i + 1).drop_last() =~= views.take(i as int));
                assert(views.take(i + 1).last() == writers@[i as int]@);
                assert(segments@.map_values(stats_of) =~= before.map_values(stats_of).insert(
                    segment_id,
                    stats@,
                ));
            }
            i += 1;
        }
        proof {
            assert(writer_views(writers@).take(i as int) =~= writer_views(writers@));
        }
        self.0.segments = segments;
        self.encode()
    }

    /// Puts new statistics in the place of those of a registered segment.
    fn set_stats(&mut self, id: SegmentId, stats: Stats)
        requires
            old(self)@.contains_key(id),
            stats@.wf(),
        ensures
            final(self)@ == old(self)@.insert(id, stats@),
    {
        proof {
            use_type_invariant(&self.0);
        }
        let mut segments: HashMap<SegmentId, Segment> = HashMap::new();
        core::mem::swap(&mut self.0.segments, &mut segments);
        let _ = segments.insert(id, Segment { id, stats });
        self.0.segments = segments;
        proof {
            assert(self@ =~= old(self)@.insert(id, stats@));
        }
    }

    /// Brings the stale counters of every segment up to date with the
    /// index. `live` holds every handle that the index points to, with the
    /// uncompressed size of its blob. In each segment, what the handles do
    /// not account for is stale afterwards. Handles into segments that are
    /// not registered are passed over.
    pub fn scan_for_stats(&mut self, live: &[(ValueHandle, u32)])
        ensures
            final(self)@ == scanned(old(self)@, live@),
    {
        let counters = count_live(live);
        let ids = self.list_segment_ids();
        let mut i: usize = 0;
        while i < ids.len()
            invariant
                i <= ids.len(),
                ids@.no_duplicates(),
                ids@.to_set() == old(self)@.dom(),
                self@.dom() == old(self)@.dom(),
                forall|id: SegmentId| #[trigger]
                    counters@.contains_key(id) ==> counters@[id] == LiveCounter::counting(
                        live_items(live@, id),
                        live_bytes(live@, id),
                    ),
                forall|id: SegmentId|
                    !(#[trigger] counters@.contains_key(id)) ==> live_items(live@, id) == 0
                        && live_bytes(live@, id) == 0,
                forall|j: int|
                    0 <= j < i ==> self@[#[trigger] ids@[j]] == old(self)@[ids@[j]].with_live(
                        live_items(live@, ids@[j]),
                        live_bytes(live@, ids@[j]),
                    ),
                forall|j: int| i <= j < ids@.len() ==> self@[#[trigger] ids@[j]] == old(self)@[ids@[j]],
            decreases ids.len() - i,
        {
            let id = ids[i];
            assert(ids@.to_set().contains(ids@[i as int]));
            let counter = match counters.get(&id) {
                Some(counter) => *counter,
                None => LiveCounter::new(),
            };
            match self.get_segment(id) {
                Some(segment) => {
                    let mut stats = segment.stats;
                    stats.set_live(counter.items, counter.bytes);
                    proof {
                        lemma_with_live_saturated(
                            old(self)@[id],
                            live_items(live@, id),
                            live_bytes(live@, id),
                        );
                    }
                    let ghost before = self@;
                    self.set_stats(id, stats);
                    proof {
                        assert(self@.dom() =~= before.dom());
                        assert forall|j: int| 0 <= j < ids@.len() && j != i implies self@[ids@[j]]
                            == before[ids@[j]] by {
                            assert(ids@[j] != ids@[i as int]);
                        }
                    }
                },
                None => {
                    assert(false);
                },
            }
            i += 1;
        }
        proof {
            assert forall|id: SegmentId| self@.contains_key(id) implies self@[id] == scanned(
                old(self)@,
                live@,
            )[id] by {
                assert(ids@.to_set().contains(id));
                let j = choose|j: int| 0 <= j < ids@.len() && ids@[j] == id;
                assert(self@[ids@[j]] == scanned(old(self)@, live@)[id]);
            }
            assert(self@ =~= scanned(old(self)@, live@));
        }
    }

    /// Sets the stale counters of one segment from what a scan of that
    /// segment against the index has found live. Returns whether the segment
    /// is registered; where it is not, nothing changes.
    pub fn refresh_stats(&mut self, id: SegmentId, live: LiveCounter) -> (found: bool)
        ensures
            found == old(self)@.contains_key(id),
            found ==> final(self)@ == old(self)@.insert(
                id,
                old(self)@[id].with_live(live.items as nat, live.bytes as nat),
            ),
            !found ==> final(self)@ == old(self)@,
    {
        match self.get_segment(id) {
            Some(segment) => {
                let mut stats = segment.stats;
                stats.set_live(live.items, live.bytes);
                self.set_stats(id, stats);
                true
            },
            None => false,
        }
    }

    /// Marks everything in the segments `ids` as stale. Ids that are not
    /// registered are passed over.
    pub fn mark_as_stale(&mut self, ids: &[SegmentId])
        ensures
            final(self)@ == marked_stale(old(self)@, ids@.to_set()),
    {
        let mut i: usize = 0;
        while i < ids.len()
            invariant
                i <= ids.len(),
                self@ == marked_stale(old(self)@, ids@.take(i as int).to_set()),
            decreases ids.len() - i,
        {
            let id = ids[i];
            let ghost before = self@;
            match self.get_segment(id) {
                Some(segment) => {
                    let mut stats = segment.stats;
                    stats.mark_as_stale();
                    self.set_stats(id, stats);
                },
                None => {},
            }
            proof {
                let seen = ids@.take(i as int);
                let next = ids@.take(i + 1);
                assert(next =~= seen.push(id));
                assert forall|x: SegmentId| next.to_set().contains(x) <==> seen.to_set().contains(
                    x,
                ) || x == id by {
                    vstd::seq_lib::lemma_seq_contains_after_push(seen, id, x);
                }
                assert(self@ =~= marked_stale(old(self)@, next.to_set()));
            }
            i += 1;
        }
        proof {
            assert(ids@.take(i as int) =~= ids@);
            assert(marked_stale(old(self)@, Seq::<SegmentId>::empty().to_set()) =~= old(self)@);
        }
    }

    /// Lists the segments that hold data all of which is stale, each one
    /// once, in no particular order.
    pub fn stale_segment_ids(&self) -> (stale: Vec<SegmentId>)
        ensures
            stale@.no_duplicates(),
            stale@.to_set() == stale_segments(self@),
    {
        let ids = self.list_segment_ids();
        let mut stale: Vec<SegmentId> = Vec::new();
        let mut i: usize = 0;
        while i < ids.len()
            invariant
                i <= ids.len(),
                ids@.no_duplicates(),
                ids@.to_set() == self@.dom(),
                stale@.no_duplicates(),
                forall|x: SegmentId|
                    stale@.contains(x) <==> ids@.take(i as int).contains(x) && self@[x].is_stale(),
            decreases ids.len() - i,
        {
            let id = ids[i];
            assert(ids@.to_set().contains(ids@[i as int]));
            let ghost before = stale@;
            let is_stale = match self.get_segment(id) {
                Some(segment) => segment.is_stale(),
                None => false,
            };
            if is_stale {
                proof {
                    if ids@.take(i as int).contains(id) {
                        let j = choose|j: int| 0 <= j < i && ids@.take(i as int)[j] == id;
                        assert(ids@[j] == ids@[i as int]);
                    }
                }
                stale.push(id);
                proof {
                    assert(!before.contains(id));
                    assert forall|a: int, b: int| 0 <= a < b < stale@.len() implies stale@[a]
                        != stale@[b] by {
                        if b == before.len() {
                            assert(before[a] == stale@[a]);
                            assert(before.contains(before[a]));
                        } else {
                            assert(before[a] != before[b]);
                        }
                    }
                }
            }
            proof {
                let seen = ids@.take(i as int);
                let next = ids@.take(i + 1);
                assert(next =~= seen.push(id));
                assert forall|x: SegmentId|
                    stale@.contains(x) <==> next.contains(x) && self@[x].is_stale() by {
                    vstd::seq_lib::lemma_seq_contains_after_push(seen, id, x);
                    vstd::seq_lib::lemma_seq_contains_after_push(before, id, x);
                }
            }
            i += 1;
        }
        proof {
            assert(ids@.take(i as int) =~= ids@);
            assert(stale@.to_set() =~= stale_segments(self@));
        }
        stale
    }

    /// Drops every segment that holds data all of which is stale. Returns
    /// the ids of the dropped segments, whose files the caller removes, and
    /// the bytes of the new manifest file.
    pub fn drop_stale_segments(&mut self) -> (r: (Vec<SegmentId>, Vec<u8>))
        ensures
            r.0@.no_duplicates(),
            r.0@.to_set() == stale_segments(old(self)@),
            final(self)@ == old(self)@.remove_keys(stale_segments(old(self)@)),
            is_manifest_of(r.1@, final(self)@.dom()),
    {
        let stale = self.stale_segment_ids();
        let bytes = self.drop_segments(stale.as_slice());
        (stale, bytes)
    }

    /// Gets a segment.
    pub fn get_segment(&self, id: SegmentId) -> (segment: Option<Segment>)
        ensures
            match segment {
                Some(segment) => self@.contains_key(id) && segment.id == id && segment.stats@
                    == self@[id] && self@[id].wf(),
                None => !self@.contains_key(id),
            },
    {
        proof {
            use_type_invariant(&self.0);
        }
        match self.0.segments.get(&id) {
            Some(segment) => Some(*segment),
            None => None,
        }
    }

    /// Counts segments.
    pub fn len(&self) -> (n: usize)
        ensures
            n == self@.dom().len(),
    {
        assert(self@.dom() =~= self.0.segments@.dom());
        self.0.segments.len()
    }

    /// Lists all segments, each one once, in no particular order.
    pub fn list_segments(&self) -> (segments: Vec<Segment>)
        ensures
            segments@.len() == self@.dom().len(),
            forall|i: int|
                0 <= i < segments@.len() ==> self@.contains_key((#[trigger] segments@[i]).id)
                    && segments@[i].stats@ == self@[segments@[i].id],
            forall|i: int, j: int|
                0 <= i < j < segments@.len() ==> segments@[i].id != segments@[j].id,
    {
        let ids = self.list_segment_ids();
        proof {
            ids@.unique_seq_to_set();
        }
        let mut segments: Vec<Segment> = Vec::new();
        let mut i: usize = 0;
        while i < ids.len()
            invariant
                i <= ids.len(),
                ids@.to_set() == self@.dom(),
                segments@.len() == i,
                forall|j: int|
                    0 <= j < i ==> (#[trigger] segments@[j]).id == ids@[j] && segments@[j].stats@
                        == self@[ids@[j]],
            decreases ids.len() - i,
        {
            assert(ids@.to_set().contains(ids@[i as int]));
            match self.get_segment(ids[i]) {
                Some(segment) => {
                    segments.push(segment);
                },
                None => {
                    assert(false);
                },
            }
            i += 1;
        }
        proof {
            assert forall|j: int| 0 <= j < segments@.len() implies self@.contains_key(
                (#[trigger] segments@[j]).id,
            ) by {
                assert(ids@.to_set().contains(ids@[j]));
            }
        }
        segments
    }

    /// The sum of a counter over all segments.
    pub fn sum_of(&self, counter: Counter) -> (sum: u128)
        ensures
            sum == total(self@, counter),
    {
        let ids = self.list_segment_ids();
        self.invariants();
        let mut sum: u128 = 0;
        let mut i: usize = 0;
        proof {
            assert(self@.restrict(ids@.take(0).to_set()) =~= Map::<SegmentId, StatsView>::empty());
            lemma_total_small(0, StatsView::zero(), counter);
        }
        while i < ids.len()
            invariant
                i <= ids.len(),
                ids@.no_duplicates(),
                ids@.to_set() == self@.dom(),
                self@.dom().finite(),
                sum == total(self@.restrict(ids@.take(i as int).to_set()), counter),
                sum <= i * u64::MAX,
            decreases ids.len() - i,
        {
            let id = ids[i];
            assert(ids@.to_set().contains(ids@[i as int]));
            let value = match self.get_segment(id) {
                Some(segment) => match counter {
                    Counter::TotalBytes => segment.stats.total_bytes(),
                    Counter::TotalUncompressedBytes => segment.stats.total_uncompressed_bytes(),
                    Counter::StaleBytes => segment.stats.stale_bytes(),
                },
                None => 0,
            };
            proof {
                let before = self@.restrict(ids@.take(i as int).to_set());
                let after = self@.restrict(ids@.take(i + 1).to_set());
                assert(ids@.take(i + 1) =~= ids@.take(i as int).push(id));
                assert(!ids@.take(i as int).contains(id)) by {
                    if ids@.take(i as int).contains(id) {
                        let j = choose|j: int| 0 <= j < i && ids@.take(i as int)[j] == id;
                        assert(ids@[j] == ids@[i as int]);
                    }
                }
                assert(ids@.take(i + 1)[i as int] == id);
                assert(after.remove(id) =~= before);
                vstd::set_lib::lemma_set_subset_finite(self@.dom(), after.dom());
                lemma_total_remove(after, counter, id);
                assert(i * u64::MAX + u64::MAX == (i + 1) * u64::MAX) by (nonlinear_arith);
                assert((i + 1) * u64::MAX <= usize::MAX * u64::MAX) by (nonlinear_arith)
                    requires
                        i + 1 <= usize::MAX,
                ;
                assert(usize::MAX * u64::MAX <= u128::MAX) by (nonlinear_arith)
                    requires
                        usize::MAX <= u64::MAX,
                ;
            }
            sum = sum + value as u128;
            i += 1;
        }
        proof {
            assert(ids@.take(i as int) =~= ids@);
            assert(self@.restrict(ids@.to_set()) =~= self@);
        }
        sum
    }

    /// Returns the amount of bytes on disk that are occupied by blobs. An
    /// amount that does not fit into `u64` comes out as the largest `u64`.
    pub fn disk_space_used(&self) -> (bytes: u64)
        ensures
            bytes == saturated(total_bytes(self@)),
    {
        let sum = self.sum_of(Counter::TotalBytes);
        if sum <= u64::MAX as u128 {
            sum as u64
        } else {
            u64::MAX
        }
    }

    /// Returns the share of dead bytes (uncompressed) in the value log, as
    /// a fraction: the stale bytes over all bytes. Zero where the log holds
    /// no bytes.
    pub fn stale_ratio(&self) -> (ratio: Ratio)
        ensures
            ratio == spec_stale_ratio(self@),
            ratio.denominator > 0,
            ratio.numerator <= ratio.denominator,
    {
        let used = self.sum_of(Counter::TotalUncompressedBytes);
        if used == 0 {
            return Ratio { numerator: 0, denominator: 1 };
        }
        let stale = self.sum_of(Counter::StaleBytes);
        if stale == 0 {
            return Ratio { numerator: 0, denominator: 1 };
        }
        self.invariants();
        proof {
            lemma_stale_within_used(self@);
        }
        Ratio { numerator: stale, denominator: used }
    }

    /// Returns the space amplification as a fraction: all bytes over the
    /// live bytes. Zero where the log holds no bytes, or no live bytes.
    pub fn space_amp(&self) -> (ratio: Ratio)
        ensures
            ratio == spec_space_amp(self@),
            ratio.denominator > 0,
    {
        let used = self.sum_of(Counter::TotalUncompressedBytes);
        if used == 0 {
            return Ratio { numerator: 0, denominator: 1 };
        }
        let stale = self.sum_of(Counter::StaleBytes);
        self.invariants();
        proof {
            lemma_stale_within_used(self@);
        }
        let alive = used - stale;
        if alive == 0 {
            return Ratio { numerator: 0, denominator: 1 };
        }
        Ratio { numerator: used, denominator: alive }
    }

    /// Lists all segment IDs, each one once, in no particular order.
    pub fn list_segment_ids(&self) -> (ids: Vec<SegmentId>)
        ensures
            ids@.no_duplicates(),
            ids@.to_set() == self@.dom(),
    {
        let mut ids: Vec<SegmentId> = Vec::new();
        for id in it: self.0.segments.keys()
            invariant
                it.seq() == vstd::std_specs::hash::spec_keys_iter(&self.0.segments).remaining(),
                ids@ == it.seq().take(it.index()).unref(),
        {
            ids.push(*id);
        }
        proof {
            let keys = vstd::std_specs::hash::spec_keys_iter(&self.0.segments).remaining();
            vstd::std_specs::hash::axiom_spec_keys_iter(&self.0.segments);
            assert(keys.take(keys.len() as int) =~= keys);
            assert(self@.dom() =~= self.0.segments@.dom());
            assert forall|i: int, j: int| 0 <= i < j < ids@.len() implies ids@[i] != ids@[j] by {
                assert(keys[i] != keys[j]);
            }
        }
        ids
    }
}

} // verus!
