//! What the operations of the registry do to it, as functions on maps
//! from segment ids to statistics.

use crate::handle::ValueHandle;
use crate::id::SegmentId;
use crate::segment::stats::StatsView;
use crate::segment::totals::{counts_as_written, scanned_totals, Scanned, Totals};
use crate::segment::writer::SegmentWriterView;
use vstd::prelude::*;

verus! {

/// The counts that `sealed` holds for the segment `id`: those of the
/// first entry for that id, if there is one.
pub open spec fn totals_for(sealed: Seq<(SegmentId, Totals)>, id: SegmentId) -> Option<Totals>
    decreases sealed.len(),
{
    if sealed.len() == 0 {
        None
    } else if sealed[0].0 == id {
        Some(sealed[0].1)
    } else {
        totals_for(sealed.drop_first(), id)
    }
}

/// Whether `sealed` holds counts for every one of `ids`.
pub open spec fn all_sealed(ids: Seq<SegmentId>, sealed: Seq<(SegmentId, Totals)>) -> bool {
    forall|i: int| 0 <= i < ids.len() ==> totals_for(sealed, #[trigger] ids[i]) is Some
}

/// The statistics of a segment that was sealed with the given counts:
/// nothing is stale.
pub open spec fn sealed_with(totals: Totals) -> StatsView {
    StatsView::sealed(totals.item_count, totals.total_bytes, totals.total_uncompressed_bytes)
}

/// The registry that recovery builds: every id of the manifest file stands
/// for a segment with the counts that it was sealed with, as `sealed` holds
/// them, and with nothing stale.
pub open spec fn recovered(ids: Seq<SegmentId>, sealed: Seq<(SegmentId, Totals)>) -> Map<
    SegmentId,
    StatsView,
> {
    Map::new(
        |id: SegmentId| ids.contains(id),
        |id: SegmentId| sealed_with(totals_for(sealed, id).unwrap()),
    )
}

/// Recovery gives a segment the statistics that it was registered with.
/// Counting the file of a writer gives the counts that `register` took from
/// the writer; so a registry that is recovered with the counts of that file
/// holds for the segment what the registry held when the segment was
/// registered: the same number of blobs and the same bytes, and nothing
/// stale.
pub proof fn lemma_recovery_restores_totals(
    segments: Map<SegmentId, StatsView>,
    writer: SegmentWriterView,
    lens: Seq<u32>,
    ids: Seq<SegmentId>,
    sealed: Seq<(SegmentId, Totals)>,
)
    requires
        counts_as_written(writer, lens),
        ids.contains(writer.segment_id),
        scanned_totals(writer.contents, lens) matches Scanned::Done(totals) ==> totals_for(
            sealed,
            writer.segment_id,
        ) == Some(Totals::of(totals)),
    ensures
        scanned_totals(writer.contents, lens) matches Scanned::Done(totals) && sealed_with(
            Totals::of(totals),
        ) == sealed_stats(writer),
        recovered(ids, sealed).contains_key(writer.segment_id),
        recovered(ids, sealed)[writer.segment_id] == sealed_stats(writer),
        recovered(ids, sealed)[writer.segment_id] == registered(
            segments,
            seq![writer],
        )[writer.segment_id],
{
    reveal_with_fuel(registered, 2);
    assert(seq![writer].drop_last() =~= Seq::<SegmentWriterView>::empty());
}

/// The statistics that a segment is registered with: what its writer has
/// counted, and nothing stale.
pub open spec fn sealed_stats(writer: SegmentWriterView) -> StatsView {
    StatsView::sealed(writer.item_count, writer.written_blob_bytes, writer.uncompressed_bytes)
}

/// Whether one of `writers` has written the segment `id`.
pub open spec fn writes_segment(writers: Seq<SegmentWriterView>, id: SegmentId) -> bool {
    exists|i: int| 0 <= i < writers.len() && (#[trigger] writers[i]).segment_id == id
}

/// The registry after the segments of `writers` were registered, one after
/// the other. A segment that is registered again replaces the old entry.
pub open spec fn registered(
    segments: Map<SegmentId, StatsView>,
    writers: Seq<SegmentWriterView>,
) -> Map<SegmentId, StatsView>
    decreases writers.len(),
{
    if writers.len() == 0 {
        segments
    } else {
        registered(segments, writers.drop_last()).insert(
            writers.last().segment_id,
            sealed_stats(writers.last()),
        )
    }
}

/// Registering keeps what was registered and adds every new segment: an
/// id is registered afterwards if and only if it was before or belongs to one
/// of the writers.
pub proof fn lemma_registered_dom(
    segments: Map<SegmentId, StatsView>,
    writers: Seq<SegmentWriterView>,
    id: SegmentId,
)
    ensures
        registered(segments, writers).contains_key(id) <==> segments.contains_key(id)
            || writes_segment(writers, id),
    decreases writers.len(),
{
    if writers.len() > 0 {
        let head = writers.drop_last();
        lemma_registered_dom(segments, head, id);
        if writers.last().segment_id == id {
            assert(writers[writers.len() - 1].segment_id == id);
        }
        if exists|i: int| 0 <= i < head.len() && (#[trigger] head[i]).segment_id == id {
            let i = choose|i: int| 0 <= i < head.len() && (#[trigger] head[i]).segment_id == id;
            assert(writers[i].segment_id == id);
        }
        if exists|i: int| 0 <= i < writers.len() && (#[trigger] writers[i]).segment_id == id {
            let i = choose|i: int|
                0 <= i < writers.len() && (#[trigger] writers[i]).segment_id == id;
            if i < head.len() {
                assert(head[i].segment_id == id);
            }
        }
    }
}

/// A segment stays registered until it is dropped: registering more
/// segments, scanning the index and marking segments stale keep every
/// segment, and dropping keeps the segments that are not named.
pub proof fn lemma_segment_stays_until_dropped(
    segments: Map<SegmentId, StatsView>,
    id: SegmentId,
    writers: Seq<SegmentWriterView>,
    live: Seq<(ValueHandle, u32)>,
    marked: Set<SegmentId>,
    dropped: Set<SegmentId>,
)
    requires
        segments.contains_key(id),
    ensures
        registered(segments, writers).contains_key(id),
        scanned(segments, live).contains_key(id),
        marked_stale(segments, marked).contains_key(id),
        !dropped.contains(id) ==> segments.remove_keys(dropped).contains_key(id),
{
    lemma_registered_dom(segments, writers, id);
}

/// The number of handles of `live` that point into the segment `id`.
pub open spec fn live_items(live: Seq<(ValueHandle, u32)>, id: SegmentId) -> nat
    decreases live.len(),
{
    if live.len() == 0 {
        0
    } else {
        live_items(live.drop_last(), id) + if live.last().0.segment_id == id {
            1nat
        } else {
            0nat
        }
    }
}

/// The sizes of the handles of `live` that point into the segment `id`,
/// added up.
pub open spec fn live_bytes(live: Seq<(ValueHandle, u32)>, id: SegmentId) -> nat
    decreases live.len(),
{
    if live.len() == 0 {
        0
    } else {
        live_bytes(live.drop_last(), id) + if live.last().0.segment_id == id {
            live.last().1 as nat
        } else {
            0nat
        }
    }
}

/// The registry after a scan of the index: in every segment, what the
/// handles of `live` do not account for is stale.
pub open spec fn scanned(
    segments: Map<SegmentId, StatsView>,
    live: Seq<(ValueHandle, u32)>,
) -> Map<SegmentId, StatsView> {
    Map::new(
        |id: SegmentId| segments.contains_key(id),
        |id: SegmentId| segments[id].with_live(live_items(live, id), live_bytes(live, id)),
    )
}

/// The registry with everything in the segments `ids` marked stale.
pub open spec fn marked_stale(segments: Map<SegmentId, StatsView>, ids: Set<SegmentId>) -> Map<
    SegmentId,
    StatsView,
> {
    Map::new(
        |id: SegmentId| segments.contains_key(id),
        |id: SegmentId|
            if ids.contains(id) {
                segments[id].all_stale()
            } else {
                segments[id]
            },
    )
}

/// The segments of a registry that hold data all of which is stale.
pub open spec fn stale_segments(segments: Map<SegmentId, StatsView>) -> Set<SegmentId> {
    Set::new(|id: SegmentId| segments.contains_key(id) && segments[id].is_stale())
}

} // verus!
