//! The sweep of recovery: segment folders that no manifest entry stands
//! for are left over from writers that were never registered, and go.

use crate::id::SegmentId;
use crate::manifest::model::recovered;
use crate::segment::name::{parse_folder_name, parsed_name};
use crate::segment::totals::Totals;
use vstd::prelude::*;
use vstd::slice::slice_to_vec;

verus! {

/// The directories to remove on recovery: those of `found` whose id is not
/// among `registered_ids`, in the order in which they were found.
pub open spec fn unfinished(found: Seq<SegmentId>, registered_ids: Seq<SegmentId>) -> Seq<
    SegmentId,
> {
    found.filter(|id: SegmentId| !registered_ids.contains(id))
}

/// Whether `id` is one of `ids`.
pub fn contains_id(ids: &[SegmentId], id: SegmentId) -> (found: bool)
    ensures
        found == ids@.contains(id),
{
    let mut i: usize = 0;
    while i < ids.len()
        invariant
            i <= ids.len(),
            forall|j: int| 0 <= j < i ==> ids@[j] != id,
        decreases ids.len() - i,
    {
        if ids[i] == id {
            return true;
        }
        i += 1;
    }
    false
}

/// Picks the segment directories that no manifest entry stands for.
/// `found` holds the ids of the directories that exist.
pub fn unfinished_segments(found: &[SegmentId], registered_ids: &[SegmentId]) -> (orphans: Vec<
    SegmentId,
>)
    ensures
        orphans@ == unfinished(found@, registered_ids@),
{
    let mut orphans: Vec<SegmentId> = Vec::new();
    let mut i: usize = 0;
    let ghost keep = |id: SegmentId| !registered_ids@.contains(id);
    while i < found.len()
        invariant
            i <= found.len(),
            keep == |id: SegmentId| !registered_ids@.contains(id),
            orphans@ == found@.take(i as int).filter(keep),
        decreases found.len() - i,
    {
        proof {
            let next = found@.take(i + 1);
            assert(next.drop_last() =~= found@.take(i as int));
            reveal_with_fuel(Seq::filter, 2);
        }
        if !contains_id(registered_ids, found[i]) {
            orphans.push(found[i]);
        }
        i += 1;
    }
    assert(found@.take(i as int) =~= found@);
    orphans
}

/// The directories that recovery leaves in place are those that stand for
/// a registered segment. Where every registered segment has its directory,
/// the directories that are left are the registered segments, no more and
/// no fewer, and these are the segments of the recovered registry.
pub proof fn lemma_recovery_sweep(
    found: Seq<SegmentId>,
    registered_ids: Seq<SegmentId>,
    sealed: Seq<(SegmentId, Totals)>,
)
    ensures
        found.to_set().difference(unfinished(found, registered_ids).to_set())
            == found.to_set().intersect(registered_ids.to_set()),
        registered_ids.to_set().subset_of(found.to_set()) ==> found.to_set().difference(
            unfinished(found, registered_ids).to_set(),
        ) == registered_ids.to_set(),
        recovered(registered_ids, sealed).dom() == registered_ids.to_set(),
{
    assert(recovered(registered_ids, sealed).dom() =~= registered_ids.to_set());
    let keep = |id: SegmentId| !registered_ids.contains(id);
    let orphans = unfinished(found, registered_ids);
    assert forall|id: SegmentId|
        found.to_set().difference(orphans.to_set()).contains(id)
            <==> found.to_set().intersect(registered_ids.to_set()).contains(id) by {
        if found.contains(id) && !registered_ids.contains(id) {
            let j = choose|j: int| 0 <= j < found.len() && found[j] == id;
            found.lemma_filter_contains(keep, j);
        }
        if orphans.contains(id) {
            let i = choose|i: int| 0 <= i < orphans.len() && orphans[i] == id;
            found.lemma_filter_pred(keep, i);
            found.lemma_filter_contains_rev(keep, id);
        }
    }
    assert(found.to_set().difference(orphans.to_set()) =~= found.to_set().intersect(
        registered_ids.to_set(),
    ));
    if registered_ids.to_set().subset_of(found.to_set()) {
        assert(found.to_set().intersect(registered_ids.to_set()) =~= registered_ids.to_set());
    }
}

/// The names of a list of folders as plain byte strings.
pub open spec fn names(list: Seq<Vec<u8>>) -> Seq<Seq<u8>> {
    list.map_values(|name: Vec<u8>| name@)
}

/// Whether a folder under the segments folder is garbage: its name stands
/// for no segment id, or for an id that is not registered.
pub open spec fn is_orphan(name: Seq<u8>, registered_ids: Seq<SegmentId>) -> bool {
    match parsed_name(name) {
        Some(id) => !registered_ids.contains(id),
        None => true,
    }
}

/// The folders to remove on recovery: those of `found` that are garbage,
/// in the order in which they were found.
pub open spec fn orphan_names(found: Seq<Seq<u8>>, registered_ids: Seq<SegmentId>) -> Seq<
    Seq<u8>,
> {
    found.filter(|name: Seq<u8>| is_orphan(name, registered_ids))
}

/// Recovery removes a folder if and only if the folder is garbage, and it
/// removes nothing that was not found. So the folders that are left are
/// those whose names stand for registered segments.
pub proof fn lemma_name_sweep(found: Seq<Seq<u8>>, registered_ids: Seq<SegmentId>, name: Seq<u8>)
    ensures
        orphan_names(found, registered_ids).contains(name) <==> found.contains(name) && is_orphan(
            name,
            registered_ids,
        ),
{
    let garbage = |name: Seq<u8>| is_orphan(name, registered_ids);
    let orphans = orphan_names(found, registered_ids);
    if found.contains(name) && is_orphan(name, registered_ids) {
        let j = choose|j: int| 0 <= j < found.len() && found[j] == name;
        found.lemma_filter_contains(garbage, j);
    }
    if orphans.contains(name) {
        let i = choose|i: int| 0 <= i < orphans.len() && orphans[i] == name;
        found.lemma_filter_pred(garbage, i);
        found.lemma_filter_contains_rev(garbage, name);
    }
}

/// Picks the folders under the segments folder that are garbage. `found`
/// holds the names of the folders that exist. A folder is picked if and
/// only if its name stands for no segment id or for one that is not
/// registered.
pub fn unfinished_names(found: &[Vec<u8>], registered_ids: &[SegmentId]) -> (orphans: Vec<
    Vec<u8>,
>)
    ensures
        names(orphans@) == orphan_names(names(found@), registered_ids@),
{
    let mut orphans: Vec<Vec<u8>> = Vec::new();
    let mut i: usize = 0;
    let ghost garbage = |name: Seq<u8>| is_orphan(name, registered_ids@);
    let ghost all = names(found@);
    assert(names(orphans@) =~= all.take(0).filter(garbage));
    while i < found.len()
        invariant
            i <= found.len(),
            all == names(found@),
            garbage == |name: Seq<u8>| is_orphan(name, registered_ids@),
            names(orphans@) == all.take(i as int).filter(garbage),
        decreases found.len() - i,
    {
        proof {
            let next = all.take(i + 1);
            assert(next.drop_last() =~= all.take(i as int));
            assert(next.last() == found@[i as int]@);
            reveal_with_fuel(Seq::filter, 2);
        }
        let registered = match parse_folder_name(found[i].as_slice()) {
            Some(id) => contains_id(registered_ids, id),
            None => false,
        };
        if !registered {
            let ghost before = orphans@;
            let name = slice_to_vec(found[i].as_slice());
            orphans.push(name);
            assert(names(orphans@) =~= names(before).push(found@[i as int]@));
        }
        i += 1;
    }
    assert(all.take(i as int) =~= all);
    orphans
}

} // verus!
