//! Segment ids and the counter that hands them out.

use vstd::prelude::*;

verus! {

/// The number that names a segment.
pub type SegmentId = u64;

/// The id that follows `id`. The counter wraps around behind the last `u64`.
pub open spec fn id_after(id: SegmentId) -> SegmentId {
    if id == u64::MAX {
        0
    } else {
        (id + 1) as u64
    }
}

/// The id that a generator hands out at its `n`-th call (counting from zero)
/// when its counter stands at `start`.
pub open spec fn nth_id(start: SegmentId, n: nat) -> SegmentId
    decreases n,
{
    if n == 0 {
        start
    } else {
        nth_id(id_after(start), (n - 1) as nat)
    }
}

/// The largest id of a list, or `None` for the empty list.
pub open spec fn max_id(ids: Seq<SegmentId>) -> Option<SegmentId>
    decreases ids.len(),
{
    if ids.len() == 0 {
        None
    } else {
        match max_id(ids.drop_last()) {
            Some(m) if m >= ids.last() => Some(m),
            _ => Some(ids.last()),
        }
    }
}

/// Where the counter starts after recovery: behind the largest id that is
/// registered, or at zero where none is.
pub open spec fn first_free_id(ids: Seq<SegmentId>) -> SegmentId {
    match max_id(ids) {
        Some(m) => id_after(m),
        None => 0,
    }
}

/// As long as the counter does not wrap, the `n`-th id is `start + n`.
pub proof fn lemma_nth_id(start: SegmentId, n: nat)
    requires
        start + n <= u64::MAX,
    ensures
        nth_id(start, n) == start + n,
    decreases n,
{
    if n > 0 {
        lemma_nth_id(id_after(start), (n - 1) as nat);
    }
}

/// No id is handed out twice: of two calls, the later one gets the larger
/// id, as long as the counter has not wrapped.
pub proof fn lemma_ids_are_fresh(start: SegmentId, earlier: nat, later: nat)
    requires
        earlier < later,
        start + later <= u64::MAX,
    ensures
        nth_id(start, earlier) < nth_id(start, later),
{
    lemma_nth_id(start, earlier);
    lemma_nth_id(start, later);
}

/// The largest id of a list is one of its ids, and none is larger.
pub proof fn lemma_max_id(ids: Seq<SegmentId>)
    ensures
        ids.len() == 0 <==> max_id(ids) is None,
        max_id(ids) matches Some(m) ==> ids.contains(m) && forall|i: int|
            0 <= i < ids.len() ==> ids[i] <= m,
    decreases ids.len(),
{
    if ids.len() > 0 {
        let head = ids.drop_last();
        lemma_max_id(head);
        let m = max_id(ids).unwrap();
        if m == ids.last() {
            assert(ids[ids.len() - 1] == m);
        } else {
            let i = choose|i: int| 0 <= i < head.len() && head[i] == m;
            assert(ids[i] == m);
        }
        assert forall|i: int| 0 <= i < ids.len() implies ids[i] <= m by {
            if i < head.len() {
                assert(head[i] == ids[i]);
            }
        }
    }
}

/// A counter that was seeded from the registered ids never hands out one of
/// them, as long as it has not wrapped.
pub proof fn lemma_recovered_ids_are_fresh(ids: Seq<SegmentId>, n: nat)
    requires
        first_free_id(ids) + n <= u64::MAX,
        forall|i: int| 0 <= i < ids.len() ==> ids[i] < u64::MAX,
    ensures
        !ids.contains(nth_id(first_free_id(ids), n)),
        forall|i: int| 0 <= i < ids.len() ==> ids[i] < nth_id(first_free_id(ids), n),
{
    lemma_max_id(ids);
    lemma_nth_id(first_free_id(ids), n);
    if ids.len() > 0 {
        let m = max_id(ids).unwrap();
        let j = choose|j: int| 0 <= j < ids.len() && ids[j] == m;
        assert(ids[j] < u64::MAX);
    }
}

/// Hands out segment ids, each one larger than the one before.
#[derive(Debug)]
pub struct IdGenerator {
    next: SegmentId,
}

impl View for IdGenerator {
    type V = SegmentId;

    /// The id that the next call of [`IdGenerator::next`] returns.
    closed spec fn view(&self) -> SegmentId {
        self.next
    }
}

impl IdGenerator {
    /// A generator whose first id is `start`.
    pub fn new(start: SegmentId) -> (generator: Self)
        ensures
            generator@ == start,
    {
        Self { next: start }
    }

    /// A generator for a log that holds the segments `ids`: its first id is
    /// the one behind the largest of them, or zero where there is none.
    pub fn recover(ids: &[SegmentId]) -> (generator: Self)
        ensures
            generator@ == first_free_id(ids@),
    {
        let mut highest: Option<SegmentId> = None;
        let mut i: usize = 0;
        while i < ids.len()
            invariant
                i <= ids.len(),
                highest == max_id(ids@.subrange(0, i as int)),
            decreases ids.len() - i,
        {
            assert(ids@.subrange(0, i + 1).drop_last() =~= ids@.subrange(0, i as int));
            highest =
            match highest {
                Some(m) if m >= ids[i] => Some(m),
                _ => Some(ids[i]),
            };
            i += 1;
        }
        assert(ids@.subrange(0, i as int) =~= ids@);
        match highest {
            Some(m) => Self { next: if m == u64::MAX { 0 } else { m + 1 } },
            None => Self { next: 0 },
        }
    }

    /// Hands out the next id and moves the counter on.
    pub fn next(&mut self) -> (id: SegmentId)
        ensures
            id == old(self)@,
            final(self)@ == id_after(old(self)@),
    {
        let id = self.next;
        self.next = if id == u64::MAX { 0 } else { id + 1 };
        id
    }
}

} // verus!
