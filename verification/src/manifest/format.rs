//! The manifest file: a big-endian `u64` count followed by that many
//! big-endian `u64` segment ids.

use crate::coding::{
    be_bytes, be_value, lemma_be_bytes_len, lemma_be_limits, lemma_be_value_of_bytes, put_u64,
    read_u64_be,
};
use crate::error::Error;
use crate::id::SegmentId;
use crate::serde::unexpected_eof;
use vstd::prelude::*;
use vstd::slice::slice_subrange;

verus! {

/// The ids of a manifest file, one after the other, eight bytes each.
pub open spec fn id_bytes(ids: Seq<SegmentId>) -> Seq<u8>
    decreases ids.len(),
{
    if ids.len() == 0 {
        Seq::empty()
    } else {
        id_bytes(ids.drop_last()) + be_bytes(ids.last() as nat, 8)
    }
}

/// The manifest file that lists `ids`: their number, then the ids.
pub open spec fn encoded_ids(ids: Seq<SegmentId>) -> Seq<u8> {
    be_bytes(ids.len(), 8) + id_bytes(ids)
}

/// The ids that a manifest file lists. A file that is shorter than its
/// count says lists nothing; bytes behind the last id are not looked at.
pub open spec fn decoded_ids(bytes: Seq<u8>) -> Option<Seq<SegmentId>> {
    if bytes.len() < 8 {
        None
    } else {
        let count = be_value(bytes.subrange(0, 8));
        if bytes.len() < 8 + 8 * count {
            None
        } else {
            Some(Seq::new(count, |i: int| be_value(bytes.subrange(8 + 8 * i, 16 + 8 * i)) as u64))
        }
    }
}

/// The id bytes hold eight bytes for each id, in order.
pub proof fn lemma_id_bytes(ids: Seq<SegmentId>)
    ensures
        id_bytes(ids).len() == 8 * ids.len(),
        forall|i: int|
            0 <= i < ids.len() ==> #[trigger] id_bytes(ids).subrange(8 * i, 8 * i + 8) == be_bytes(
                ids[i] as nat,
                8,
            ),
    decreases ids.len(),
{
    if ids.len() > 0 {
        let head = ids.drop_last();
        lemma_id_bytes(head);
        lemma_be_bytes_len(ids.last() as nat, 8);
        assert forall|i: int| 0 <= i < ids.len() implies #[trigger] id_bytes(ids).subrange(
            8 * i,
            8 * i + 8,
        ) == be_bytes(ids[i] as nat, 8) by {
            if i < head.len() {
                assert(id_bytes(ids).subrange(8 * i, 8 * i + 8) =~= id_bytes(head).subrange(
                    8 * i,
                    8 * i + 8,
                ));
                assert(head[i] == ids[i]);
            } else {
                assert(id_bytes(ids).subrange(8 * i, 8 * i + 8) =~= be_bytes(ids.last() as nat, 8));
            }
        }
    }
}

/// A manifest file that was written lists, when it is read, the ids that
/// it was written for, in the same order.
pub proof fn lemma_manifest_round_trip(ids: Seq<SegmentId>)
    requires
        ids.len() <= u64::MAX,
    ensures
        decoded_ids(encoded_ids(ids)) == Some(ids),
{
    let bytes = encoded_ids(ids);
    lemma_id_bytes(ids);
    lemma_be_bytes_len(ids.len(), 8);
    lemma_be_limits();
    lemma_be_value_of_bytes(ids.len(), 8);
    assert(bytes.subrange(0, 8) =~= be_bytes(ids.len(), 8));
    let decoded = decoded_ids(bytes).unwrap();
    assert forall|i: int| 0 <= i < ids.len() implies decoded[i] == ids[i] by {
        assert(bytes.subrange(8 + 8 * i, 16 + 8 * i) =~= id_bytes(ids).subrange(8 * i, 8 * i + 8));
        lemma_be_value_of_bytes(ids[i] as nat, 8);
    }
    assert(decoded =~= ids);
}

/// The bytes of the manifest file that lists `segment_ids`.
pub fn encode_ids(segment_ids: &[SegmentId]) -> (bytes: Vec<u8>)
    ensures
        bytes@ == encoded_ids(segment_ids@),
{
    let mut bytes: Vec<u8> = Vec::new();
    put_u64(&mut bytes, segment_ids.len() as u64);
    let mut i: usize = 0;
    while i < segment_ids.len()
        invariant
            i <= segment_ids.len(),
            bytes@ == be_bytes(segment_ids@.len(), 8) + id_bytes(segment_ids@.take(i as int)),
        decreases segment_ids.len() - i,
    {
        put_u64(&mut bytes, segment_ids[i]);
        proof {
            let next = segment_ids@.take(i + 1);
            assert(next.drop_last() =~= segment_ids@.take(i as int));
            assert(next.last() == segment_ids@[i as int]);
        }
        i += 1;
    }
    assert(segment_ids@.take(i as int) =~= segment_ids@);
    bytes
}

/// Reads the ids out of the bytes of a manifest file. Fails with an I/O
/// error where the file ends before the last id that its count announces.
pub fn load_ids(bytes: &[u8]) -> (r: Result<Vec<SegmentId>, Error>)
    ensures
        match decoded_ids(bytes@) {
            Some(ids) => r matches Ok(v) && v@ == ids,
            None => r matches Err(Error::Io(_)),
        },
{
    if bytes.len() < 8 {
        return Err(Error::Io(unexpected_eof()));
    }
    let count_field = slice_subrange(bytes, 0, 8);
    let count = read_u64_be(count_field);
    assert(count_field@.subrange(0, 8) =~= bytes@.subrange(0, 8));
    let mut ids: Vec<SegmentId> = Vec::new();
    let mut pos: usize = 8;
    let mut i: u64 = 0;
    while i < count
        invariant
            i <= count,
            count == be_value(bytes@.subrange(0, 8)),
            bytes@.len() >= 8,
            pos == 8 + 8 * i,
            pos <= bytes@.len(),
            ids@.len() == i,
            forall|j: int|
                0 <= j < i ==> #[trigger] ids@[j] == be_value(
                    bytes@.subrange(8 + 8 * j, 16 + 8 * j),
                ) as u64,
        decreases count - i,
    {
        if bytes.len() - pos < 8 {
            return Err(Error::Io(unexpected_eof()));
        }
        let field = slice_subrange(bytes, pos, pos + 8);
        let id = read_u64_be(field);
        proof {
            assert(field@.subrange(0, 8) =~= bytes@.subrange(8 + 8 * i, 16 + 8 * i));
        }
        ids.push(id);
        pos += 8;
        i += 1;
    }
    assert(ids@ =~= decoded_ids(bytes@).unwrap());
    Ok(ids)
}

/// Whether `bytes` is a manifest file for the segments `ids`: it lists
/// every one of them once, and nothing else.
pub open spec fn is_manifest_of(bytes: Seq<u8>, ids: Set<SegmentId>) -> bool {
    &&& decoded_ids(bytes) matches Some(listed)
    &&& listed.no_duplicates()
    &&& listed.to_set() == ids
    &&& bytes.len() == 8 + 8 * listed.len()
}

} // verus!
