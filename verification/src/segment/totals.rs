//! What a segment was sealed with: the number of its blobs and their bytes,
//! counted from the segment's file.
//!
//! The counts are what the writer of the segment had counted when the
//! segment was registered, so a log that is recovered knows its segments as
//! it knew them before.

use crate::blob::{
    decoded_blob, encoded_blob, encoded_len, lemma_blob_round_trip,
    lemma_decoded_blob_is_stable, lemma_encoded_len, BlobView, Decoded,
};
use crate::compression::CompressionType;
use crate::error::Error;
use crate::segment::reader::SegmentReader;
use crate::segment::stats::saturated;
use crate::segment::writer::SegmentWriterView;
use crate::serde::DeserializeError;
use crate::version::{file_header, parsed_file_header, Version};
use vstd::prelude::*;

verus! {

/// The counts of a segment as numbers without a bound.
pub struct TotalsView {
    /// Number of blobs
    pub item_count: nat,
    /// Bytes of the payloads as stored
    pub total_bytes: nat,
    /// Bytes of the payloads before compression
    pub total_uncompressed_bytes: nat,
}

impl TotalsView {
    /// The counts of a segment without blobs.
    pub open spec fn zero() -> TotalsView {
        TotalsView { item_count: 0, total_bytes: 0, total_uncompressed_bytes: 0 }
    }

    /// The counts with one more blob, whose payload takes `stored_len`
    /// bytes and stands for a value of `uncompressed_len` bytes.
    pub open spec fn counted(self, stored_len: nat, uncompressed_len: nat) -> TotalsView {
        TotalsView {
            item_count: self.item_count + 1,
            total_bytes: self.total_bytes + stored_len,
            total_uncompressed_bytes: self.total_uncompressed_bytes + uncompressed_len,
        }
    }

    /// The counts that a segment writer has kept.
    pub open spec fn of_writer(writer: SegmentWriterView) -> TotalsView {
        TotalsView {
            item_count: writer.item_count as nat,
            total_bytes: writer.written_blob_bytes as nat,
            total_uncompressed_bytes: writer.uncompressed_bytes as nat,
        }
    }
}

/// The counts of a segment. A count that does not fit stops at the largest
/// `u64`.
#[derive(Copy, Clone, Debug, PartialEq, Eq, Structural)]
pub struct Totals {
    /// Number of blobs
    pub item_count: u64,
    /// Bytes of the payloads as stored
    pub total_bytes: u64,
    /// Bytes of the payloads before compression
    pub total_uncompressed_bytes: u64,
}

impl Totals {
    /// The counts as `u64` numbers hold them.
    pub open spec fn of(view: TotalsView) -> Totals {
        Totals {
            item_count: saturated(view.item_count),
            total_bytes: saturated(view.total_bytes),
            total_uncompressed_bytes: saturated(view.total_uncompressed_bytes),
        }
    }
}

/// The length of the value that the record number `index` of a segment
/// stands for. A payload that is stored as it is has the length of the
/// value; for any other payload the length is the entry `index` of
/// `lens`, and unknown where there is no such entry.
pub open spec fn uncompressed_len_of(blob: BlobView, lens: Seq<u32>, index: nat) -> Option<nat> {
    if blob.compression == CompressionType::Uncompressed {
        Some(blob.value.len())
    } else if index < lens.len() {
        Some(lens[index as int] as nat)
    } else {
        None
    }
}

/// What counting the blobs of a segment file comes to.
pub enum Scanned {
    /// The file is whole: these are its counts.
    Done(TotalsView),
    /// The file does not begin with the file header of a known version.
    InvalidHeader,
    /// The file ends within a record.
    Truncated,
    /// The header of a record names no compression type.
    InvalidTag(u8),
    /// A compressed payload has no entry that says how long its value is.
    MissingLength,
}

/// Counts the records of `bytes` from position `pos` to the end of the
/// file, on top of the counts `counted`.
pub open spec fn scanned_from(
    bytes: Seq<u8>,
    pos: int,
    lens: Seq<u32>,
    counted: TotalsView,
) -> Scanned
    decreases bytes.len() - pos,
{
    if pos >= bytes.len() {
        Scanned::Done(counted)
    } else {
        match decoded_blob(bytes, pos) {
            Decoded::Record { blob, end } => match uncompressed_len_of(
                blob,
                lens,
                counted.item_count,
            ) {
                Some(len) => scanned_from(bytes, end, lens, counted.counted(blob.value.len(), len)),
                None => Scanned::MissingLength,
            },
            Decoded::Truncated => Scanned::Truncated,
            Decoded::InvalidTag(tag) => Scanned::InvalidTag(tag),
        }
    }
}

/// The counts of the segment file `bytes`. `lens` holds, for every record
/// of the file in order, the length of the value before compression; the
/// entries of records that are stored as they are play no part.
pub open spec fn scanned_totals(bytes: Seq<u8>, lens: Seq<u32>) -> Scanned {
    if parsed_file_header(bytes) is Some {
        scanned_from(bytes, 5, lens, TotalsView::zero())
    } else {
        Scanned::InvalidHeader
    }
}

/// Whether counting the file of a writer gives what the writer has counted,
/// where `lens` holds the lengths that the writer was given, one for every
/// blob.
pub open spec fn counts_as_written(writer: SegmentWriterView, lens: Seq<u32>) -> bool {
    &&& lens.len() == writer.item_count
    &&& scanned_totals(writer.contents, lens) == Scanned::Done(TotalsView::of_writer(writer))
}

/// A scan counts up: the number of blobs at its end is not below the
/// number it began with.
pub proof fn lemma_scan_counts_up(bytes: Seq<u8>, pos: int, lens: Seq<u32>, counted: TotalsView)
    requires
        scanned_from(bytes, pos, lens, counted) is Done,
    ensures
        counted.item_count <= scanned_from(bytes, pos, lens, counted)->Done_0.item_count,
    decreases bytes.len() - pos,
{
    if pos < bytes.len() {
        let blob = decoded_blob(bytes, pos)->blob;
        let end = decoded_blob(bytes, pos)->end;
        let len = uncompressed_len_of(blob, lens, counted.item_count).unwrap();
        lemma_scan_counts_up(bytes, end, lens, counted.counted(blob.value.len(), len));
    }
}

/// A scan that has every length it needs is not changed by more lengths
/// behind them.
pub proof fn lemma_scan_with_more_lens(
    bytes: Seq<u8>,
    pos: int,
    lens: Seq<u32>,
    more: Seq<u32>,
    counted: TotalsView,
)
    requires
        scanned_from(bytes, pos, lens, counted) is Done,
    ensures
        scanned_from(bytes, pos, lens + more, counted) == scanned_from(bytes, pos, lens, counted),
    decreases bytes.len() - pos,
{
    if pos < bytes.len() {
        let blob = decoded_blob(bytes, pos)->blob;
        let end = decoded_blob(bytes, pos)->end;
        let len = uncompressed_len_of(blob, lens, counted.item_count).unwrap();
        assert(uncompressed_len_of(blob, lens + more, counted.item_count) == Some(len));
        lemma_scan_with_more_lens(bytes, end, lens, more, counted.counted(blob.value.len(), len));
    }
}

/// A scan of a whole file is the beginning of the scan of the file with
/// more bytes behind it: that scan goes on behind the old end with the
/// counts of the old file.
pub proof fn lemma_scan_of_longer_file(
    bytes: Seq<u8>,
    pos: int,
    lens: Seq<u32>,
    counted: TotalsView,
    more: Seq<u8>,
)
    requires
        0 <= pos <= bytes.len(),
        scanned_from(bytes, pos, lens, counted) is Done,
    ensures
        scanned_from(bytes + more, pos, lens, counted) == scanned_from(
            bytes + more,
            bytes.len() as int,
            lens,
            scanned_from(bytes, pos, lens, counted)->Done_0,
        ),
    decreases bytes.len() - pos,
{
    if pos < bytes.len() {
        let blob = decoded_blob(bytes, pos)->blob;
        let end = decoded_blob(bytes, pos)->end;
        let len = uncompressed_len_of(blob, lens, counted.item_count).unwrap();
        lemma_decoded_blob_is_stable(bytes, pos, more);
        lemma_scan_of_longer_file(
            bytes,
            end,
            lens,
            counted.counted(blob.value.len(), len),
            more,
        );
    }
}

/// Counting the file of a writer that has just begun gives no blobs.
pub proof fn lemma_fresh_counts_as_written(segment_id: u64)
    ensures
        counts_as_written(SegmentWriterView::fresh(segment_id), Seq::empty()),
{
}

/// Counting the file of a writer gives what the writer has counted, blob
/// after blob: where that holds before a write, it holds after it, with the
/// length that the write was given behind the lengths before.
pub proof fn lemma_appended_counts_as_written(
    writer: SegmentWriterView,
    lens: Seq<u32>,
    key: Seq<u8>,
    payload: Seq<u8>,
    compression: CompressionType,
    uncompressed_len: u32,
)
    requires
        writer.wf(),
        writer.accepts(key, payload, compression, uncompressed_len),
        counts_as_written(writer, lens),
    ensures
        counts_as_written(
            writer.appended(key, payload, compression, uncompressed_len),
            lens.push(uncompressed_len),
        ),
{
    let record = encoded_blob(key, payload, compression);
    let after = writer.appended(key, payload, compression, uncompressed_len);
    let longer = lens.push(uncompressed_len);
    let before = TotalsView::of_writer(writer);
    let old_len = writer.contents.len() as int;
    lemma_encoded_len(key, payload, compression);
    assert(longer =~= lens + seq![uncompressed_len]);
    lemma_scan_with_more_lens(writer.contents, 5, lens, seq![uncompressed_len], TotalsView::zero());
    lemma_scan_of_longer_file(writer.contents, 5, longer, TotalsView::zero(), record);
    lemma_blob_round_trip(writer.contents, key, payload, compression, Seq::empty());
    assert(writer.contents + record + Seq::<u8>::empty() =~= after.contents);
    let blob = BlobView { key, value: payload, compression };
    assert(decoded_blob(after.contents, old_len) == (Decoded::Record {
        blob,
        end: after.contents.len() as int,
    }));
    assert(uncompressed_len_of(blob, longer, before.item_count) == Some(uncompressed_len as nat));
    assert(scanned_from(after.contents, old_len, longer, before) == scanned_from(
        after.contents,
        after.contents.len() as int,
        longer,
        before.counted(payload.len(), uncompressed_len as nat),
    ));
    assert(TotalsView::of_writer(after) == before.counted(payload.len(), uncompressed_len as nat));
}

/// Counts the blobs of a segment file and their bytes.
///
/// `uncompressed_lens` holds, for every record of the file in order, the
/// length of the value before compression. Only the entries of compressed
/// payloads are looked at; for a file without compressed payloads the list
/// can be empty.
///
/// Fails with `InvalidHeader` where the file does not begin with the file
/// header of a known version, with a deserialization error where a record
/// is cut short or names no compression type, and with `Decompress` where a
/// compressed payload has no entry in `uncompressed_lens`.
pub fn scan_totals(bytes: Vec<u8>, uncompressed_lens: &[u32]) -> (r: Result<Totals, Error>)
    ensures
        match scanned_totals(bytes@, uncompressed_lens@) {
            Scanned::Done(totals) => r == Ok::<Totals, Error>(Totals::of(totals)),
            Scanned::InvalidHeader => r matches Err(
                Error::Deserialize(DeserializeError::InvalidHeader(_)),
            ),
            Scanned::Truncated => r matches Err(Error::Deserialize(DeserializeError::Io(_))),
            Scanned::InvalidTag(tag) => r matches Err(
                Error::Deserialize(DeserializeError::InvalidTag(found)),
            ) && found.1 == tag,
            Scanned::MissingLength => r matches Err(Error::Decompress),
        },
{
    let ghost file = bytes@;
    let ghost lens = uncompressed_lens@;
    let file_len = bytes.len();
    let mut reader = SegmentReader::new(bytes)?;
    let mut totals = Totals { item_count: 0, total_bytes: 0, total_uncompressed_bytes: 0 };
    let ghost mut counted = TotalsView::zero();
    loop
        invariant
            lens == uncompressed_lens@,
            file == bytes@,
            file.len() == file_len,
            reader@.bytes == file,
            5 <= reader@.pos <= file.len(),
            scanned_totals(file, lens) == scanned_from(file, reader@.pos, lens, counted),
            counted.item_count <= reader@.pos,
            counted.total_bytes <= reader@.pos,
            totals == Totals::of(counted),
        decreases file.len() - reader@.pos,
    {
        let ghost pos = reader@.pos;
        match reader.next() {
            None => {
                return Ok(totals);
            },
            Some(Err(e)) => {
                return Err(e);
            },
            Some(Ok((blob, _))) => {
                let stored_len = blob.value.len();
                let uncompressed_len: u64 = match blob.compression {
                    CompressionType::Uncompressed => stored_len as u64,
                    _ => {
                        if totals.item_count >= uncompressed_lens.len() as u64 {
                            return Err(Error::Decompress);
                        }
                        uncompressed_lens[totals.item_count as usize] as u64
                    },
                };
                proof {
                    assert(uncompressed_len_of(blob@, lens, counted.item_count) == Some(
                        uncompressed_len as nat,
                    ));
                    counted = counted.counted(stored_len as nat, uncompressed_len as nat);
                }
                totals = Totals {
                    item_count: totals.item_count + 1,
                    total_bytes: totals.total_bytes + stored_len as u64,
                    total_uncompressed_bytes: totals.total_uncompressed_bytes.saturating_add(
                        uncompressed_len,
                    ),
                };
            },
        }
    }
}

} // verus!
