//! Appends blobs to a run of segments, beginning a new segment whenever
//! the current one has reached its target size.

use crate::blob::{checked_value_len, encoded_blob, encoded_len, lemma_encoded_len};
use crate::compression::CompressionType;
use crate::error::Error;
use crate::handle::ValueHandle;
use crate::id::{id_after, IdGenerator, SegmentId};
use crate::manifest::writes_segment;
use crate::segment::writer::{SegmentWriter, SegmentWriterView};
use crate::version::{file_header, Version};
use vstd::prelude::*;

verus! {

/// A segment file to begin: its id and its first bytes.
pub struct NewSegment {
    /// The segment to create
    pub id: SegmentId,
    /// The file header, which opens the segment's file
    pub header: Vec<u8>,
}

/// What a write asks of the file system.
pub struct WriteOutcome {
    /// The segment whose file the record is appended to
    pub segment_id: SegmentId,
    /// The record
    pub record: Vec<u8>,
    /// Where the write has filled the segment: the segment to begin next,
    /// once the record is in place and the file is sealed
    pub next_segment: Option<NewSegment>,
}

/// The views of a list of segment writers.
pub open spec fn writer_views(writers: Seq<SegmentWriter>) -> Seq<SegmentWriterView> {
    writers.map_values(|w: SegmentWriter| w@)
}

/// The state of a multi writer as plain values.
pub struct MultiWriterView {
    /// Size of a segment file at which the segment is sealed
    pub target_size: u64,
    /// The segments that are sealed, oldest first
    pub sealed: Seq<SegmentWriterView>,
    /// The segment that takes the next blob
    pub current: SegmentWriterView,
}

impl MultiWriterView {
    /// Every sealed segment holds a blob, and the counters of every segment
    /// are within its file.
    pub open spec fn wf(self) -> bool {
        &&& self.current.wf()
        &&& forall|i: int|
            0 <= i < self.sealed.len() ==> (#[trigger] self.sealed[i]).item_count > 0
                && self.sealed[i].wf()
    }

    /// A multi writer that has begun its first segment.
    pub open spec fn fresh(target_size: u64, segment_id: SegmentId) -> MultiWriterView {
        MultiWriterView {
            target_size,
            sealed: Seq::empty(),
            current: SegmentWriterView::fresh(segment_id),
        }
    }

    /// Whether the current segment is full once it took a blob: with the
    /// record of the blob, its file reaches the target size.
    pub open spec fn fills(self, key: Seq<u8>, payload: Seq<u8>) -> bool {
        self.current.contents.len() + encoded_len(key, payload) >= self.target_size
    }

    /// The multi writer after it took a blob, where `next_id` is the id that
    /// the generator hands out next. A segment that the blob has filled is
    /// sealed, and the segment `next_id` is begun.
    pub open spec fn appended(
        self,
        key: Seq<u8>,
        payload: Seq<u8>,
        compression: CompressionType,
        uncompressed_len: u32,
        next_id: SegmentId,
    ) -> MultiWriterView {
        let written = self.current.appended(key, payload, compression, uncompressed_len);
        if self.fills(key, payload) {
            MultiWriterView {
                target_size: self.target_size,
                sealed: self.sealed.push(written),
                current: SegmentWriterView::fresh(next_id),
            }
        } else {
            MultiWriterView { current: written, ..self }
        }
    }

    /// The segments that hold blobs, oldest first: the sealed ones, and the
    /// current one unless it is empty.
    pub open spec fn finished(self) -> Seq<SegmentWriterView> {
        if self.current.item_count > 0 {
            self.sealed.push(self.current)
        } else {
            self.sealed
        }
    }
}

/// The segment that takes a blob holds a blob afterwards, so it is among
/// the segments that the run ends with.
pub proof fn lemma_written_segment_is_finished(
    writer: MultiWriterView,
    key: Seq<u8>,
    payload: Seq<u8>,
    compression: CompressionType,
    uncompressed_len: u32,
    next_id: SegmentId,
)
    requires
        writer.current.wf(),
        writer.current.accepts(key, payload, compression, uncompressed_len),
    ensures
        writes_segment(
            writer.appended(key, payload, compression, uncompressed_len, next_id).finished(),
            writer.current.segment_id,
        ),
{
    let after = writer.appended(key, payload, compression, uncompressed_len, next_id);
    let written = writer.current.appended(key, payload, compression, uncompressed_len);
    assert(written.item_count > 0);
    if writer.fills(key, payload) {
        assert(after.sealed[writer.sealed.len() as int] == written);
        if after.current.item_count > 0 {
            assert(after.finished()[writer.sealed.len() as int] == written);
        }
    } else {
        assert(after.finished()[writer.sealed.len() as int] == written);
    }
}

/// A segment that the run would end with stays among the segments of the
/// run when more blobs are written.
pub proof fn lemma_finished_segments_stay(
    writer: MultiWriterView,
    key: Seq<u8>,
    payload: Seq<u8>,
    compression: CompressionType,
    uncompressed_len: u32,
    next_id: SegmentId,
    id: SegmentId,
)
    requires
        writer.current.wf(),
        writer.current.accepts(key, payload, compression, uncompressed_len),
        writes_segment(writer.finished(), id),
    ensures
        writes_segment(
            writer.appended(key, payload, compression, uncompressed_len, next_id).finished(),
            id,
        ),
{
    let after = writer.appended(key, payload, compression, uncompressed_len, next_id);
    let i = choose|i: int|
        0 <= i < writer.finished().len() && (#[trigger] writer.finished()[i]).segment_id == id;
    if i < writer.sealed.len() {
        assert(after.sealed[i] == writer.sealed[i]);
        assert(after.finished()[i].segment_id == id);
    } else {
        lemma_written_segment_is_finished(
            writer,
            key,
            payload,
            compression,
            uncompressed_len,
            next_id,
        );
    }
}

/// Writes blobs to as many segments as it takes.
pub struct MultiWriter {
    target_size: u64,
    sealed: Vec<SegmentWriter>,
    current: SegmentWriter,
}

impl View for MultiWriter {
    type V = MultiWriterView;

    closed spec fn view(&self) -> MultiWriterView {
        MultiWriterView {
            target_size: self.target_size,
            sealed: writer_views(self.sealed@),
            current: self.current@,
        }
    }
}

impl MultiWriter {
    /// Begins a run of segments that are sealed at `target_size` bytes. The
    /// first segment takes its id from `ids`; the caller creates its file.
    pub fn new(ids: &mut IdGenerator, target_size: u64) -> (r: (Self, NewSegment))
        ensures
            r.0@ == MultiWriterView::fresh(target_size, old(ids)@),
            r.0@.wf(),
            r.1.id == old(ids)@,
            r.1.header@ == file_header(Version::V1),
            final(ids)@ == id_after(old(ids)@),
    {
        let id = ids.next();
        let (current, header) = SegmentWriter::new(id);
        let writer = MultiWriter { target_size, sealed: Vec::new(), current };
        assert(writer_views(writer.sealed@) =~= Seq::empty());
        (writer, NewSegment { id, header })
    }

    /// The segment that takes the next blob.
    pub fn segment_id(&self) -> (id: SegmentId)
        ensures
            id == self@.current.segment_id,
    {
        self.current.segment_id()
    }

    /// The position in the current segment's file at which the next record
    /// will begin.
    pub fn offset(&self, key: &[u8]) -> (offset: u64)
        ensures
            offset == self@.current.contents.len(),
    {
        self.current.offset(key)
    }

    /// The handle under which the next blob will be found. The index is to
    /// hold it before the blob is written.
    pub fn next_handle(&self, key: &[u8]) -> (handle: ValueHandle)
        ensures
            handle.segment_id == self@.current.segment_id,
            handle.offset == self@.current.contents.len(),
    {
        ValueHandle { segment_id: self.current.segment_id(), offset: self.current.offset(key) }
    }

    /// Whether the current segment takes a blob. See
    /// [`SegmentWriterView::accepts`].
    pub fn accepts(
        &self,
        key: &[u8],
        payload: &[u8],
        compression: CompressionType,
        uncompressed_len: u32,
    ) -> (accepted: bool)
        ensures
            accepted == self@.current.accepts(key@, payload@, compression, uncompressed_len),
    {
        self.current.accepts(key, payload, compression, uncompressed_len)
    }

    /// Takes a blob whose payload is stored as it is. See
    /// [`MultiWriter::write_compressed`].
    pub fn write(&mut self, ids: &mut IdGenerator, key: &[u8], value: &[u8]) -> (r: Result<
        WriteOutcome,
        Error,
    >)
        ensures
            r is Ok <==> value@.len() <= u32::MAX && old(self)@.current.accepts(
                key@,
                value@,
                CompressionType::Uncompressed,
                value@.len() as u32,
            ),
            r matches Ok(outcome) ==> {
                let fills = old(self)@.fills(key@, value@);
                &&& outcome.segment_id == old(self)@.current.segment_id
                &&& outcome.record@ == encoded_blob(key@, value@, CompressionType::Uncompressed)
                &&& final(self)@ == old(self)@.appended(
                    key@,
                    value@,
                    CompressionType::Uncompressed,
                    value@.len() as u32,
                    old(ids)@,
                )
                &&& final(ids)@ == if fills { id_after(old(ids)@) } else { old(ids)@ }
                &&& outcome.next_segment is Some <==> fills
                &&& outcome.next_segment matches Some(next) ==> next.id == old(ids)@
                    && next.header@ == file_header(Version::V1)
            },
            r matches Err(e) ==> e is Serialize && final(self)@ == old(self)@ && final(ids)@
                == old(ids)@,
            old(self)@.wf() ==> final(self)@.wf(),
    {
        let len = match checked_value_len(value) {
            Ok(len) => len,
            Err(e) => {
                return Err(Error::Serialize(e));
            },
        };
        self.write_compressed(ids, key, value, CompressionType::Uncompressed, len)
    }

    /// Takes a blob whose payload the caller has prepared, and says what to
    /// do with the file system: append the record to the current segment's
    /// file and, where that has filled the segment, seal the file and begin
    /// the next segment, whose id comes from `ids`.
    ///
    /// A blob that the current segment does not accept fails with a
    /// serialization error and changes nothing.
    pub fn write_compressed(
        &mut self,
        ids: &mut IdGenerator,
        key: &[u8],
        payload: &[u8],
        compression: CompressionType,
        uncompressed_len: u32,
    ) -> (r: Result<WriteOutcome, Error>)
        ensures
            r is Ok <==> old(self)@.current.accepts(key@, payload@, compression, uncompressed_len),
            r matches Ok(outcome) ==> {
                let fills = old(self)@.fills(key@, payload@);
                &&& outcome.segment_id == old(self)@.current.segment_id
                &&& outcome.record@ == encoded_blob(key@, payload@, compression)
                &&& final(self)@ == old(self)@.appended(
                    key@,
                    payload@,
                    compression,
                    uncompressed_len,
                    old(ids)@,
                )
                &&& final(ids)@ == if fills { id_after(old(ids)@) } else { old(ids)@ }
                &&& outcome.next_segment is Some <==> fills
                &&& outcome.next_segment matches Some(next) ==> next.id == old(ids)@
                    && next.header@ == file_header(Version::V1)
            },
            r matches Err(e) ==> e is Serialize && final(self)@ == old(self)@ && final(ids)@
                == old(ids)@,
            old(self)@.wf() ==> final(self)@.wf(),
    {
        let segment_id = self.current.segment_id();
        let record = self.current.write_compressed(key, payload, compression, uncompressed_len)?;
        proof {
            lemma_encoded_len(key@, payload@, compression);
        }
        if self.current.offset(key) >= self.target_size {
            let id = ids.next();
            let (mut filled, header) = SegmentWriter::new(id);
            core::mem::swap(&mut self.current, &mut filled);
            let ghost before = self.sealed@;
            self.sealed.push(filled);
            proof {
                assert(writer_views(self.sealed@) =~= writer_views(before).push(filled@));
                if old(self)@.wf() {
                    assert(filled@.item_count > 0);
                    assert forall|i: int| 0 <= i < self@.sealed.len() implies (
                    #[trigger] self@.sealed[i]).item_count > 0 && self@.sealed[i].wf() by {
                        if i < before.len() {
                            assert(self@.sealed[i] == old(self)@.sealed[i]);
                        }
                    }
                }
            }
            Ok(WriteOutcome { segment_id, record, next_segment: Some(NewSegment { id, header }) })
        } else {
            Ok(WriteOutcome { segment_id, record, next_segment: None })
        }
    }

    /// Ends the run and returns the writers of the segments that hold
    /// blobs, oldest first. A current segment without blobs is left out: its
    /// file is to be discarded.
    pub fn finish(self) -> (writers: Vec<SegmentWriter>)
        ensures
            writer_views(writers@) == self@.finished(),
            self@.wf() ==> forall|i: int|
                0 <= i < writers@.len() ==> (#[trigger] writers@[i])@.item_count > 0,
    {
        let mut writers = self.sealed;
        if self.current.item_count() > 0 {
            let ghost before = writers@;
            writers.push(self.current);
            assert(writer_views(writers@) =~= writer_views(before).push(self.current@));
        }
        proof {
            if self@.wf() {
                assert forall|i: int| 0 <= i < writers@.len() implies (
                #[trigger] writers@[i])@.item_count > 0 by {
                    assert(writer_views(writers@)[i] == writers@[i]@);
                    if i < self@.sealed.len() {
                        assert(self@.sealed[i].item_count > 0);
                    }
                }
            }
        }
        writers
    }
}

} // verus!
