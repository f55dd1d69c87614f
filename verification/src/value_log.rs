//! The value log as a whole: its options, its registry of segments and its
//! id counter.
//!
//! The log decides; the caller moves the bytes. Every function that changes
//! what is on disk returns the bytes to write, and every function that
//! depends on what is on disk takes the bytes that were read.

use crate::blob::{
    decode_blob, decoded_blob, encodable, encoded_blob, encoded_len, lemma_blob_round_trip, Blob,
    BlobView, Decoded,
};
use crate::compression::CompressionType;
use crate::config::Config;
use crate::error::Error;
use crate::handle::ValueHandle;
use crate::id::{first_free_id, id_after, IdGenerator, SegmentId};
use crate::manifest::{
    all_sealed, decoded_ids, encoded_ids, is_manifest_of, lemma_registered_dom, load_ids,
    marked_stale, names, orphan_names, recovered, registered, scanned, stale_segments,
    unfinished_names, writes_segment, SegmentManifest,
};
use crate::segment::totals::Totals;
use crate::segment::multi_writer::{MultiWriter, MultiWriterView, NewSegment};
use crate::segment::stats::StatsView;
use crate::segment::writer::SegmentWriterView;
use crate::serde::DeserializeError;
use crate::version::{file_header, parsed_file_header, Version};
use vstd::prelude::*;

verus! {

/// What reading a blob by its handle comes to: nothing where the segment
/// of the handle is not registered, and else what stands at the handle's
/// offset in the segment's file.
pub open spec fn spec_get(
    segments: Map<SegmentId, StatsView>,
    handle: ValueHandle,
    file: Seq<u8>,
) -> Option<Decoded> {
    if segments.contains_key(handle.segment_id) {
        Some(decoded_blob(file, handle.offset as int))
    } else {
        None
    }
}

/// A blob that was written and registered is read back by its handle, as
/// it was written. The handle names the segment that took the blob and the
/// length that the segment's file had before; the file may have grown since,
/// and more segments may have been registered.
pub proof fn lemma_registered_blob_is_read_back(
    segments: Map<SegmentId, StatsView>,
    finished: Seq<SegmentWriterView>,
    handle: ValueHandle,
    before: Seq<u8>,
    key: Seq<u8>,
    payload: Seq<u8>,
    compression: CompressionType,
    behind: Seq<u8>,
)
    requires
        encodable(key, payload),
        writes_segment(finished, handle.segment_id),
        handle.offset == before.len(),
    ensures
        spec_get(
            registered(segments, finished),
            handle,
            before + encoded_blob(key, payload, compression) + behind,
        ) == Some(
            Decoded::Record {
                blob: BlobView { key, value: payload, compression },
                end: (before.len() + encoded_len(key, payload)) as int,
            },
        ),
{
    lemma_registered_dom(segments, finished, handle.segment_id);
    lemma_blob_round_trip(before, key, payload, compression, behind);
}

/// What opening a log has come to.
pub enum Opened {
    /// There was no log: one was made. The marker file and the manifest
    /// file are to be written.
    Created { log: ValueLog, marker: Vec<u8>, manifest: Vec<u8> },
    /// There was a log: it was recovered. The folders under the segments
    /// folder that are named in `orphans` are to be removed.
    Recovered { log: ValueLog, orphans: Vec<Vec<u8>> },
}

/// A value log.
pub struct ValueLog {
    /// The options of the log
    pub config: Config,
    /// The registry of the segments
    pub manifest: SegmentManifest,
    /// The counter that hands out segment ids
    pub id_generator: IdGenerator,
}

impl ValueLog {
    /// Makes a log without segments. Returns the log, the bytes of its
    /// marker file and the bytes of its manifest file.
    pub fn create_new(config: Config) -> (r: (Self, Vec<u8>, Vec<u8>))
        ensures
            r.0.config == config,
            r.0.manifest@ == Map::<SegmentId, StatsView>::empty(),
            r.0.id_generator@ == 0,
            r.1@ == file_header(Version::V1),
            r.2@ == encoded_ids(Seq::empty()),
    {
        let mut marker: Vec<u8> = Vec::new();
        let _ = Version::V1.write_file_header(&mut marker);
        assert(marker@ =~= file_header(Version::V1));
        let (manifest, manifest_bytes) = SegmentManifest::create_new();
        let log = ValueLog { config, manifest, id_generator: IdGenerator::new(0) };
        (log, marker, manifest_bytes)
    }

    /// Reads the format version out of the marker file of a log. Fails
    /// with `InvalidVersion` where the file does not hold the file header
    /// of a known version.
    pub fn check_marker(marker: &[u8]) -> (r: Result<Version, Error>)
        ensures
            match parsed_file_header(marker@) {
                Some(version) => r matches Ok(v) && v == version,
                None => r matches Err(Error::InvalidVersion(None)),
            },
    {
        match Version::parse_file_header(marker) {
            Some(version) => Ok(version),
            None => Err(Error::InvalidVersion(None)),
        }
    }

    /// Recovers a log from what is on disk: the bytes of the marker file,
    /// the bytes of the manifest file, the names of the folders under the
    /// segments folder, and the counts of the listed segments as they were
    /// counted from the segments' files, by segment id. Returns the log and
    /// the folders to remove, which are those whose names stand for no
    /// listed segment.
    ///
    /// Every listed segment has the counts that it was sealed with, and
    /// nothing stale. The id counter starts behind the largest registered
    /// id.
    ///
    /// Fails with `InvalidVersion` where the marker file does not hold the
    /// file header of a known version, and with an I/O error where the
    /// manifest file is cut short or a listed segment has no counts.
    pub fn recover(
        config: Config,
        marker: &[u8],
        manifest: &[u8],
        found: &[Vec<u8>],
        sealed: &[(SegmentId, Totals)],
    ) -> (r: Result<(Self, Vec<Vec<u8>>), Error>)
        ensures
            match (parsed_file_header(marker@), decoded_ids(manifest@)) {
                (None, _) => r matches Err(Error::InvalidVersion(None)),
                (Some(_), None) => r matches Err(Error::Io(_)),
                (Some(_), Some(ids)) => if all_sealed(ids, sealed@) {
                    r matches Ok((log, orphans)) && log.config == config && log.manifest@
                        == recovered(ids, sealed@) && log.id_generator@ == first_free_id(ids)
                        && names(orphans@) == orphan_names(names(found@), ids)
                } else {
                    r matches Err(Error::Io(_))
                },
            },
    {
        let _ = Self::check_marker(marker)?;
        let ids = load_ids(manifest)?;
        let orphans = unfinished_names(found, ids.as_slice());
        let log = ValueLog {
            config,
            manifest: SegmentManifest::from_ids(ids.as_slice(), sealed)?,
            id_generator: IdGenerator::recover(ids.as_slice()),
        };
        Ok((log, orphans))
    }

    /// Opens a log: makes one where there is no marker file, and recovers
    /// the log that is on disk where there is one. See
    /// [`ValueLog::create_new`] and [`ValueLog::recover`].
    pub fn open(
        config: Config,
        marker: Option<&[u8]>,
        manifest: &[u8],
        found: &[Vec<u8>],
        sealed: &[(SegmentId, Totals)],
    ) -> (r: Result<Opened, Error>)
        ensures
            match marker {
                None => r matches Ok(Opened::Created { log, marker, manifest }) && log.config
                    == config && log.manifest@ == Map::<SegmentId, StatsView>::empty()
                    && log.id_generator@ == 0 && marker@ == file_header(Version::V1) && manifest@
                    == encoded_ids(Seq::empty()),
                Some(marker) => match (parsed_file_header(marker@), decoded_ids(manifest@)) {
                    (None, _) => r matches Err(Error::InvalidVersion(None)),
                    (Some(_), None) => r matches Err(Error::Io(_)),
                    (Some(_), Some(ids)) => if all_sealed(ids, sealed@) {
                        r matches Ok(Opened::Recovered { log, orphans }) && log.config == config
                            && log.manifest@ == recovered(ids, sealed@) && log.id_generator@
                            == first_free_id(ids) && names(orphans@) == orphan_names(
                            names(found@),
                            ids,
                        )
                    } else {
                        r matches Err(Error::Io(_))
                    },
                },
            },
    {
        match marker {
            None => {
                let (log, marker, manifest) = Self::create_new(config);
                Ok(Opened::Created { log, marker, manifest })
            },
            Some(marker) => {
                let (log, orphans) = Self::recover(config, marker, manifest, found, sealed)?;
                Ok(Opened::Recovered { log, orphans })
            },
        }
    }

    /// Begins a run of segments that are sealed at the segment size of the
    /// options. Returns the writer and the first segment, whose file the
    /// caller creates.
    pub fn get_writer(&mut self) -> (r: (MultiWriter, NewSegment))
        ensures
            r.0@ == MultiWriterView::fresh(
                old(self).config.segment_size_bytes,
                old(self).id_generator@,
            ),
            r.0@.wf(),
            r.1.id == old(self).id_generator@,
            r.1.header@ == file_header(Version::V1),
            final(self).id_generator@ == id_after(old(self).id_generator@),
            final(self).manifest@ == old(self).manifest@,
            final(self).config == old(self).config,
    {
        MultiWriter::new(&mut self.id_generator, self.config.segment_size_bytes)
    }

    /// Registers the segments that `writer` has written and returns the
    /// bytes of the new manifest file. See [`SegmentManifest::register`].
    pub fn register(&mut self, writer: MultiWriter) -> (bytes: Vec<u8>)
        ensures
            final(self).manifest@ == registered(old(self).manifest@, writer@.finished()),
            is_manifest_of(bytes@, final(self).manifest@.dom()),
            final(self).id_generator@ == old(self).id_generator@,
            final(self).config == old(self).config,
    {
        self.manifest.register(writer)
    }

    /// Counts segments.
    pub fn segment_count(&self) -> (n: usize)
        ensures
            n == self.manifest@.dom().len(),
    {
        self.manifest.len()
    }

    /// Reads the blob that `handle` points to out of `file`, the bytes of
    /// the file of the handle's segment.
    ///
    /// Gives `None` where the segment is not registered: the segment is
    /// gone, and `file` is not looked at. A record that the file cuts short
    /// or whose header names no compression type fails with a
    /// deserialization error. The payload of the blob is returned as it is
    /// stored.
    pub fn get(&self, handle: ValueHandle, file: &[u8]) -> (r: Result<Option<Blob>, Error>)
        ensures
            match spec_get(self.manifest@, handle, file@) {
                None => r matches Ok(None),
                Some(Decoded::Record { blob, end }) => r matches Ok(Some(b)) && b@ == blob,
                Some(Decoded::Truncated) => r matches Err(
                    Error::Deserialize(DeserializeError::Io(_)),
                ),
                Some(Decoded::InvalidTag(tag)) => r matches Err(
                    Error::Deserialize(DeserializeError::InvalidTag(found)),
                ) && found.1 == tag,
            },
    {
        if self.manifest.get_segment(handle.segment_id).is_none() {
            return Ok(None);
        }
        let start = if handle.offset > file.len() as u64 {
            file.len()
        } else {
            handle.offset as usize
        };
        assert(decoded_blob(file@, start as int) == decoded_blob(file@, handle.offset as int));
        match decode_blob(file, start) {
            Ok((blob, _)) => Ok(Some(blob)),
            Err(e) => Err(Error::Deserialize(e)),
        }
    }

    /// Brings the stale counters of every segment up to date with the
    /// index. See [`SegmentManifest::scan_for_stats`].
    pub fn scan_for_stats(&mut self, live: &[(ValueHandle, u32)])
        ensures
            final(self).manifest@ == scanned(old(self).manifest@, live@),
            final(self).id_generator@ == old(self).id_generator@,
            final(self).config == old(self).config,
    {
        self.manifest.scan_for_stats(live);
    }

    /// Marks the source segments of a rollover as stale, once the index
    /// has made the new handles durable. See
    /// [`SegmentManifest::mark_as_stale`].
    pub fn finish_rollover(&mut self, source_ids: &[SegmentId])
        ensures
            final(self).manifest@ == marked_stale(old(self).manifest@, source_ids@.to_set()),
            final(self).id_generator@ == old(self).id_generator@,
            final(self).config == old(self).config,
    {
        self.manifest.mark_as_stale(source_ids);
    }

    /// Drops every segment that holds data all of which is stale. Returns
    /// the ids of the dropped segments, whose files the caller removes, and
    /// the bytes of the new manifest file.
    pub fn drop_stale_segments(&mut self) -> (r: (Vec<SegmentId>, Vec<u8>))
        ensures
            r.0@.no_duplicates(),
            r.0@.to_set() == stale_segments(old(self).manifest@),
            final(self).manifest@ == old(self).manifest@.remove_keys(
                stale_segments(old(self).manifest@),
            ),
            is_manifest_of(r.1@, final(self).manifest@.dom()),
            final(self).id_generator@ == old(self).id_generator@,
            final(self).config == old(self).config,
    {
        self.manifest.drop_stale_segments()
    }
}

} // verus!
