//! An append-only, segmented value log: blobs live in immutable segments,
//! a manifest names the segments that make up the log, and per-segment
//! statistics drive garbage collection.
//!
//! This crate holds the rules of the log as functions on plain values.
//! Whatever touches the file system is left to the caller, who hands the
//! bytes in and takes the bytes out.

pub mod blob;
pub mod coding;
pub mod compression;
pub mod config;
pub mod error;
pub mod handle;
pub mod id;
pub mod index;
pub mod manifest;
pub mod rollover;
pub mod segment;
pub mod serde;
pub mod value_log;
pub mod version;

pub use blob::Blob;
pub use compression::CompressionType;
pub use config::Config;
pub use error::{Error, Result};
pub use handle::ValueHandle;
pub use id::{IdGenerator, SegmentId};
pub use index::{IndexReader, IndexWriter};
pub use manifest::{Ratio, SegmentManifest, SegmentManifestInner};
pub use segment::stats::{LiveCounter, Stats, StatsView};
pub use segment::totals::{scan_totals, Totals};
pub use segment::multi_writer::{MultiWriter, MultiWriterView, NewSegment, WriteOutcome};
pub use segment::reader::{SegmentReader, SegmentReaderView};
pub use segment::writer::{SegmentWriter, SegmentWriterView};
pub use segment::Segment;
pub use serde::{DeserializeError, Deserializable, Serializable, SerializeError};
pub use value_log::{Opened, ValueLog};
pub use version::Version;
