use std::collections::{BTreeMap, HashMap};
use std::sync::{Arc, RwLock};
use value_log::index::is_live;
use value_log::manifest::{encode_ids, load_ids};
use value_log::segment::name::{folder_name, parse_folder_name};
use value_log::rollover::{is_live_in, liveness, relocate, write_relocated};
use value_log::{
    CompressionType, Config, DeserializeError, Error, IdGenerator, IndexReader, IndexWriter,
    scan_totals, LiveCounter, MultiWriter, NewSegment, Opened, Ratio, SegmentReader, Totals,
    ValueHandle, ValueLog, WriteOutcome,
};

/// Stands for the folder of a value log.
#[derive(Default)]
struct Disk {
    marker: Option<Vec<u8>>,
    manifest: Vec<u8>,
    segments: HashMap<u64, Vec<u8>>,
    /// Folders under the segments folder that hold no segment
    other_folders: Vec<Vec<u8>>,
}

impl Disk {
    fn create(&mut self, segment: NewSegment) {
        assert!(self.segments.insert(segment.id, segment.header).is_none());
    }

    fn apply(&mut self, outcome: WriteOutcome) {
        self.segments.get_mut(&outcome.segment_id).unwrap().extend(outcome.record);
        if let Some(next) = outcome.next_segment {
            self.create(next);
        }
    }

    fn remove(&mut self, ids: &[u64]) {
        for id in ids {
            self.segments.remove(id);
        }
    }

    fn found(&self) -> Vec<u64> {
        self.segments.keys().copied().collect()
    }

    fn folder_names(&self) -> Vec<Vec<u8>> {
        let mut names: Vec<Vec<u8>> = self.segments.keys().map(|id| folder_name(*id)).collect();
        names.extend(self.other_folders.iter().cloned());
        names
    }

    fn remove_folders(&mut self, names: &[Vec<u8>]) {
        for name in names {
            if let Some(id) = parse_folder_name(name) {
                self.segments.remove(&id);
            }
            self.other_folders.retain(|other| other != name);
        }
    }

    /// Counts the listed segments from their files.
    fn sealed(&self) -> value_log::Result<Vec<(u64, Totals)>> {
        let mut sealed = vec![];
        if self.marker.is_some() {
            for id in load_ids(&self.manifest)? {
                sealed.push((id, scan_totals(self.file(id).to_vec(), &[])?));
            }
        }
        Ok(sealed)
    }

    fn file(&self, id: u64) -> &[u8] {
        self.segments.get(&id).map(|x| x.as_slice()).unwrap_or(&[])
    }
}

type DebugIndexInner = RwLock<BTreeMap<Arc<[u8]>, (ValueHandle, u32)>>;

#[derive(Clone, Default)]
pub struct DebugIndex(Arc<DebugIndexInner>);

impl std::ops::Deref for DebugIndex {
    type Target = DebugIndexInner;

    fn deref(&self) -> &Self::Target {
        &self.0
    }
}

impl DebugIndex {
    fn insert_indirection(&self, key: &[u8], value: ValueHandle, size: u32) -> std::io::Result<()> {
        self.write().expect("lock is poisoned").insert(key.into(), (value, size));
        Ok(())
    }

    fn live(&self) -> Vec<(ValueHandle, u32)> {
        self.read().unwrap().values().cloned().collect()
    }
}

impl IndexReader for DebugIndex {
    fn get(&self, key: &[u8]) -> std::io::Result<Option<ValueHandle>> {
        Ok(self.read().expect("lock is poisoned").get(key).map(|(handle, _)| handle).cloned())
    }
}

/// An index writer whose `finish` succeeds.
pub struct WorkingIndexWriter(DebugIndex);

impl IndexWriter for WorkingIndexWriter {
    fn insert_indirection(
        &mut self,
        key: &[u8],
        value: ValueHandle,
        size: u32,
    ) -> std::io::Result<()> {
        self.0.insert_indirection(key, value, size)
    }

    fn finish(self) -> std::io::Result<()> {
        Ok(())
    }
}

/// Used for tests only
pub struct DebugIndexWriter(DebugIndex);

impl IndexWriter for DebugIndexWriter {
    fn insert_indirection(
        &mut self,
        key: &[u8],
        value: ValueHandle,
        size: u32,
    ) -> std::io::Result<()> {
        self.0.insert_indirection(key, value, size)
    }

    fn finish(self) -> std::io::Result<()> {
        Err(std::io::Error::new(std::io::ErrorKind::Other, "Oh no"))
    }
}

fn open(disk: &mut Disk, config: Config) -> value_log::Result<ValueLog> {
    let found = disk.folder_names();
    let sealed = disk.sealed()?;
    match ValueLog::open(config, disk.marker.as_deref(), &disk.manifest, &found, &sealed)? {
        Opened::Created { log, marker, manifest } => {
            disk.marker = Some(marker);
            disk.manifest = manifest;
            Ok(log)
        }
        Opened::Recovered { log, orphans } => {
            disk.remove_folders(&orphans);
            Ok(log)
        }
    }
}

fn get_writer(log: &mut ValueLog, disk: &mut Disk) -> MultiWriter {
    let (writer, first) = log.get_writer();
    disk.create(first);
    writer
}

fn register(log: &mut ValueLog, disk: &mut Disk, writer: MultiWriter) {
    disk.manifest = log.register(writer);
    let registered = log.manifest.list_segment_ids();
    disk.segments.retain(|id, _| registered.contains(id));
}

fn refresh_stats(
    log: &mut ValueLog,
    disk: &Disk,
    index: &DebugIndex,
    id: u64,
) -> value_log::Result<()> {
    let mut reader = SegmentReader::new(disk.file(id).to_vec())?;
    let mut live = LiveCounter::new();
    while let Some(item) = reader.next() {
        let (blob, offset) = item?;
        if is_live_in(index, &blob.key, id, offset)? {
            live.add(blob.value.len() as u32);
        }
    }
    assert!(log.manifest.refresh_stats(id, live));
    Ok(())
}

fn rollover<R: IndexReader, W: IndexWriter>(
    log: &mut ValueLog,
    disk: &mut Disk,
    ids: &[u64],
    index_reader: &R,
    mut index_writer: W,
) -> value_log::Result<()> {
    let mut writer = get_writer(log, disk);
    let mut sources = ids.to_vec();
    sources.sort();
    for id in sources {
        let mut reader = SegmentReader::new(disk.file(id).to_vec())?;
        while let Some(item) = reader.next() {
            let (blob, offset) = item?;
            if is_live_in(index_reader, &blob.key, id, offset)? {
                let outcome = relocate(
                    &mut writer,
                    &mut log.id_generator,
                    &mut index_writer,
                    &blob.key,
                    &blob.value,
                    blob.compression,
                    blob.value.len() as u32,
                )?;
                disk.apply(outcome);
            }
        }
    }
    register(log, disk, writer);
    index_writer.finish()?;
    log.finish_rollover(ids);
    Ok(())
}

fn drop_stale_segments(log: &mut ValueLog, disk: &mut Disk) {
    let (dropped, manifest) = log.drop_stale_segments();
    disk.manifest = manifest;
    disk.remove(&dropped);
}

fn as_f32(ratio: Ratio) -> f32 {
    ratio.numerator as f32 / ratio.denominator as f32
}

#[test]
fn basic_kv() -> value_log::Result<()> {
    let mut disk = Disk::default();
    let index = DebugIndex::default();

    let mut value_log = open(&mut disk, Config::default())?;

    let items = ["a", "b", "c", "d", "e"];

    {
        let mut writer = get_writer(&mut value_log, &mut disk);

        for key in &items {
            let value = key.repeat(1_000);
            let value = value.as_bytes();

            let handle = writer.next_handle(key.as_bytes());
            index.insert_indirection(key.as_bytes(), handle, value.len() as u32)?;

            let outcome = writer.write(&mut value_log.id_generator, key.as_bytes(), value)?;
            disk.apply(outcome);
        }

        register(&mut value_log, &mut disk, writer);
    }

    {
        assert_eq!(1, value_log.segment_count());

        let segments = value_log.manifest.list_segments();

        let segment = segments.first().unwrap();

        assert_eq!(items.len() as u64, segment.len());
        assert_eq!(0, segment.stats.stale_items());
        assert_eq!(0.0, as_f32(segment.stale_ratio()));
        assert_eq!(0.0, as_f32(value_log.manifest.stale_ratio()));

        let mut reader = SegmentReader::new(disk.file(segment.id).to_vec())?;
        let mut count = 0;
        while let Some(item) = reader.next() {
            item?;
            count += 1;
        }
        assert_eq!(segment.len(), count);
    }

    for (key, (handle, _)) in index.read().unwrap().iter() {
        let item = value_log.get(*handle, disk.file(handle.segment_id))?.unwrap();
        assert_eq!(item.key, key.to_vec());
        assert_eq!(item.value, std::str::from_utf8(key).unwrap().repeat(1_000).into_bytes());
    }

    let handle = index.get(b"c")?.unwrap();
    let item = value_log.get(handle, disk.file(handle.segment_id))?.unwrap();
    assert_eq!(item.value, "c".repeat(1_000).as_bytes());

    Ok(())
}

#[test]
fn rollover_index_fail_finish() -> value_log::Result<()> {
    let mut disk = Disk::default();

    let index = DebugIndex(Arc::new(RwLock::new(BTreeMap::default())));

    let mut value_log = open(&mut disk, Config::default())?;

    let items = ["a", "b", "c", "d", "e"];

    {
        let mut writer = get_writer(&mut value_log, &mut disk);

        let segment_id = writer.segment_id();

        for key in &items {
            let value = key.repeat(1_000);
            let value = value.as_bytes();

            let offset = writer.offset(key.as_bytes());

            index.insert_indirection(
                key.as_bytes(),
                ValueHandle { offset, segment_id },
                value.len() as u32,
            )?;

            let outcome = writer.write(&mut value_log.id_generator, key.as_bytes(), value)?;
            disk.apply(outcome);
        }

        register(&mut value_log, &mut disk, writer);
    }

    assert_eq!(value_log.manifest.list_segment_ids(), [0]);

    value_log.scan_for_stats(&index.live());

    assert_eq!(as_f32(value_log.manifest.get_segment(0).unwrap().stale_ratio()), 0.0);

    let result =
        rollover(&mut value_log, &mut disk, &[0], &index, DebugIndexWriter(index.clone()));
    assert!(result.is_err());
    assert!(matches!(result, Err(Error::Io(_))));

    assert_eq!(
        {
            let mut ids = value_log.manifest.list_segment_ids();
            ids.sort();
            ids
        },
        [0, 1]
    );
    assert_eq!(
        {
            let mut ids = load_ids(&disk.manifest)?;
            ids.sort();
            ids
        },
        [0, 1]
    );

    value_log.scan_for_stats(&index.live());

    assert_eq!(as_f32(value_log.manifest.get_segment(0).unwrap().stale_ratio()), 1.0);

    drop_stale_segments(&mut value_log, &mut disk);

    assert_eq!(value_log.manifest.list_segment_ids(), [1]);
    assert_eq!(load_ids(&disk.manifest)?, [1]);
    assert_eq!(disk.found(), [1]);

    for key in &items {
        let handle = index.get(key.as_bytes())?.unwrap();
        assert_eq!(handle.segment_id, 1);
        let item = value_log.get(handle, disk.file(handle.segment_id))?.unwrap();
        assert_eq!(item.value, key.repeat(1_000).into_bytes());
    }

    Ok(())
}

#[test]
fn rollover_index_finish_succeeds() -> value_log::Result<()> {
    let mut disk = Disk::default();
    let index = DebugIndex::default();
    let mut value_log = open(&mut disk, Config::default().segment_size_bytes(2_500))?;

    let mut writer = get_writer(&mut value_log, &mut disk);
    for key in ["a", "b", "c", "d", "e"] {
        let value = key.repeat(1_000);
        let handle = writer.next_handle(key.as_bytes());
        index.insert_indirection(key.as_bytes(), handle, value.len() as u32)?;
        let outcome =
            writer.write(&mut value_log.id_generator, key.as_bytes(), value.as_bytes())?;
        disk.apply(outcome);
    }
    register(&mut value_log, &mut disk, writer);
    // three blobs fill a segment: a, b, c in segment 0, d and e in segment 1
    let mut ids = value_log.manifest.list_segment_ids();
    ids.sort();
    assert_eq!(ids, [0, 1]);
    assert_eq!(value_log.manifest.get_segment(0).unwrap().len(), 3);
    assert_eq!(value_log.manifest.get_segment(1).unwrap().len(), 2);

    // b is overwritten elsewhere, c is deleted: only a is live in segment 0
    index.insert_indirection(b"b", ValueHandle { segment_id: 1, offset: 5 }, 1_000)?;
    index.write().unwrap().remove(&b"c"[..]);

    rollover(&mut value_log, &mut disk, &[0], &index, WorkingIndexWriter(index.clone()))?;

    let mut ids = value_log.manifest.list_segment_ids();
    ids.sort();
    assert_eq!(ids, [0, 1, 2]);
    assert_eq!(index.get(b"a")?.unwrap(), ValueHandle { segment_id: 2, offset: 5 });
    assert_eq!(value_log.manifest.get_segment(2).unwrap().len(), 1);
    assert!(value_log.manifest.get_segment(0).unwrap().is_stale());
    assert!(!value_log.manifest.get_segment(1).unwrap().is_stale());

    drop_stale_segments(&mut value_log, &mut disk);
    let mut ids = value_log.manifest.list_segment_ids();
    ids.sort();
    assert_eq!(ids, [1, 2]);

    let handle = index.get(b"a")?.unwrap();
    let item = value_log.get(handle, disk.file(handle.segment_id))?.unwrap();
    assert_eq!(item.value, "a".repeat(1_000).into_bytes());
    // the segment of the old handle is gone
    let old = ValueHandle { segment_id: 0, offset: 5 };
    assert!(value_log.get(old, disk.file(0))?.is_none());

    Ok(())
}

#[test]
fn worst_case_space_amp() -> value_log::Result<()> {
    let mut disk = Disk::default();
    let index = DebugIndex::default();
    let mut value_log = open(&mut disk, Config::default())?;

    assert_eq!(0.0, as_f32(value_log.manifest.space_amp()));
    assert_eq!(0.0, as_f32(value_log.manifest.stale_ratio()));

    let key = "key";
    let value = "value";

    // NOTE: Write a single item 10x
    // -> should result in space amp = 10.0x
    for x in 1..=10 {
        let mut writer = get_writer(&mut value_log, &mut disk);
        let segment_id = writer.segment_id();

        let offset = writer.offset(key.as_bytes());

        index.insert_indirection(
            key.as_bytes(),
            ValueHandle { offset, segment_id },
            value.len() as u32,
        )?;

        let outcome =
            writer.write(&mut value_log.id_generator, key.as_bytes(), value.as_bytes())?;
        disk.apply(outcome);
        register(&mut value_log, &mut disk, writer);

        for id in value_log.manifest.list_segment_ids() {
            refresh_stats(&mut value_log, &disk, &index, id)?;
        }

        assert_eq!(x as f32, as_f32(value_log.manifest.space_amp()));
        assert_eq!(
            value_log.manifest.space_amp(),
            Ratio { numerator: 5 * x as u128, denominator: 5 }
        );

        if x > 1 {
            assert!(
                (1.0 - (1.0 / x as f32) - as_f32(value_log.manifest.stale_ratio())) < 0.00001
            );
            assert_eq!(
                value_log.manifest.stale_ratio(),
                Ratio { numerator: 5 * (x as u128 - 1), denominator: 5 * x as u128 }
            );
        }
    }

    Ok(())
}

#[test]
fn no_overlap_space_amp() -> value_log::Result<()> {
    let mut disk = Disk::default();
    let index = DebugIndex::default();
    let mut value_log = open(&mut disk, Config::default())?;

    assert_eq!(0.0, as_f32(value_log.manifest.stale_ratio()));
    assert_eq!(0.0, as_f32(value_log.manifest.space_amp()));

    // NOTE: No blobs overlap, so there are no dead blobs => space amp = 1.0 => perfect space amp
    for i in 0..100 {
        let key = i.to_string();
        let value = "afsasfdfasdfsda";

        let mut writer = get_writer(&mut value_log, &mut disk);
        let segment_id = writer.segment_id();

        let offset = writer.offset(key.as_bytes());

        index.insert_indirection(
            key.as_bytes(),
            ValueHandle { offset, segment_id },
            value.len() as u32,
        )?;

        let outcome =
            writer.write(&mut value_log.id_generator, key.as_bytes(), value.as_bytes())?;
        disk.apply(outcome);
        register(&mut value_log, &mut disk, writer);

        for id in value_log.manifest.list_segment_ids() {
            refresh_stats(&mut value_log, &disk, &index, id)?;
        }

        assert_eq!(1.0, as_f32(value_log.manifest.space_amp()));
        assert_eq!(0.0, as_f32(value_log.manifest.stale_ratio()));
        assert_eq!(value_log.segment_count(), i + 1);
    }

    Ok(())
}

#[test]
fn open_creates_then_recovers() -> value_log::Result<()> {
    let mut disk = Disk::default();
    let index = DebugIndex::default();
    {
        let mut value_log = open(&mut disk, Config::default())?;
        assert_eq!(disk.marker, Some(vec![b'V', b'L', b'G', 0, 1]));
        assert_eq!(disk.manifest, vec![0u8; 8]);
        assert_eq!(value_log.segment_count(), 0);

        for key in ["a", "b"] {
            let mut writer = get_writer(&mut value_log, &mut disk);
            let handle = writer.next_handle(key.as_bytes());
            index.insert_indirection(key.as_bytes(), handle, 1)?;
            let outcome = writer.write(&mut value_log.id_generator, key.as_bytes(), b"x")?;
            disk.apply(outcome);
            register(&mut value_log, &mut disk, writer);
        }
        // a writer that is dropped leaves its file behind
        let mut writer = get_writer(&mut value_log, &mut disk);
        let outcome = writer.write(&mut value_log.id_generator, b"lost", b"x")?;
        disk.apply(outcome);
    }
    disk.segments.insert(999, vec![]);
    disk.other_folders.push(b"tmp".to_vec());
    let mut found = disk.found();
    found.sort();
    assert_eq!(found, [0, 1, 2, 999]);

    let mut value_log = open(&mut disk, Config::default())?;
    let mut found = disk.found();
    found.sort();
    assert_eq!(found, [0, 1]);
    assert!(disk.other_folders.is_empty());

    // the segments are known as they were sealed
    for id in [0, 1] {
        let segment = value_log.manifest.get_segment(id).unwrap();
        assert_eq!(segment.len(), 1);
        assert_eq!(segment.stats.total_bytes(), 1);
        assert_eq!(segment.stats.total_uncompressed_bytes(), 1);
    }
    assert_eq!(value_log.manifest.disk_space_used(), 2);
    let mut ids = value_log.manifest.list_segment_ids();
    ids.sort();
    assert_eq!(ids, [0, 1]);

    // new segments get new ids
    let writer = get_writer(&mut value_log, &mut disk);
    assert_eq!(writer.segment_id(), 2);

    // what was written before is still read
    let handle = index.get(b"b")?.unwrap();
    let item = value_log.get(handle, disk.file(handle.segment_id))?.unwrap();
    assert_eq!(item.value, b"x");
    Ok(())
}

#[test]
fn recover_rejects_an_unknown_version() {
    let manifest = encode_ids(&[]);
    for marker in [&b""[..], b"VLG", b"VLG\0\x02", b"FJX\0\x01"] {
        let result = ValueLog::recover(Config::default(), marker, &manifest, &[], &[]);
        assert!(matches!(result, Err(Error::InvalidVersion(None))));
        let result = ValueLog::open(Config::default(), Some(marker), &manifest, &[], &[]);
        assert!(matches!(result, Err(Error::InvalidVersion(None))));
    }
    let result = ValueLog::recover(Config::default(), b"VLG\0\x01", &[1, 2, 3], &[], &[]);
    assert!(matches!(result, Err(Error::Io(_))));
    let result = ValueLog::recover(Config::default(), b"VLG\0\x01", &encode_ids(&[1]), &[], &[]);
    assert!(matches!(result, Err(Error::Io(_))));
}

#[test]
fn recover_seeds_the_id_counter() {
    let manifest = encode_ids(&[3, 17, 4]);
    let config = Config::default().segment_size_bytes(99);
    let found: Vec<Vec<u8>> = [17, 18, 3, 4, 1].iter().map(|id| folder_name(*id)).collect();
    let counts = Totals { item_count: 1, total_bytes: 2, total_uncompressed_bytes: 3 };
    let sealed = [(3, counts), (4, counts), (17, counts)];
    let (mut log, orphans) =
        ValueLog::recover(config, b"VLG\0\x01", &manifest, &found, &sealed).unwrap();
    assert_eq!(orphans, vec![folder_name(18), folder_name(1)]);
    assert_eq!(log.manifest.disk_space_used(), 6);
    assert_eq!(log.config.segment_size_bytes, 99);
    assert_eq!(log.segment_count(), 3);
    let (writer, first) = log.get_writer();
    assert_eq!(first.id, 18);
    assert_eq!(writer.segment_id(), 18);
    assert_eq!(log.id_generator.next(), 19);
}

#[test]
fn create_new_starts_at_zero() {
    let (mut log, marker, manifest) = ValueLog::create_new(Config::default());
    assert_eq!(marker, b"VLG\0\x01");
    assert_eq!(manifest, vec![0u8; 8]);
    assert_eq!(log.segment_count(), 0);
    assert_eq!(log.id_generator.next(), 0);
}

#[test]
fn get_of_an_unknown_segment_is_none() {
    let (log, _, _) = ValueLog::create_new(Config::default());
    let handle = ValueHandle { segment_id: 0, offset: 5 };
    assert!(log.get(handle, b"VLG\0\x01whatever").unwrap().is_none());
}

#[test]
fn get_fails_on_a_broken_record() -> value_log::Result<()> {
    let mut disk = Disk::default();
    let mut value_log = open(&mut disk, Config::default())?;
    let mut writer = get_writer(&mut value_log, &mut disk);
    let handle = writer.next_handle(b"a");
    let outcome = writer.write(&mut value_log.id_generator, b"a", b"value")?;
    disk.apply(outcome);
    register(&mut value_log, &mut disk, writer);

    let file = disk.file(0).to_vec();
    assert_eq!(value_log.get(handle, &file)?.unwrap().value, b"value");

    let result = value_log.get(handle, &file[..file.len() - 1]);
    assert!(matches!(result, Err(Error::Deserialize(DeserializeError::Io(_)))));

    let far = ValueHandle { segment_id: 0, offset: u64::MAX };
    let result = value_log.get(far, &file);
    assert!(matches!(result, Err(Error::Deserialize(DeserializeError::Io(_)))));

    let mut broken = file.clone();
    broken[5 + 7] = 9;
    let result = value_log.get(handle, &broken);
    assert!(matches!(
        result,
        Err(Error::Deserialize(DeserializeError::InvalidTag(("CompressionType", 9))))
    ));
    Ok(())
}

#[test]
fn liveness_follows_the_index() {
    let here = ValueHandle { segment_id: 3, offset: 77 };
    assert!(is_live(Some(here), 3, 77));
    assert!(!is_live(Some(here), 3, 78));
    assert!(!is_live(Some(here), 4, 77));
    assert!(!is_live(None, 3, 77));

    assert!(matches!(liveness(Ok(Some(here)), 3, 77), Ok(true)));
    assert!(matches!(liveness(Ok(Some(here)), 2, 77), Ok(false)));
    assert!(matches!(liveness(Ok(None), 3, 77), Ok(false)));
    let failed = Err(std::io::Error::from(std::io::ErrorKind::TimedOut));
    match liveness(failed, 3, 77) {
        Err(Error::Io(e)) => assert_eq!(e.kind(), std::io::ErrorKind::TimedOut),
        _ => panic!("expected the error of the index"),
    }
}

#[test]
fn relocate_asks_the_index_first() -> value_log::Result<()> {
    let index = DebugIndex::default();
    let mut index_writer = WorkingIndexWriter(index.clone());
    let mut ids = IdGenerator::new(5);
    let (mut writer, _) = MultiWriter::new(&mut ids, u64::MAX);

    let outcome = relocate(
        &mut writer,
        &mut ids,
        &mut index_writer,
        b"key",
        b"zip",
        CompressionType::Lz4,
        300,
    )?;
    assert_eq!(outcome.segment_id, 5);
    assert_eq!(index.live(), vec![(ValueHandle { segment_id: 5, offset: 5 }, 300)]);
    assert_eq!(writer.offset(b""), 5 + 8 + 3 + 3);

    // a blob that does not fit never reaches the index
    let result = relocate(
        &mut writer,
        &mut ids,
        &mut index_writer,
        b"",
        b"zip",
        CompressionType::Lz4,
        300,
    );
    assert!(matches!(result, Err(Error::Serialize(_))));
    assert_eq!(index.live().len(), 1);

    // where the index fails, nothing is written
    let failed = Err(std::io::Error::from(std::io::ErrorKind::TimedOut));
    let result =
        write_relocated(&mut writer, &mut ids, failed, b"k", b"v", CompressionType::Lz4, 1);
    assert!(matches!(result, Err(Error::Io(_))));
    assert_eq!(writer.offset(b""), 19);
    let result =
        write_relocated(&mut writer, &mut ids, Ok(()), b"k", b"v", CompressionType::Lz4, 1);
    assert!(result.is_ok());
    assert_eq!(writer.offset(b""), 19 + 10);
    Ok(())
}

/// An index that cannot be read.
struct BrokenIndex;

impl IndexReader for BrokenIndex {
    fn get(&self, _key: &[u8]) -> std::io::Result<Option<ValueHandle>> {
        Err(std::io::Error::from(std::io::ErrorKind::PermissionDenied))
    }
}

#[test]
fn liveness_is_asked_of_the_index() -> value_log::Result<()> {
    let index = DebugIndex::default();
    index.insert_indirection(b"a", ValueHandle { segment_id: 3, offset: 77 }, 1)?;
    index.insert_indirection(b"b", ValueHandle { segment_id: 4, offset: 5 }, 1)?;

    assert!(is_live_in(&index, b"a", 3, 77)?);
    assert!(!is_live_in(&index, b"a", 3, 78)?);
    assert!(!is_live_in(&index, b"a", 4, 77)?);
    assert!(!is_live_in(&index, b"b", 3, 77)?);
    assert!(is_live_in(&index, b"b", 4, 5)?);
    assert!(!is_live_in(&index, b"c", 3, 77)?);

    match is_live_in(&BrokenIndex, b"a", 3, 77) {
        Err(Error::Io(e)) => assert_eq!(e.kind(), std::io::ErrorKind::PermissionDenied),
        _ => panic!("expected the error of the index"),
    }
    Ok(())
}
