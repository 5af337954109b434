use mtp_mount::fs::attr::{inode_to_file_attr, statfs, FileKind};
use mtp_mount::fs::datetime::{mtp_datetime_to_system_time, DateTime};
use mtp_mount::fs::state::StorageFacts;
use mtp_mount::fs::upload::file_stream;
use mtp_mount::fs::{
    mount_options, read_strategy, storage_name, temp_upload_name, MountOption, ReadStrategy,
    DEFAULT_FULL_DOWNLOAD_LIMIT, UPLOAD_CHUNK,
};
use mtp_mount::inode::{InodeTable, ObjectHandle, StorageId, FUSE_ROOT_INODE};
use std::io::{Read, Seek, SeekFrom, Write};
use std::ops::Range;
use std::time::{Duration, SystemTime, UNIX_EPOCH};

const LIMIT: u64 = DEFAULT_FULL_DOWNLOAD_LIMIT;

const CHUNK: usize = UPLOAD_CHUNK;

/// A temp file holding `content`, rewound to the start.
fn spool_file(content: &[u8]) -> impl Read + Write + Seek {
    let mut file = tempfile::tempfile().unwrap();
    file.write_all(content).unwrap();
    file.seek(SeekFrom::Start(0)).unwrap();
    file
}

/// Reads a piece of a spool file.
fn read_piece(file: &mut (impl Read + Seek), piece: Range<u64>) -> Vec<u8> {
    let mut buf = vec![0u8; (piece.end - piece.start) as usize];
    file.seek(SeekFrom::Start(piece.start)).unwrap();
    file.read_exact(&mut buf).unwrap();
    buf
}

#[test]
fn file_stream_reads_lazily() {
    let mut file = spool_file(&vec![0xABu8; CHUNK * 4]);
    let mut stream = file_stream(CHUNK as u64 * 4);
    assert_eq!(file.stream_position().unwrap(), 0);
    let first = read_piece(&mut file, stream.next().unwrap());
    assert_eq!(first.len(), CHUNK);
    assert_eq!(
        file.stream_position().unwrap(),
        CHUNK as u64,
        "one poll must read one chunk, not the whole file"
    );
}

#[test]
fn file_stream_yields_the_whole_file_then_ends() {
    // Two full chunks plus a short tail, so the partial-read path is covered.
    let content = vec![0xCDu8; CHUNK * 2 + 17];
    let mut file = spool_file(&content);
    let mut stream = file_stream(content.len() as u64);
    let mut chunks: Vec<Vec<u8>> = Vec::new();
    while let Some(piece) = stream.next() {
        chunks.push(read_piece(&mut file, piece));
    }
    let sizes: Vec<_> = chunks.iter().map(|c| c.len()).collect();
    assert_eq!(sizes, vec![CHUNK, CHUNK, 17]);
    let joined: Vec<u8> = chunks.into_iter().flatten().collect();
    assert_eq!(joined, content);
    assert!(stream.next().is_none());
}

#[test]
fn a_stream_that_failed_is_over() {
    let mut stream = file_stream(CHUNK as u64 * 2);
    assert_eq!(stream.next(), Some(0..CHUNK as u64));
    stream.fail();
    assert!(stream.next().is_none());
    assert!(file_stream(0).next().is_none());
}

#[test]
fn partial_capability_always_keeps_the_ranged_path() {
    assert_eq!(read_strategy(true, 1, LIMIT), ReadStrategy::Ranged);
    assert_eq!(
        read_strategy(true, LIMIT + 1, LIMIT),
        ReadStrategy::Ranged,
        "the whole-object bound must not affect DBI/Android-style responders"
    );
}

#[test]
fn no_partial_capability_uses_a_bounded_sequential_fill() {
    assert_eq!(
        read_strategy(false, LIMIT, LIMIT),
        ReadStrategy::SequentialFull,
        "an object exactly at the limit is still allowed"
    );
    assert_eq!(
        read_strategy(false, LIMIT + 1, LIMIT),
        ReadStrategy::TooLargeForSequentialFull
    );
}

#[test]
fn a_zero_limit_lifts_the_ceiling_entirely() {
    assert_eq!(
        read_strategy(false, u64::MAX, 0),
        ReadStrategy::SequentialFull
    );
    assert_eq!(
        read_strategy(false, u64::MAX, 1),
        ReadStrategy::TooLargeForSequentialFull,
        "0 means no limit; every other value is a real ceiling"
    );
}

fn storage(id: u64, description: &str, total_capacity: u64, free_space: u64) -> StorageFacts {
    StorageFacts {
        id: StorageId(id),
        description: description.to_string(),
        total_capacity,
        free_space,
    }
}

#[test]
fn a_storage_without_a_description_is_called_by_its_number() {
    assert_eq!(storage_name(&storage(65537, "", 0, 0)), "Storage_65537");
    assert_eq!(storage_name(&storage(65537, "SD card", 0, 0)), "SD card");
    assert_eq!(temp_upload_name("a.txt"), ".~tmp~a.txt");
}

#[test]
fn space_is_counted_in_blocks_and_never_wraps() {
    let report = statfs(&vec![storage(1, "", 8192, 4096), storage(2, "", 4097, 4095)]);
    assert_eq!((report.blocks, report.bfree), (3, 1));
    let report = statfs(&vec![storage(1, "", u64::MAX, 0), storage(2, "", 1, 0)]);
    assert_eq!((report.blocks, report.bfree), (u64::MAX / 4096, 0));
    let report = statfs(&Vec::new());
    assert_eq!((report.blocks, report.bfree), (0, 0));
}

fn date(year: u16, month: u8, day: u8, hour: u8, minute: u8, second: u8) -> DateTime {
    DateTime { year, month, day, hour, minute, second }
}

#[test]
fn device_dates_are_read_by_the_calendar() {
    let at = |secs: u64| UNIX_EPOCH + Duration::from_secs(secs);
    assert_eq!(mtp_datetime_to_system_time(&date(1970, 1, 1, 0, 0, 0)), UNIX_EPOCH);
    assert_eq!(mtp_datetime_to_system_time(&date(1970, 1, 2, 1, 2, 3)), at(86400 + 3723));
    assert_eq!(mtp_datetime_to_system_time(&date(2000, 2, 29, 0, 0, 0)), at(951782400));
    assert_eq!(mtp_datetime_to_system_time(&date(2000, 3, 1, 0, 0, 0)), at(951868800));
    assert_eq!(mtp_datetime_to_system_time(&date(2026, 11, 15, 12, 30, 45)), at(1794745845));
    assert_eq!(mtp_datetime_to_system_time(&date(1969, 12, 31, 23, 59, 59)), UNIX_EPOCH);
    assert_eq!(mtp_datetime_to_system_time(&date(0, 1, 1, 0, 0, 0)), UNIX_EPOCH);
}

#[test]
fn attributes_follow_the_kind() {
    let mut table = InodeTable::new();
    let s = table.add_storage(StorageId(1), "Internal".into());
    let when = UNIX_EPOCH + Duration::from_secs(7);
    let f = table.add_object(s, ObjectHandle(1), "a".into(), false, 513, when);

    let dir = inode_to_file_attr(table.get(FUSE_ROOT_INODE).unwrap(), 1000, 100);
    assert_eq!(dir.kind, FileKind::Directory);
    assert_eq!((dir.perm, dir.nlink, dir.size, dir.blocks), (0o755, 2, 0, 0));

    let file = inode_to_file_attr(table.get(f).unwrap(), 1000, 100);
    assert_eq!(file.kind, FileKind::RegularFile);
    assert_eq!((file.perm, file.nlink, file.size, file.blocks), (0o644, 1, 513, 2));
    assert_eq!((file.uid, file.gid, file.blksize), (1000, 100, 4096));
    assert_eq!((file.atime, file.mtime, file.ctime), (when, when, when));
    assert_eq!(file.with_size(512).blocks, 1);
    assert_eq!(file.with_size(u64::MAX).blocks, 1 << 55);
    assert!(table.get(s).unwrap().mtime > SystemTime::UNIX_EPOCH);
}

#[test]
fn a_read_only_mount_says_so() {
    let options = mount_options(true);
    assert!(matches!(&options[0], MountOption::FSName(name) if name == "mtp-mount"));
    assert!(matches!(&options[1], MountOption::Subtype(name) if name == "mtp"));
    assert!(matches!(options[5], MountOption::RO));
    assert!(matches!(mount_options(false)[5], MountOption::RW));
    assert_eq!(options.len(), 6);
}
