use mtp_mount::device_error::DeviceError;
use mtp_mount::fs::attr::FileKind;
use mtp_mount::fs::errno::Errno;
use mtp_mount::fs::events::{keeps_polling, DeviceEvent, EventPoll};
use mtp_mount::fs::operation::Request;
use mtp_mount::fs::ops::{FlushStart, ReadStart};
use mtp_mount::fs::protocol::Reply;
use mtp_mount::fs::read::{finish_ranged, FullRead, FullReadStep, RangedRead};
use mtp_mount::fs::read_run::{ReadAction, ReadEvent, ReadRun};
use mtp_mount::fs::rename::RenameStep;
use mtp_mount::fs::state::{MountState, StorageFacts};
use mtp_mount::fs::ReadStrategy;
use mtp_mount::inode::{ObjectHandle, StorageId, FUSE_ROOT_INODE};
use mtp_mount::sparse_cache::shared::{FillFailure, SharedSparseCache};
use std::time::UNIX_EPOCH;

type State = MountState<u8>;

/// A write whose bytes reach the spool file.
fn write(state: &mut State, ino: u64, fh: u64, offset: u64, data: &[u8]) -> Result<u32, Errno> {
    state.begin_write(ino, fh, offset, data.len())?;
    state.finish_write(fh, offset, data, true)
}

fn mount(read_only: bool) -> (State, u64, u64, u64) {
    let mut state: State = MountState::new(read_only, 100);
    state.init(vec![StorageFacts {
        id: StorageId(1),
        description: "Internal".into(),
        total_capacity: 0,
        free_space: 0,
    }]);
    let s = state.inodes.lookup(FUSE_ROOT_INODE, "Internal").unwrap();
    let dir = state
        .inodes
        .add_object(s, ObjectHandle(10), "DCIM".into(), true, 0, UNIX_EPOCH);
    let file = state
        .inodes
        .add_object(s, ObjectHandle(20), "a.jpg".into(), false, 5, UNIX_EPOCH);
    (state, s, dir, file)
}

#[test]
fn directories_are_listed_until_their_listing_is_current() {
    let (mut state, s, _, _) = mount(false);
    assert!(state.load_dir(FUSE_ROOT_INODE).is_none());
    assert!(matches!(state.load_dir(s), Some(Request::List { dir }) if dir == s));
    state.dir_loaded(s, &Err(DeviceError::Busy));
    assert!(state.load_dir(s).is_some());
    state.dir_loaded(s, &Ok(Reply::Done));
    assert!(state.load_dir(s).is_none());
    let fh = state.opendir(s).unwrap();
    assert_eq!(fh, 1);
    assert!(state.load_dir(s).is_some());
}

#[test]
fn lookups_and_attributes_answer_from_the_table() {
    let (mut state, s, _, file) = mount(false);
    assert_eq!(state.lookup(s, "a.jpg", 1, 2).unwrap().ino, file);
    assert_eq!(state.lookup(s, "b.jpg", 1, 2).unwrap_err(), Errno::ENOENT);
    assert_eq!(state.getattr(file, 1, 2).unwrap().size, 5);
    assert_eq!(state.getattr(99, 1, 2).unwrap_err(), Errno::ENOENT);

    let fh = state.open(file, true, true).unwrap();
    assert_eq!(state.getattr(file, 1, 2).unwrap().size, 5);
    assert_eq!(write(&mut state, file, fh, 0, b"0123456789").unwrap(), 10);
    assert_eq!(state.getattr(file, 1, 2).unwrap().size, 10);
}

#[test]
fn opening_refuses_what_cannot_be_read() {
    let (mut state, s, dir, file) = mount(false);
    assert_eq!(state.open(dir, false, true).unwrap_err(), Errno::EISDIR);
    assert_eq!(state.open(99, false, true).unwrap_err(), Errno::ENOENT);
    assert_eq!(state.opendir(file).unwrap_err(), Errno::ENOTDIR);
    assert_eq!(state.opendir(99).unwrap_err(), Errno::ENOENT);
    let big = state
        .inodes
        .add_object(s, ObjectHandle(3), "big".into(), false, 101, UNIX_EPOCH);
    assert_eq!(state.open(big, false, false).unwrap_err(), Errno::EFBIG);
    assert!(state.open(big, true, false).is_ok());
    assert!(state.open(big, false, true).is_ok());
}

#[test]
fn reads_start_from_the_buffer_the_table_or_the_device() {
    let (mut state, _, dir, file) = mount(false);
    assert!(matches!(state.begin_read(99, 1, 0, 1, true), ReadStart::Fail(Errno::ENOENT)));
    assert!(matches!(state.begin_read(dir, 1, 0, 1, true), ReadStart::Fail(Errno::EISDIR)));
    assert!(matches!(state.begin_read(file, 1, 5, 1, true), ReadStart::Empty));
    assert!(matches!(state.begin_read(file, 1, 0, 0, true), ReadStart::Empty));
    assert!(matches!(
        state.begin_read(file, 1, 4, 9, false),
        ReadStart::Fetch { object_size: 5, run: _ }
    ));
    write(&mut state, file, 1, 0, b"xyz").unwrap();
    assert!(matches!(state.begin_read(file, 1, 1, 9, true), ReadStart::Spooled(w) if w == (1..3)));
    assert!(matches!(state.begin_read(file, 1, 0, 2, true), ReadStart::Spooled(w) if w == (0..2)));
    assert!(matches!(state.begin_read(file, 1, u64::MAX, 9, true), ReadStart::Spooled(w) if w.is_empty()));
}

#[test]
fn a_read_only_mount_refuses_every_change() {
    let (mut state, s, _, file) = mount(true);
    assert_eq!(write(&mut state, file, 1, 0, b"x").unwrap_err(), Errno::EROFS);
    assert_eq!(state.begin_create(s, Some("n")).unwrap_err(), Errno::EROFS);
    assert_eq!(state.begin_mkdir(s, Some("n")).unwrap_err(), Errno::EROFS);
    assert_eq!(state.begin_unlink(s, Some("a.jpg")).unwrap_err(), Errno::EROFS);
    assert_eq!(state.begin_rmdir(s, Some("DCIM")).unwrap_err(), Errno::EROFS);
    assert_eq!(
        state.begin_rename(s, Some("a.jpg"), s, Some("b")).unwrap_err(),
        Errno::EROFS
    );
    assert_eq!(state.setattr(file, Some(1), None, 0, 0).attr.unwrap_err(), Errno::EROFS);
    assert_eq!(state.setattr(file, None, None, 0, 0).attr.unwrap().size, 5);
}

#[test]
fn a_new_file_is_open_for_writing() {
    let (mut state, s, _, file) = mount(false);
    assert_eq!(state.begin_create(s, None).unwrap_err(), Errno::EINVAL);
    assert_eq!(state.begin_create(file, Some("n")).unwrap_err(), Errno::ENOTDIR);
    assert!(matches!(
        state.begin_create(s, Some("n")),
        Ok(Request::CreateFile { parent, name }) if parent == s && name == "n"
    ));
    let failed = Err(DeviceError::StorageFull);
    assert_eq!(
        state.finish_create(s, "n", &failed, UNIX_EPOCH, 0, 0).unwrap_err(),
        Errno::EIO
    );
    let created = Ok(Reply::Created(ObjectHandle(30)));
    let (attr, fh) = state.finish_create(s, "n", &created, UNIX_EPOCH, 0, 0).unwrap();
    assert_eq!(state.inodes.lookup(s, "n"), Some(attr.ino));
    assert_eq!((attr.size, attr.kind), (0, FileKind::RegularFile));
    assert!(state.write_buf.is_open(fh));
    assert_eq!(state.fh_to_inode.get(&fh), Some(&attr.ino));
}

#[test]
fn a_new_folder_is_a_directory() {
    let (mut state, s, _, _) = mount(false);
    assert!(matches!(
        state.begin_mkdir(s, Some("d")),
        Ok(Request::CreateFolder { parent, name }) if parent == s && name == "d"
    ));
    let created = Ok(Reply::Created(ObjectHandle(30)));
    let attr = state.finish_mkdir(s, "d", &created, UNIX_EPOCH, 0, 0).unwrap();
    assert_eq!(attr.kind, FileKind::Directory);
    assert_eq!(
        state.finish_mkdir(s, "e", &Err(DeviceError::Busy), UNIX_EPOCH, 0, 0).unwrap_err(),
        Errno::EIO
    );
    assert_eq!(state.inodes.lookup(s, "e"), None);
}

#[test]
fn deletions_tell_files_from_folders() {
    let (mut state, s, dir, file) = mount(false);
    assert_eq!(state.begin_unlink(s, None).unwrap_err(), Errno::ENOENT);
    assert_eq!(state.begin_unlink(s, Some("no")).unwrap_err(), Errno::ENOENT);
    assert_eq!(state.begin_unlink(s, Some("DCIM")).unwrap_err(), Errno::EISDIR);
    let (target, request) = state.begin_unlink(s, Some("a.jpg")).unwrap();
    assert_eq!(target, file);
    assert!(matches!(request, Request::DeleteFile { inode } if inode == file));
    assert_eq!(state.begin_rmdir(s, Some("a.jpg")).unwrap_err(), Errno::ENOTDIR);
    assert_eq!(
        state.begin_rmdir(FUSE_ROOT_INODE, Some("Internal")).unwrap_err(),
        Errno::ENOTDIR
    );
    let (target, request) = state.begin_rmdir(s, Some("DCIM")).unwrap();
    assert_eq!(target, dir);
    assert!(matches!(request, Request::DeleteObject { inode } if inode == dir));
    assert_eq!(
        state.finish_removal(file, &Err(DeviceError::Timeout)).unwrap_err(),
        Errno::EIO
    );
    assert!(state.inodes.get(file).is_some());
    assert!(state.finish_removal(file, &Ok(Reply::Done)).is_ok());
    assert!(state.inodes.get(file).is_none());
}

#[test]
fn a_rename_into_another_directory_takes_two_steps() {
    let (mut state, s, dir, file) = mount(false);
    assert_eq!(state.begin_rename(s, None, s, Some("b")).unwrap_err(), Errno::ENOENT);
    assert_eq!(state.begin_rename(s, Some("a.jpg"), s, None).unwrap_err(), Errno::EINVAL);
    assert_eq!(state.begin_rename(s, Some("no"), s, Some("b")).unwrap_err(), Errno::ENOENT);
    assert_eq!(
        state.begin_rename(FUSE_ROOT_INODE, Some("Internal"), s, Some("b")).unwrap_err(),
        Errno::EINVAL
    );
    assert_eq!(
        state.begin_rename(s, Some("DCIM"), file, Some("b")).unwrap_err(),
        Errno::ENOTDIR
    );

    let mut run = state.begin_rename(s, Some("a.jpg"), dir, Some("b.jpg")).unwrap();
    let ok = Ok(Reply::Done);
    assert!(matches!(
        state.rename_step(&mut run, &ok),
        RenameStep::Run(Request::Rename { inode, name }) if inode == file && name == "b.jpg"
    ));
    assert!(matches!(
        state.rename_step(&mut run, &ok),
        RenameStep::Run(Request::Move { inode, new_parent }) if inode == file && new_parent == dir
    ));
    assert_eq!(state.inodes.lookup(s, "a.jpg"), Some(file));
    assert!(matches!(state.rename_step(&mut run, &ok), RenameStep::Done(Ok(()))));
    assert_eq!(state.inodes.lookup(s, "a.jpg"), None);
    assert_eq!(state.inodes.lookup(dir, "b.jpg"), Some(file));

    let mut run = state.begin_rename(dir, Some("b.jpg"), dir, Some("c.jpg")).unwrap();
    let failed = Err(DeviceError::Unsupported);
    assert!(matches!(
        state.rename_step(&mut run, &failed),
        RenameStep::Done(Err(Errno::EIO))
    ));
    assert_eq!(state.inodes.lookup(dir, "b.jpg"), Some(file));
}

#[test]
fn a_truncation_starts_an_empty_buffer() {
    let (mut state, _, _, file) = mount(false);
    write(&mut state, file, 7, 0, b"abc").unwrap();
    let answer = state.setattr(file, Some(0), Some(7), 0, 0);
    assert_eq!(answer.emptied, Some(7));
    assert_eq!(answer.attr.unwrap().size, 0);
    assert_eq!(state.write_buf.size(7), Some(0));
    assert_eq!(state.setattr(file, Some(900), Some(8), 0, 0).attr.unwrap().blocks, 2);
    assert!(state.write_buf.is_open(8));
    assert_eq!(state.setattr(file, Some(900), Some(8), 0, 0).emptied, None);
    assert_eq!(state.setattr(99, Some(1), None, 0, 0).attr.unwrap_err(), Errno::ENOENT);
}

#[test]
fn closing_flushes_what_was_written() {
    let (mut state, s, _, file) = mount(false);
    let fh = state.open(file, false, true).unwrap();
    assert!(matches!(state.begin_release(fh), FlushStart::Clean));
    write(&mut state, file, fh, 0, b"new").unwrap();
    match state.begin_release(fh) {
        FlushStart::Flush { request } => {
            assert!(matches!(
                request,
                Request::Flush { inode, parent, name, size: 3 }
                    if inode == file && parent == s && name == "a.jpg"
            ));
        }
        other => panic!("{other:?}"),
    }
    assert!(!state.write_buf.is_open(fh));
    write(&mut state, 99, 50, 0, b"x").unwrap();
    assert!(matches!(state.begin_release(50), FlushStart::Lost));
}

#[test]
fn a_read_cache_goes_with_the_last_close_unless_it_is_filling() {
    let (mut state, _, _, file) = mount(false);
    let one = state.open(file, false, true).unwrap();
    let two = state.open(file, false, true).unwrap();
    state.read_cache.insert(file, 1);
    state.finish_release(one, false, &Ok(Reply::Done)).unwrap();
    assert!(state.read_cache.contains_key(&file), "another handle holds the file open");
    let lost = Err(DeviceError::Disconnected);
    assert_eq!(state.finish_release(two, true, &lost).unwrap_err(), Errno::EIO);
    assert!(state.read_cache.contains_key(&file), "a fill is running");
    state.drop_read_cache_if_unused(file, false);
    assert!(!state.read_cache.contains_key(&file));
    state.finish_release(99, false, &Ok(Reply::Done)).unwrap();
}

#[test]
fn a_directory_reads_itself_its_parent_and_its_children() {
    let (state, s, dir, file) = mount(false);
    let lines = state.readdir(s, 0);
    let short: Vec<(u64, u64, &str)> =
        lines.iter().map(|l| (l.offset, l.ino, l.name.as_str())).collect();
    assert_eq!(
        short,
        vec![
            (1, s, "."),
            (2, FUSE_ROOT_INODE, ".."),
            (3, dir, "DCIM"),
            (4, file, "a.jpg")
        ]
    );
    assert_eq!(lines[2].kind, FileKind::Directory);
    assert_eq!(lines[3].kind, FileKind::RegularFile);
    assert_eq!(state.readdir(s, 3).len(), 1);
    assert_eq!(state.readdir(s, 9).len(), 0);
    assert_eq!(state.readdir(99, 1)[0].ino, FUSE_ROOT_INODE);
}

#[test]
fn events_outdate_what_they_are_about() {
    let (mut state, s, dir, file) = mount(false);
    let ok = Ok(Reply::Done);
    let current = |state: &mut State| {
        state.dir_loaded(s, &ok);
        state.dir_loaded(dir, &ok);
    };
    current(&mut state);
    state.handle_event(&DeviceEvent::ObjectRemoved { handle: ObjectHandle(20) });
    assert!(!state.dirs_loaded.contains(&s) && state.dirs_loaded.contains(&dir));
    current(&mut state);
    state.handle_event(&DeviceEvent::ObjectAdded { handle: ObjectHandle(99) });
    assert!(!state.dirs_loaded.contains(&s) && !state.dirs_loaded.contains(&dir));
    assert!(state.dirs_loaded.contains(&FUSE_ROOT_INODE));
    current(&mut state);
    state.read_cache.insert(file, 1);
    state.read_cache.insert(dir, 2);
    state.handle_event(&DeviceEvent::ObjectInfoChanged { handle: ObjectHandle(20) });
    assert!(!state.dirs_loaded.contains(&s) && state.dirs_loaded.contains(&dir));
    assert!(!state.read_cache.contains_key(&file) && state.read_cache.contains_key(&dir));
    state.handle_event(&DeviceEvent::Other);
    assert!(state.dirs_loaded.contains(&dir));
    state.handle_event(&DeviceEvent::StoreRemoved);
    assert!(!state.dirs_loaded.contains(&dir));
}

#[test]
fn the_event_loop_ends_with_its_session() {
    assert!(keeps_polling(&EventPoll::Elapsed, 3, 3));
    assert!(keeps_polling(&EventPoll::Event(DeviceEvent::Other), 3, 3));
    assert!(keeps_polling(&EventPoll::Failed(DeviceError::Timeout), 3, 3));
    assert!(!keeps_polling(&EventPoll::Failed(DeviceError::Disconnected), 3, 3));
    assert!(!keeps_polling(&EventPoll::Failed(DeviceError::Busy), 3, 3));
    assert!(!keeps_polling(&EventPoll::Elapsed, 3, 4));
}

fn asked(request: Option<Request>) -> Option<(u64, u32)> {
    match request {
        Some(Request::ReadRange { inode: 5, offset, len }) => Some((offset, len)),
        Some(other) => panic!("{other:?}"),
        None => None,
    }
}

#[test]
fn a_ranged_read_asks_for_the_gaps_in_chunks() {
    let mib: u64 = 1024 * 1024;
    let mut cache = SharedSparseCache::new(3 * mib);
    cache.write_at(mib + 5, &[7; 5]).unwrap();
    let mut read = RangedRead::new(&cache, 10, 2 * mib, 3 * mib);
    assert_eq!(asked(read.next(5)), Some((10, mib as u32 - 5)));
    assert_eq!(read.due(mib as usize - 5), (10, mib as usize - 5));
    read.receive(&mut cache, &vec![1; mib as usize - 5]).unwrap();
    assert_eq!(asked(read.next(5)), Some((mib + 10, mib as u32)));
    assert_eq!(finish_ranged(&cache, 10, 2 * mib).unwrap_err(), Errno::EIO);
    read.receive(&mut cache, &vec![1; mib as usize]).unwrap();
    assert_eq!(asked(read.next(5)), None);
    assert_eq!(finish_ranged(&cache, 10, 2 * mib).unwrap(), 10..10 + 2 * mib);
}

#[test]
fn short_and_overlong_answers_are_taken_for_what_they_are() {
    let mut cache = SharedSparseCache::new(10);
    let mut read = RangedRead::new(&cache, 0, 10, 10);
    assert_eq!(asked(read.next(5)), Some((0, 10)));
    read.receive(&mut cache, b"abc").unwrap();
    assert_eq!(asked(read.next(5)), Some((3, 7)));
    assert_eq!(read.due(20), (3, 7));
    read.receive(&mut cache, b"defghijKLMNOP").unwrap();
    assert_eq!(asked(read.next(5)), None);
    assert_eq!(finish_ranged(&cache, 0, 99).unwrap(), 0..10);

    let mut cache = SharedSparseCache::new(10);
    let mut read = RangedRead::new(&cache, 0, 10, 10);
    read.next(5);
    read.receive(&mut cache, b"").unwrap();
    assert_eq!(asked(read.next(5)), None, "nothing more is coming");
    assert_eq!(finish_ranged(&cache, 0, 10).unwrap_err(), Errno::EIO);
}

#[test]
fn a_lost_link_is_worth_one_new_download() {
    let mut read = FullRead::new();
    let lost = FillFailure::new("device left", true);
    let odd = FillFailure::new("protocol error", false);
    assert_eq!(read.failed(&odd), FullReadStep::Fail);
    assert_eq!(read.failed(&lost), FullReadStep::Recover);
    let mut cache = SharedSparseCache::new(4);
    assert!(cache.start_fill());
    cache.fail(lost.clone());
    assert!(!read.recovered(false, &mut cache));
    assert!(read.recovered(true, &mut cache));
    assert!(cache.start_fill());
    assert_eq!(read.failed(&lost), FullReadStep::Fail);
}

fn replied(bytes: &[u8]) -> ReadEvent {
    ReadEvent::Replied { result: Ok(Reply::Bytes(bytes.to_vec())), stored: true }
}

fn is_eio(action: ReadAction) -> bool {
    matches!(action, ReadAction::Fail(Errno::EIO))
}

#[test]
fn an_object_that_is_too_large_is_refused() {
    let mut cache = SharedSparseCache::new(9);
    let mut run = ReadRun::new(5, 0, 9, 9, ReadStrategy::TooLargeForSequentialFull);
    assert!(matches!(
        run.step(&mut cache, ReadEvent::Begin),
        ReadAction::Fail(Errno::EFBIG)
    ));
}

#[test]
fn a_ranged_read_runs_from_the_first_gap_to_the_answer() {
    let mut cache = SharedSparseCache::new(10);
    cache.write_at(2, b"cd").unwrap();
    let mut run = ReadRun::new(5, 0, 6, 10, ReadStrategy::Ranged);
    assert_eq!(run.due(&cache, 2), None);
    assert!(matches!(
        run.step(&mut cache, ReadEvent::Begin),
        ReadAction::Ask(Request::ReadRange { inode: 5, offset: 0, len: 2 })
    ));
    assert_eq!(run.due(&cache, 2), Some((0, 2)));
    assert!(matches!(
        run.step(&mut cache, replied(b"ab")),
        ReadAction::Ask(Request::ReadRange { inode: 5, offset: 4, len: 2 })
    ));
    assert!(matches!(
        run.step(&mut cache, replied(b"ef")),
        ReadAction::Window(window) if window == (0..6)
    ));
    // What is there is read without asking.
    let mut run = ReadRun::new(5, 1, 4, 10, ReadStrategy::Ranged);
    assert!(matches!(
        run.step(&mut cache, ReadEvent::Begin),
        ReadAction::Window(window) if window == (1..5)
    ));
    assert!(is_eio(run.step(&mut cache, ReadEvent::Begin)), "it was answered");
}

#[test]
fn a_ranged_read_that_cannot_be_stored_or_ends_early_fails() {
    let mut cache = SharedSparseCache::new(10);
    let mut run = ReadRun::new(5, 0, 6, 10, ReadStrategy::Ranged);
    run.step(&mut cache, ReadEvent::Begin);
    let result = Ok(Reply::Bytes(b"abcdef".to_vec()));
    assert!(is_eio(run.step(&mut cache, ReadEvent::Replied { result, stored: false })));
    assert_eq!(cache.missing_ranges(0, 6), vec![0..6]);

    let mut run = ReadRun::new(5, 0, 6, 10, ReadStrategy::Ranged);
    run.step(&mut cache, ReadEvent::Begin);
    assert!(is_eio(run.step(&mut cache, replied(b""))), "a hole is no data");

    let mut run = ReadRun::new(5, 0, 6, 10, ReadStrategy::Ranged);
    run.step(&mut cache, ReadEvent::Begin);
    let result = Err(DeviceError::Timeout);
    assert!(is_eio(run.step(&mut cache, ReadEvent::Replied { result, stored: true })));
}

#[test]
fn a_full_read_survives_one_lost_link() {
    let lost = FillFailure::new("device left", true);
    let mut cache = SharedSparseCache::new(4);
    let mut run = ReadRun::new(5, 0, 4, 4, ReadStrategy::SequentialFull);
    assert!(matches!(run.step(&mut cache, ReadEvent::Begin), ReadAction::Wait));
    assert!(cache.start_fill());
    cache.fail(lost.clone());
    assert!(matches!(
        run.step(&mut cache, ReadEvent::Served(Err(lost.clone()))),
        ReadAction::Ask(Request::Probe { inode: 5 })
    ));
    let result = Ok(Reply::Done);
    assert!(matches!(
        run.step(&mut cache, ReadEvent::Replied { result, stored: true }),
        ReadAction::Wait
    ));
    assert!(cache.start_fill(), "the download may start over");
    cache.fail(lost.clone());
    assert!(is_eio(run.step(&mut cache, ReadEvent::Served(Err(lost)))));

    let mut run = ReadRun::new(5, 0, 4, 4, ReadStrategy::SequentialFull);
    run.step(&mut cache, ReadEvent::Begin);
    assert!(matches!(
        run.step(&mut cache, ReadEvent::Served(Ok(b"data".to_vec()))),
        ReadAction::Data(data) if data == b"data"
    ));
}

#[test]
fn a_write_that_cannot_be_spooled_is_refused() {
    let (mut state, _, _, file) = mount(false);
    let last = i64::MAX as u64;
    assert_eq!(state.begin_write(file, 1, last, 1).unwrap_err(), Errno::EIO);
    assert!(state.write_buf.is_open(1));
    state.begin_write(file, 1, last - 1, 1).unwrap();
    assert_eq!(state.finish_write(1, 0, b"x", false).unwrap_err(), Errno::EIO);
    assert_eq!(state.finish_write(1, last, b"x", true).unwrap_err(), Errno::EIO);
    assert_eq!(state.finish_write(2, 0, b"x", true).unwrap_err(), Errno::EIO, "no spool");
    assert_eq!(state.write_buf.size(1), Some(0));
    assert!(matches!(state.begin_release(1), FlushStart::Clean));
}

#[test]
fn a_rename_in_place_asks_nothing() {
    let (mut state, s, _, file) = mount(false);
    let mut run = state.begin_rename(s, Some("a.jpg"), s, Some("a.jpg")).unwrap();
    assert!(matches!(
        state.rename_step(&mut run, &Ok(Reply::Done)),
        RenameStep::Done(Ok(()))
    ));
    assert_eq!(state.inodes.lookup(s, "a.jpg"), Some(file));
}

#[test]
fn what_is_written_is_read_back_through_its_handle_alone() {
    let (mut state, _, _, file) = mount(false);
    let one = state.open(file, false, true).unwrap();
    let two = state.open(file, false, true).unwrap();
    write(&mut state, file, one, 3, b"abc").unwrap();
    assert!(matches!(state.begin_read(file, one, 3, 3, true), ReadStart::Spooled(w) if w == (3..6)));
    assert!(matches!(state.begin_read(file, one, 0, 9, true), ReadStart::Spooled(w) if w == (0..6)));
    write(&mut state, file, one, 1, b"xy").unwrap();
    assert_eq!(state.write_buf.size(one), Some(6));
    assert!(matches!(
        state.begin_read(file, two, 3, 3, true),
        ReadStart::Fetch { object_size: 5, run: _ }
    ));
}
