use mtp_mount::device_error::DeviceError;
use mtp_mount::fs::operation::model::Link;
use mtp_mount::fs::operation::{Action, Event, Operation, Request};
use mtp_mount::fs::protocol::{DeviceCall, ObjectFacts, Reply};
use mtp_mount::fs::recovery::{Recovery, Verdict};
use mtp_mount::fs::state::{MountState, StorageFacts};
use mtp_mount::fs::walk::find_storage_index;
use mtp_mount::inode::{InodeKind, ObjectHandle, StorageId, FUSE_ROOT_INODE};
use std::time::{SystemTime, UNIX_EPOCH};

type State = MountState<u8>;

fn link() -> Link {
    Link {
        unplugged: false,
        supports_rename: true,
        now: UNIX_EPOCH,
    }
}

fn storage(id: u64, description: &str) -> StorageFacts {
    StorageFacts {
        id: StorageId(id),
        description: description.into(),
        total_capacity: 0,
        free_space: 0,
    }
}

fn object(handle: u64, name: &str, is_folder: bool) -> ObjectFacts {
    ObjectFacts {
        handle: ObjectHandle(handle),
        filename: name.into(),
        is_folder,
        size: handle,
        modified: None,
    }
}

/// A mount of one storage with the folder `DCIM` and the file `DCIM/a.jpg` in it.
fn mount() -> (State, u64, u64, u64) {
    let mut state: State = MountState::new(false, 0);
    state.init(vec![storage(1, "Internal")]);
    let s = state.inodes.lookup(FUSE_ROOT_INODE, "Internal").unwrap();
    let dir = state
        .inodes
        .add_object(s, ObjectHandle(10), "DCIM".into(), true, 0, UNIX_EPOCH);
    let file = state
        .inodes
        .add_object(dir, ObjectHandle(20), "a.jpg".into(), false, 5, UNIX_EPOCH);
    (state, s, dir, file)
}

fn begin(state: &mut State, request: Request) -> (Operation, Action) {
    let mut op = Operation::new(request);
    let action = op.step(state, &link(), Event::Begin);
    (op, action)
}

fn listing(op: &mut Operation, state: &mut State, objects: Vec<ObjectFacts>) -> Action {
    op.step(state, &link(), Event::Replied(Ok(Reply::Listing(objects))))
}

fn failed(op: &mut Operation, state: &mut State, error: DeviceError) -> Action {
    op.step(state, &link(), Event::Replied(Err(error)))
}

fn is_delete(action: &Action, handle: u64) -> bool {
    matches!(action, Action::Call(DeviceCall::Delete { storage: 0, handle: h })
        if *h == ObjectHandle(handle))
}

#[test]
fn a_fresh_file_is_deleted_by_its_handle() {
    let (mut state, _, _, file) = mount();
    let (mut op, action) = begin(&mut state, Request::DeleteFile { inode: file });
    assert!(is_delete(&action, 20), "{action:?}");
    let done = op.step(&mut state, &link(), Event::Replied(Ok(Reply::Done)));
    assert!(matches!(done, Action::Return(Ok(Reply::Done))));
}

#[test]
fn a_folder_is_not_deleted_as_a_file() {
    let (mut state, _, dir, _) = mount();
    let (_, action) = begin(&mut state, Request::DeleteFile { inode: dir });
    assert!(matches!(action, Action::Return(Err(DeviceError::NotFound))));
    let (_, action) = begin(&mut state, Request::DeleteObject { inode: dir });
    assert!(is_delete(&action, 10));
    let (_, action) = begin(&mut state, Request::DeleteObject { inode: 999 });
    assert!(matches!(action, Action::Return(Err(DeviceError::NotFound))));
}

#[test]
fn a_stale_handle_is_resolved_from_the_storage_down() {
    let (mut state, _, dir, file) = mount();
    state.invalidate_handles();
    let (mut op, action) = begin(&mut state, Request::DeleteFile { inode: file });
    assert!(matches!(
        action,
        Action::Call(DeviceCall::ListObjects { storage: 0, parent: None })
    ));
    let action = listing(&mut op, &mut state, vec![object(3, "x", false), object(11, "DCIM", true)]);
    assert!(matches!(
        action,
        Action::Call(DeviceCall::ListObjects { storage: 0, parent: Some(ObjectHandle(11)) })
    ));
    let action = listing(&mut op, &mut state, vec![object(21, "a.jpg", false)]);
    assert!(is_delete(&action, 21), "{action:?}");
    assert!(state.inodes.is_fresh(dir) && state.inodes.is_fresh(file));
}

#[test]
fn a_name_that_is_gone_is_not_found() {
    let (mut state, _, _, file) = mount();
    state.invalidate_handles();
    let (mut op, _) = begin(&mut state, Request::DeleteFile { inode: file });
    let action = listing(&mut op, &mut state, vec![object(3, "x", false)]);
    assert!(matches!(action, Action::Return(Err(DeviceError::NotFound))));
}

#[test]
fn a_stale_handle_is_retried_once_in_the_session() {
    let (mut state, _, _, file) = mount();
    let (mut op, _) = begin(&mut state, Request::DeleteFile { inode: file });
    let action = failed(&mut op, &mut state, DeviceError::StaleHandle);
    assert!(matches!(action, Action::Call(DeviceCall::ListObjects { .. })), "{action:?}");
    listing(&mut op, &mut state, vec![object(11, "DCIM", true)]);
    let action = listing(&mut op, &mut state, vec![object(21, "a.jpg", false)]);
    assert!(is_delete(&action, 21));
    let action = failed(&mut op, &mut state, DeviceError::StaleHandle);
    assert!(matches!(action, Action::Return(Err(DeviceError::StaleHandle))));
}

#[test]
fn a_plain_failure_is_reported_at_once() {
    let (mut state, _, _, file) = mount();
    let (mut op, _) = begin(&mut state, Request::DeleteFile { inode: file });
    let action = failed(&mut op, &mut state, DeviceError::AccessDenied);
    assert!(matches!(action, Action::Return(Err(DeviceError::AccessDenied))));
}

#[test]
fn a_device_that_keeps_dropping_is_given_up_after_three_sessions() {
    let (mut state, _, _, file) = mount();
    let (mut op, mut action) = begin(&mut state, Request::DeleteFile { inode: file });
    let mut reconnects = 0;
    loop {
        action = match action {
            Action::Call(_) => failed(&mut op, &mut state, DeviceError::Disconnected),
            Action::Reconnect => {
                reconnects += 1;
                op.step(&mut state, &link(), Event::Reconnected(Ok(())))
            }
            Action::Return(result) => {
                assert!(matches!(result, Err(DeviceError::Disconnected)));
                break;
            }
        };
    }
    assert_eq!(reconnects, 3);
}

#[test]
fn a_failed_reconnect_is_the_answer() {
    let (mut state, _, _, file) = mount();
    let mut op = Operation::new(Request::Probe { inode: file });
    let out = Link { unplugged: true, ..link() };
    assert!(matches!(op.step(&mut state, &out, Event::Begin), Action::Reconnect));
    let action = op.step(
        &mut state,
        &out,
        Event::Reconnected(Err(DeviceError::Disconnected)),
    );
    assert!(matches!(action, Action::Return(Err(DeviceError::Disconnected))));
}

#[test]
fn a_listing_goes_into_the_table() {
    let (mut state, s, dir, _) = mount();
    let (mut op, action) = begin(&mut state, Request::List { dir: s });
    assert!(matches!(
        action,
        Action::Call(DeviceCall::ListObjects { storage: 0, parent: None })
    ));
    let action = listing(
        &mut op,
        &mut state,
        vec![object(12, "DCIM", true), object(30, "b.txt", false)],
    );
    assert!(matches!(action, Action::Return(Ok(Reply::Done))));
    assert_eq!(state.inodes.lookup(s, "DCIM"), Some(dir));
    let b = state.inodes.lookup(s, "b.txt").unwrap();
    assert_eq!(state.inodes.get(b).unwrap().size, 30);
    assert_eq!(state.inodes.get(b).unwrap().mtime, UNIX_EPOCH);
    assert_eq!(
        state.inodes.get(dir).unwrap().kind,
        InodeKind::Directory { handle: ObjectHandle(12) }
    );
}

#[test]
fn every_request_makes_its_own_call() {
    let (mut state, s, dir, file) = mount();
    let (_, action) = begin(&mut state, Request::CreateFile { parent: s, name: "n".into() });
    assert!(matches!(action, Action::Call(DeviceCall::Upload { storage: 0, parent: None, name, size: 0 })
        if name == "n"));
    let (_, action) = begin(&mut state, Request::CreateFolder { parent: dir, name: "d".into() });
    assert!(matches!(action, Action::Call(DeviceCall::CreateFolder { storage: 0, parent: Some(ObjectHandle(10)), name })
        if name == "d"));
    let (_, action) = begin(&mut state, Request::Rename { inode: file, name: "b".into() });
    assert!(matches!(action, Action::Call(DeviceCall::Rename { storage: 0, handle: ObjectHandle(20), name })
        if name == "b"));
    let (_, action) = begin(&mut state, Request::Move { inode: file, new_parent: s });
    assert!(matches!(
        action,
        Action::Call(DeviceCall::MoveObject {
            storage: 0,
            handle: ObjectHandle(20),
            new_parent: ObjectHandle(0)
        })
    ));
    let (_, action) = begin(&mut state, Request::ReadRange { inode: file, offset: 2, len: 3 });
    assert!(matches!(
        action,
        Action::Call(DeviceCall::ReadRange { storage: 0, handle: ObjectHandle(20), offset: 2, len: 3 })
    ));
    let (_, action) = begin(&mut state, Request::Download { inode: file });
    assert!(matches!(action, Action::Call(DeviceCall::Download { handle: ObjectHandle(20), .. })));
    let (_, action) = begin(&mut state, Request::Probe { inode: file });
    assert!(matches!(action, Action::Call(DeviceCall::GetObjectInfo { handle: ObjectHandle(20), .. })));
}

fn flush(file: u64, dir: u64) -> Request {
    Request::Flush {
        inode: file,
        parent: dir,
        name: "a.jpg".into(),
        size: 9,
    }
}

fn is_upload(action: &Action, wanted: &str) -> bool {
    matches!(action, Action::Call(DeviceCall::Upload { storage: 0, parent: Some(ObjectHandle(10)), name, size: 9 })
        if name == wanted)
}

fn created(op: &mut Operation, state: &mut State, handle: u64) -> Action {
    let reply = Reply::Created(ObjectHandle(handle));
    op.step(state, &link(), Event::Replied(Ok(reply)))
}

fn done(op: &mut Operation, state: &mut State) -> Action {
    op.step(state, &link(), Event::Replied(Ok(Reply::Done)))
}

#[test]
fn a_flush_uploads_then_deletes_then_renames() {
    let (mut state, _, dir, file) = mount();
    let (mut op, action) = begin(&mut state, flush(file, dir));
    assert!(is_upload(&action, ".~tmp~a.jpg"), "{action:?}");
    let action = created(&mut op, &mut state, 77);
    assert!(is_delete(&action, 20));
    let action = done(&mut op, &mut state);
    assert!(matches!(action, Action::Call(DeviceCall::Rename { handle: ObjectHandle(77), name, .. })
        if name == "a.jpg"));
    let action = done(&mut op, &mut state);
    assert!(matches!(action, Action::Return(Ok(Reply::Done))));
    let entry = state.inodes.get(file).unwrap();
    assert_eq!(entry.kind, InodeKind::File { handle: ObjectHandle(77) });
    assert_eq!((entry.size, entry.name.as_str()), (9, "a.jpg"));
}

#[test]
fn a_flush_that_cannot_delete_or_rename_keeps_the_temporary_name() {
    for step in 0..2 {
        let (mut state, _, dir, file) = mount();
        let (mut op, _) = begin(&mut state, flush(file, dir));
        created(&mut op, &mut state, 77);
        if step == 1 {
            done(&mut op, &mut state);
        }
        let action = failed(&mut op, &mut state, DeviceError::Disconnected);
        assert!(matches!(action, Action::Return(Ok(Reply::Done))));
        let entry = state.inodes.get(file).unwrap();
        assert_eq!(entry.kind, InodeKind::File { handle: ObjectHandle(77) });
        assert_eq!(entry.name, ".~tmp~a.jpg");
    }
}

#[test]
fn a_retried_flush_clears_out_what_the_first_attempt_left() {
    let (mut state, _, dir, file) = mount();
    let (mut op, _) = begin(&mut state, flush(file, dir));
    let action = failed(&mut op, &mut state, DeviceError::DeviceReset);
    assert!(matches!(action, Action::Reconnect));
    let action = op.step(&mut state, &link(), Event::Reconnected(Ok(())));
    assert!(matches!(
        action,
        Action::Call(DeviceCall::ListObjects { storage: 0, parent: Some(ObjectHandle(10)) })
    ));
    let leftovers = vec![
        object(50, ".~tmp~a.jpg", false),
        object(20, "a.jpg", false),
        object(51, ".~tmp~a.jpg", false),
    ];
    let action = listing(&mut op, &mut state, leftovers);
    assert!(is_delete(&action, 50));
    let action = failed(&mut op, &mut state, DeviceError::NotFound);
    assert!(is_delete(&action, 51), "one that cannot be removed does not stop the rest");
    let action = done(&mut op, &mut state);
    assert!(is_upload(&action, ".~tmp~a.jpg"));
}

#[test]
fn a_device_that_cannot_rename_deletes_first() {
    let (mut state, _, dir, file) = mount();
    let plain = Link { supports_rename: false, ..link() };
    let mut op = Operation::new(flush(file, dir));
    let action = op.step(&mut state, &plain, Event::Begin);
    assert!(is_delete(&action, 20));
    let action = op.step(&mut state, &plain, Event::Replied(Ok(Reply::Done)));
    assert!(is_upload(&action, "a.jpg"));
    let reply = Reply::Created(ObjectHandle(77));
    let action = op.step(&mut state, &plain, Event::Replied(Ok(reply)));
    assert!(matches!(action, Action::Return(Ok(Reply::Done))));
    assert_eq!(state.inodes.get(file).unwrap().size, 9);

    let mut op = Operation::new(flush(file, dir));
    op.step(&mut state, &plain, Event::Begin);
    let refused = Event::Replied(Err(DeviceError::AccessDenied));
    let action = op.step(&mut state, &plain, refused);
    assert!(matches!(action, Action::Return(Err(DeviceError::AccessDenied))));
}

#[test]
fn an_answer_to_something_else_is_refused() {
    let (mut state, s, _, _) = mount();
    let (mut op, _) = begin(&mut state, Request::List { dir: s });
    let action = done(&mut op, &mut state);
    assert!(matches!(action, Action::Return(Err(DeviceError::Unrecognized))));
    let action = done(&mut op, &mut state);
    assert!(matches!(action, Action::Return(Err(DeviceError::Unrecognized))));
}

#[test]
fn an_inode_without_a_storage_above_it_is_on_none() {
    let (mut state, s, dir, file) = mount();
    assert_eq!(find_storage_index(&state.inodes, &state.storages, file), Some(0));
    assert_eq!(find_storage_index(&state.inodes, &state.storages, s), Some(0));
    assert_eq!(find_storage_index(&state.inodes, &state.storages, FUSE_ROOT_INODE), None);
    state.inodes.remove(dir);
    assert_eq!(find_storage_index(&state.inodes, &state.storages, file), None);
    // A tree that goes in circles has no storage either.
    let (mut state, _, dir, file) = mount();
    state.inodes.rename(dir, file, "loop".into());
    assert_eq!(find_storage_index(&state.inodes, &state.storages, file), None);
    state.invalidate_handles();
    let (_, action) = begin(&mut state, Request::Probe { inode: file });
    assert!(matches!(action, Action::Return(Err(DeviceError::NotFound))));
}

#[test]
fn budgets_start_with_six_attempts() {
    let mut recovery = Recovery::new();
    assert_eq!(recovery.judge(&DeviceError::StaleHandle), Verdict::Retry);
    assert_eq!(recovery.judge(&DeviceError::StaleHandle), Verdict::Report);
    assert_eq!(recovery.judge(&DeviceError::NoDevice), Verdict::Reconnect);
    assert_eq!(recovery.judge(&DeviceError::Busy), Verdict::Report);
    assert!(recovery.reconnected());
    assert_eq!(recovery.judge(&DeviceError::StaleHandle), Verdict::Retry);
    assert!(recovery.reconnected());
    assert!(!recovery.reconnected());
}

#[test]
fn a_reconnect_keeps_the_tree_and_repoints_the_storages() {
    let (mut state, s, dir, file) = mount();
    state.fh_to_inode.insert(5, file);
    state.adopt(vec![storage(9, "SD"), storage(8, "Internal")]);
    assert_eq!(
        state.inodes.get(s).unwrap().kind,
        InodeKind::Storage { storage_id: StorageId(8) }
    );
    assert_eq!(state.inodes.lookup(dir, "a.jpg"), Some(file));
    assert!(!state.inodes.is_fresh(file));
    assert_eq!(state.fh_to_inode.get(&5), Some(&file));
    // A storage whose name is new is matched by its place.
    state.adopt(vec![storage(7, "")]);
    assert_eq!(
        state.inodes.get(s).unwrap().kind,
        InodeKind::Storage { storage_id: StorageId(7) }
    );
    // And one that is gone keeps what it had.
    state.adopt(Vec::new());
    assert_eq!(
        state.inodes.get(s).unwrap().kind,
        InodeKind::Storage { storage_id: StorageId(7) }
    );
    assert!(state.inodes.get(s).unwrap().mtime > SystemTime::UNIX_EPOCH);
}
