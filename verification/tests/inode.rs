use mtp_mount::inode::{
    ChildInfo, InodeKind, InodeTable, ObjectHandle, StorageId, FUSE_ROOT_INODE,
};
use std::time::SystemTime;

#[test]
fn test_new_has_root() {
    let table = InodeTable::new();
    let root = table.get(FUSE_ROOT_INODE).expect("root must exist");
    assert_eq!(root.inode, FUSE_ROOT_INODE);
    assert_eq!(root.kind, InodeKind::Root);
    assert!(root.is_dir());
}

#[test]
fn test_add_storage() {
    let mut table = InodeTable::new();
    let ino = table.add_storage(StorageId(1), "Internal".into());
    assert_eq!(ino, 2);

    let entry = table.get(ino).unwrap();
    assert_eq!(entry.name, "Internal");
    assert_eq!(
        entry.kind,
        InodeKind::Storage {
            storage_id: StorageId(1)
        }
    );
    assert_eq!(entry.parent, FUSE_ROOT_INODE);
    assert!(entry.is_dir());
}

#[test]
fn test_add_object_file() {
    let mut table = InodeTable::new();
    let storage_ino = table.add_storage(StorageId(1), "Internal".into());
    let mtime = SystemTime::UNIX_EPOCH;

    let file_ino = table.add_object(
        storage_ino,
        ObjectHandle(100),
        "photo.jpg".into(),
        false,
        4096,
        mtime,
    );

    let entry = table.get(file_ino).unwrap();
    assert_eq!(entry.name, "photo.jpg");
    assert_eq!(
        entry.kind,
        InodeKind::File {
            handle: ObjectHandle(100)
        }
    );
    assert_eq!(entry.size, 4096);
    assert_eq!(entry.parent, storage_ino);
    assert!(!entry.is_dir());
}

#[test]
fn test_add_object_directory() {
    let mut table = InodeTable::new();
    let storage_ino = table.add_storage(StorageId(1), "Internal".into());
    let mtime = SystemTime::UNIX_EPOCH;

    let dir_ino = table.add_object(
        storage_ino,
        ObjectHandle(200),
        "DCIM".into(),
        true,
        0,
        mtime,
    );

    let entry = table.get(dir_ino).unwrap();
    assert_eq!(
        entry.kind,
        InodeKind::Directory {
            handle: ObjectHandle(200)
        }
    );
    assert!(entry.is_dir());
}

#[test]
fn test_lookup_by_name() {
    let mut table = InodeTable::new();
    let storage_ino = table.add_storage(StorageId(1), "Internal".into());
    let mtime = SystemTime::UNIX_EPOCH;
    let file_ino = table.add_object(
        storage_ino,
        ObjectHandle(100),
        "photo.jpg".into(),
        false,
        1024,
        mtime,
    );

    assert_eq!(table.lookup(storage_ino, "photo.jpg"), Some(file_ino));
    assert_eq!(table.lookup(FUSE_ROOT_INODE, "Internal"), Some(storage_ino));
}

#[test]
fn test_lookup_nonexistent() {
    let table = InodeTable::new();
    assert_eq!(table.lookup(FUSE_ROOT_INODE, "nope"), None);
    assert!(table.get(999).is_none());
}

#[test]
fn test_children() {
    let mut table = InodeTable::new();
    let s1 = table.add_storage(StorageId(1), "Internal".into());
    let s2 = table.add_storage(StorageId(2), "SD Card".into());

    let root_children = table.children(FUSE_ROOT_INODE);
    assert_eq!(root_children, vec![s1, s2]);

    let mtime = SystemTime::UNIX_EPOCH;
    let f1 = table.add_object(s1, ObjectHandle(10), "a.txt".into(), false, 100, mtime);
    let f2 = table.add_object(s1, ObjectHandle(11), "b.txt".into(), false, 200, mtime);

    let storage_children = table.children(s1);
    assert_eq!(storage_children, vec![f1, f2]);

    assert!(table.children(s2).is_empty());
}

#[test]
fn test_remove() {
    let mut table = InodeTable::new();
    let storage_ino = table.add_storage(StorageId(1), "Internal".into());
    let mtime = SystemTime::UNIX_EPOCH;
    let file_ino = table.add_object(
        storage_ino,
        ObjectHandle(100),
        "photo.jpg".into(),
        false,
        1024,
        mtime,
    );

    let removed = table.remove(file_ino).expect("should remove");
    assert_eq!(removed.name, "photo.jpg");
    assert!(table.get(file_ino).is_none());
    assert_eq!(table.lookup(storage_ino, "photo.jpg"), None);
    assert!(table.children(storage_ino).is_empty());
}

#[test]
fn test_rename() {
    let mut table = InodeTable::new();
    let s1 = table.add_storage(StorageId(1), "Internal".into());
    let mtime = SystemTime::UNIX_EPOCH;
    let dir_ino = table.add_object(s1, ObjectHandle(200), "DCIM".into(), true, 0, mtime);
    let file_ino = table.add_object(s1, ObjectHandle(100), "old.txt".into(), false, 512, mtime);

    // Move file from storage root into DCIM and rename it.
    table.rename(file_ino, dir_ino, "new.txt".into());

    assert_eq!(table.lookup(s1, "old.txt"), None);
    assert_eq!(table.lookup(dir_ino, "new.txt"), Some(file_ino));

    let entry = table.get(file_ino).unwrap();
    assert_eq!(entry.parent, dir_ino);
    assert_eq!(entry.name, "new.txt");

    assert!(!table.children(s1).contains(&file_ino));
    assert!(table.children(dir_ino).contains(&file_ino));
}

fn child(handle: u64, name: &str, is_dir: bool, size: u64) -> ChildInfo {
    ChildInfo {
        handle: ObjectHandle(handle),
        name: name.into(),
        is_dir,
        size,
        mtime: SystemTime::UNIX_EPOCH,
    }
}

#[test]
fn test_sync_children_keeps_inode_numbers_stable() {
    let mut table = InodeTable::new();
    let storage_ino = table.add_storage(StorageId(1), "Internal".into());
    table.sync_children(
        storage_ino,
        &[
            child(10, "a.txt", false, 100),
            child(11, "b.txt", false, 200),
        ],
    );
    let a = table.lookup(storage_ino, "a.txt").unwrap();

    // Re-listing the same directory with new handles (a fresh session) must
    // keep the inode number: open fds and the kernel cache depend on it.
    table.sync_children(
        storage_ino,
        &[
            child(77, "a.txt", false, 150),
            child(78, "b.txt", false, 200),
        ],
    );

    assert_eq!(table.lookup(storage_ino, "a.txt"), Some(a));
    let entry = table.get(a).unwrap();
    assert_eq!(
        entry.kind,
        InodeKind::File {
            handle: ObjectHandle(77)
        }
    );
    assert_eq!(entry.size, 150);
}

#[test]
fn test_sync_children_adds_and_removes() {
    let mut table = InodeTable::new();
    let storage_ino = table.add_storage(StorageId(1), "Internal".into());
    table.sync_children(
        storage_ino,
        &[
            child(10, "stays.txt", false, 1),
            child(11, "goes.txt", false, 2),
        ],
    );
    let goes = table.lookup(storage_ino, "goes.txt").unwrap();

    table.sync_children(
        storage_ino,
        &[
            child(10, "stays.txt", false, 1),
            child(12, "new.txt", false, 3),
        ],
    );

    assert!(table.get(goes).is_none());
    assert_eq!(table.lookup(storage_ino, "goes.txt"), None);
    assert!(table.lookup(storage_ino, "new.txt").is_some());
    assert_eq!(table.children(storage_ino).len(), 2);
}

#[test]
fn test_sync_children_replaces_when_kind_flips() {
    let mut table = InodeTable::new();
    let storage_ino = table.add_storage(StorageId(1), "Internal".into());
    table.sync_children(storage_ino, &[child(10, "thing", false, 5)]);
    let file_ino = table.lookup(storage_ino, "thing").unwrap();

    table.sync_children(storage_ino, &[child(11, "thing", true, 0)]);

    let dir_ino = table.lookup(storage_ino, "thing").unwrap();
    assert_ne!(
        dir_ino, file_ino,
        "a file replaced by a dir is a new object"
    );
    assert!(table.get(dir_ino).unwrap().is_dir());
}

#[test]
fn test_generation_marks_handles_stale() {
    let mut table = InodeTable::new();
    let storage_ino = table.add_storage(StorageId(1), "Internal".into());
    table.sync_children(storage_ino, &[child(10, "a.txt", false, 100)]);
    let a = table.lookup(storage_ino, "a.txt").unwrap();
    assert!(table.is_fresh(a));

    table.bump_generation();

    assert!(!table.is_fresh(a), "handles from an old session are stale");
    assert!(
        table.is_fresh(storage_ino),
        "storage inodes carry no session-scoped handle"
    );
    assert!(table.is_fresh(FUSE_ROOT_INODE));

    table.set_handle(a, ObjectHandle(999));
    assert!(table.is_fresh(a));
    assert_eq!(
        table.get(a).unwrap().kind,
        InodeKind::File {
            handle: ObjectHandle(999)
        }
    );
}

#[test]
fn test_set_storage_id_remaps_in_place() {
    let mut table = InodeTable::new();
    let storage_ino = table.add_storage(StorageId(1), "Internal".into());
    table.set_storage_id(storage_ino, StorageId(42));
    assert_eq!(
        table.get(storage_ino).unwrap().kind,
        InodeKind::Storage {
            storage_id: StorageId(42)
        }
    );
}

#[test]
fn test_inode_uniqueness() {
    let mut table = InodeTable::new();
    let mtime = SystemTime::UNIX_EPOCH;
    let mut inodes = vec![FUSE_ROOT_INODE];
    inodes.push(table.add_storage(StorageId(1), "A".into()));
    inodes.push(table.add_storage(StorageId(2), "B".into()));
    inodes.push(table.add_object(inodes[1], ObjectHandle(1), "x".into(), false, 0, mtime));
    inodes.push(table.add_object(inodes[1], ObjectHandle(2), "y".into(), true, 0, mtime));

    let unique: std::collections::HashSet<u64> = inodes.iter().copied().collect();
    assert_eq!(unique.len(), inodes.len(), "all inodes must be unique");
}

#[test]
fn inode_test_nested_directories() {
    let mut table = InodeTable::new();
    let storage_ino = table.add_storage(StorageId(1), "Internal".into());
    let mtime = SystemTime::UNIX_EPOCH;

    let dcim = table.add_object(storage_ino, ObjectHandle(1), "DCIM".into(), true, 0, mtime);
    let camera = table.add_object(dcim, ObjectHandle(2), "Camera".into(), true, 0, mtime);
    let photo = table.add_object(
        camera,
        ObjectHandle(3),
        "IMG_001.jpg".into(),
        false,
        8192,
        mtime,
    );

    // Verify the chain: root -> storage -> DCIM -> Camera -> photo
    assert!(table.children(FUSE_ROOT_INODE).contains(&storage_ino));
    assert!(table.children(storage_ino).contains(&dcim));
    assert!(table.children(dcim).contains(&camera));
    assert!(table.children(camera).contains(&photo));

    // Lookup through the chain.
    assert_eq!(table.lookup(FUSE_ROOT_INODE, "Internal"), Some(storage_ino));
    assert_eq!(table.lookup(storage_ino, "DCIM"), Some(dcim));
    assert_eq!(table.lookup(dcim, "Camera"), Some(camera));
    assert_eq!(table.lookup(camera, "IMG_001.jpg"), Some(photo));

    let photo_entry = table.get(photo).unwrap();
    assert_eq!(photo_entry.parent, camera);
    assert_eq!(photo_entry.size, 8192);
}

#[test]
fn test_get_mut() {
    let mut table = InodeTable::new();
    let storage_ino = table.add_storage(StorageId(1), "Internal".into());
    let mtime = SystemTime::UNIX_EPOCH;
    let file_ino = table.add_object(
        storage_ino,
        ObjectHandle(1),
        "f.txt".into(),
        false,
        100,
        mtime,
    );

    table.get_mut(file_ino).unwrap().size = 999;
    assert_eq!(table.get(file_ino).unwrap().size, 999);
}

#[test]
fn a_default_table_holds_the_root_alone() {
    let table = InodeTable::default();
    assert_eq!(table.len(), 1);
    assert_eq!(table.get(FUSE_ROOT_INODE).unwrap().mtime, SystemTime::UNIX_EPOCH);
}

#[test]
fn a_cloned_entry_says_the_same() {
    let mut table = InodeTable::new();
    let s = table.add_storage(StorageId(4), "SD".into());
    let entry = table.get(s).unwrap().clone();
    assert_eq!(entry.name, "SD");
    assert_eq!(entry.kind, InodeKind::Storage { storage_id: StorageId(4) });
    assert_eq!(entry.generation, 0);
}

#[test]
fn removing_a_directory_leaves_its_children_in_the_table() {
    let mut table = InodeTable::new();
    let s = table.add_storage(StorageId(1), "Internal".into());
    let mtime = SystemTime::UNIX_EPOCH;
    let dir = table.add_object(s, ObjectHandle(1), "DCIM".into(), true, 0, mtime);
    let file = table.add_object(dir, ObjectHandle(2), "a.jpg".into(), false, 1, mtime);
    table.remove(dir);
    assert!(table.get(dir).is_none());
    assert!(table.children(dir).is_empty());
    assert!(table.get(file).is_some());
    assert!(table.remove(dir).is_none());
}

#[test]
fn a_parent_is_found_by_its_childs_handle() {
    let mut table = InodeTable::new();
    let s = table.add_storage(StorageId(1), "Internal".into());
    let mtime = SystemTime::UNIX_EPOCH;
    let dir = table.add_object(s, ObjectHandle(5), "DCIM".into(), true, 0, mtime);
    table.add_object(dir, ObjectHandle(6), "a.jpg".into(), false, 1, mtime);
    assert_eq!(table.find_parent_by_handle(ObjectHandle(6)), Some(dir));
    assert_eq!(table.find_parent_by_handle(ObjectHandle(5)), Some(s));
    assert_eq!(table.find_parent_by_handle(ObjectHandle(7)), None);
}

#[test]
fn a_listing_that_bears_a_name_twice_keeps_the_last_mention() {
    let mut table = InodeTable::new();
    let s = table.add_storage(StorageId(1), "Internal".into());
    table.sync_children(s, &[child(10, "a", false, 1), child(11, "a", false, 2)]);
    let a = table.lookup(s, "a").unwrap();
    assert_eq!(table.children(s), vec![a]);
    assert_eq!(table.get(a).unwrap().size, 2);
    assert_eq!(table.get(a).unwrap().kind, InodeKind::File { handle: ObjectHandle(11) });
}

#[test]
fn handles_of_what_has_none_are_left_alone() {
    let mut table = InodeTable::new();
    let s = table.add_storage(StorageId(1), "Internal".into());
    table.set_handle(s, ObjectHandle(9));
    table.set_handle(999, ObjectHandle(9));
    assert_eq!(table.get(s).unwrap().kind, InodeKind::Storage { storage_id: StorageId(1) });
    table.set_storage_id(FUSE_ROOT_INODE, StorageId(3));
    assert_eq!(table.get(FUSE_ROOT_INODE).unwrap().kind, InodeKind::Root);
    assert!(!table.is_fresh(999));
}

#[test]
fn a_small_table_has_room_but_not_for_everything() {
    let table = InodeTable::new();
    assert!(table.can_bump());
    assert!(table.has_room(0));
    assert!(table.has_room(1_000_000));
    assert!(!table.has_room(usize::MAX));
    assert_eq!(table.len(), 1);
}

#[test]
fn a_taken_name_does_not_keep_handles_from_going_stale() {
    let mut table = InodeTable::new();
    let storage = table.add_storage(StorageId(1), "Internal".into());
    let now = SystemTime::now();
    let one = table.add_object(storage, ObjectHandle(10), "a".into(), false, 1, now);
    let two = table.add_object(storage, ObjectHandle(11), "b".into(), false, 1, now);
    table.rename(two, storage, "a".into());
    assert_eq!(table.lookup(storage, "a"), Some(two));
    table.bump_generation();
    assert!(!table.is_fresh(one));
    assert!(!table.is_fresh(two));
    table.sync_children(
        storage,
        &[ChildInfo {
            handle: ObjectHandle(20),
            name: "a".into(),
            is_dir: false,
            size: 7,
            mtime: now,
        }],
    );
    assert_eq!(table.lookup(storage, "a"), Some(two));
    assert!(table.is_fresh(two));
    assert_eq!(table.get(two).unwrap().size, 7);
}
