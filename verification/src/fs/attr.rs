//! What the kernel is told about files and about the filesystem.
use crate::fs::state::{storage_views, StorageFacts, StorageView};
use crate::inode::model::{dir_kind, EntryView};
use crate::inode::InodeEntry;
use std::time::SystemTime;
use vstd::prelude::*;

verus! {

/// What kind of directory entry something is.
#[derive(Debug, Clone, Copy, PartialEq, Eq, Structural)]
pub enum FileKind {
    Directory,
    RegularFile,
}

/// The attributes of a file.
#[derive(Debug, Clone, Copy)]
pub struct FileAttr {
    pub ino: u64,
    pub size: u64,
    pub blocks: u64,
    pub atime: SystemTime,
    pub mtime: SystemTime,
    pub ctime: SystemTime,
    pub crtime: SystemTime,
    pub kind: FileKind,
    pub perm: u16,
    pub nlink: u32,
    pub uid: u32,
    pub gid: u32,
    pub rdev: u32,
    pub blksize: u32,
    pub flags: u32,
}

/// Permissions of a directory: `rwxr-xr-x`.
pub const DIR_PERM: u16 = 0o755;

/// Permissions of a file: `rw-r--r--`.
pub const FILE_PERM: u16 = 0o644;

/// Blocks of 512 bytes that hold `size` bytes.
pub open spec fn blocks_of(size: int) -> int {
    (size + 511) / 512
}

fn block_count(size: u64) -> (blocks: u64)
    ensures
        blocks == blocks_of(size as int),
{
    if size % 512 == 0 {
        size / 512
    } else {
        size / 512 + 1
    }
}

pub open spec fn kind_of(entry: EntryView) -> FileKind {
    if dir_kind(entry.kind) {
        FileKind::Directory
    } else {
        FileKind::RegularFile
    }
}

/// The attributes of an entry that belongs to `uid` and `gid`.
pub open spec fn entry_attr(entry: EntryView, uid: u32, gid: u32) -> FileAttr {
    let dir = dir_kind(entry.kind);
    FileAttr {
        ino: entry.inode,
        size: entry.size,
        blocks: blocks_of(entry.size as int) as u64,
        atime: entry.atime,
        mtime: entry.mtime,
        ctime: entry.mtime,
        crtime: entry.mtime,
        kind: kind_of(entry),
        perm: if dir {
            DIR_PERM
        } else {
            FILE_PERM
        },
        nlink: if dir {
            2
        } else {
            1
        },
        uid,
        gid,
        rdev: 0,
        blksize: 4096,
        flags: 0,
    }
}

impl FileAttr {
    /// These attributes for another size.
    pub open spec fn resized(self, size: u64) -> FileAttr {
        FileAttr { size, blocks: blocks_of(size as int) as u64, ..self }
    }

    /// These attributes for another size.
    pub fn with_size(self, size: u64) -> (attr: FileAttr)
        ensures
            attr == self.resized(size),
    {
        let mut attr = self;
        attr.size = size;
        attr.blocks = block_count(size);
        attr
    }
}

/// What kind of directory entry an inode is.
pub fn entry_kind(entry: &InodeEntry) -> (kind: FileKind)
    ensures
        kind == kind_of(entry@),
{
    if entry.is_dir() {
        FileKind::Directory
    } else {
        FileKind::RegularFile
    }
}

/// The attributes of an inode that belongs to `uid` and `gid`.
pub fn inode_to_file_attr(entry: &InodeEntry, uid: u32, gid: u32) -> (attr: FileAttr)
    ensures
        attr == entry_attr(entry@, uid, gid),
{
    let dir = entry.is_dir();
    FileAttr {
        ino: entry.inode,
        size: entry.size,
        blocks: block_count(entry.size),
        atime: entry.atime,
        mtime: entry.mtime,
        ctime: entry.mtime,
        crtime: entry.mtime,
        kind: entry_kind(entry),
        perm: if dir {
            DIR_PERM
        } else {
            FILE_PERM
        },
        nlink: if dir {
            2
        } else {
            1
        },
        uid,
        gid,
        rdev: 0,
        blksize: 4096,
        flags: 0,
    }
}

/// Block size in which the filesystem reports its space.
pub const BLOCK_SIZE: u64 = 4096;

/// The filesystem's space, in blocks of [`BLOCK_SIZE`].
#[derive(Debug, Clone, Copy, PartialEq, Eq, Structural)]
pub struct SpaceReport {
    pub blocks: u64,
    pub bfree: u64,
}

pub open spec fn total_capacity(storages: Seq<StorageView>) -> int
    decreases storages.len(),
{
    if storages.len() == 0 {
        0
    } else {
        total_capacity(storages.drop_last()) + storages.last().total_capacity
    }
}

pub open spec fn total_free(storages: Seq<StorageView>) -> int
    decreases storages.len(),
{
    if storages.len() == 0 {
        0
    } else {
        total_free(storages.drop_last()) + storages.last().free_space
    }
}

/// `n`, or the largest 64-bit count where it is more than that.
pub open spec fn saturated(n: int) -> int {
    if n > u64::MAX {
        u64::MAX as int
    } else {
        n
    }
}

/// The space of all storages together.
pub fn statfs(storages: &Vec<StorageFacts>) -> (report: SpaceReport)
    ensures
        report.blocks == saturated(total_capacity(storage_views(storages@))) / BLOCK_SIZE as int,
        report.bfree == saturated(total_free(storage_views(storages@))) / BLOCK_SIZE as int,
{
    let ghost views = storage_views(storages@);
    let mut total_bytes: u64 = 0;
    let mut free_bytes: u64 = 0;
    let mut i: usize = 0;
    while i < storages.len()
        invariant
            i <= storages.len(),
            views == storage_views(storages@),
            total_bytes == saturated(total_capacity(views.take(i as int))),
            free_bytes == saturated(total_free(views.take(i as int))),
        decreases storages.len() - i,
    {
        assert(views.take(i + 1).drop_last() =~= views.take(i as int));
        total_bytes = total_bytes.saturating_add(storages[i].total_capacity);
        free_bytes = free_bytes.saturating_add(storages[i].free_space);
        i += 1;
    }
    assert(views.take(i as int) =~= views);
    SpaceReport { blocks: total_bytes / BLOCK_SIZE, bfree: free_bytes / BLOCK_SIZE }
}

/// What the kernel is told of an entry: a file is a regular file of mode 0644 with one link, and
/// everything else is a directory of mode 0755 with two. Number, size and times are the entry's, the
/// owner is who was asked for, and the blocks of 512 bytes are as many as the size needs.
pub proof fn attributes_are_those_of_the_entry(entry: EntryView, uid: u32, gid: u32)
    ensures
        ({
            let attr = entry_attr(entry, uid, gid);
            &&& attr.ino == entry.inode
            &&& attr.size == entry.size
            &&& attr.blocks * 512 >= entry.size
            &&& attr.blocks * 512 < entry.size + 512
            &&& attr.atime == entry.atime
            &&& attr.mtime == entry.mtime
            &&& attr.ctime == entry.mtime
            &&& attr.crtime == entry.mtime
            &&& attr.uid == uid
            &&& attr.gid == gid
            &&& attr.blksize == 4096
            &&& attr.rdev == 0
            &&& attr.flags == 0
            &&& if entry.kind is File {
                attr.kind == FileKind::RegularFile && attr.perm == 0o644 && attr.nlink == 1
            } else {
                attr.kind == FileKind::Directory && attr.perm == 0o755 && attr.nlink == 2
            }
        }),
{
}

/// Another size changes the size and the blocks that it needs, and nothing else.
pub proof fn resizing_changes_size_and_blocks(attr: FileAttr, size: u64)
    ensures
        ({
            let after = attr.resized(size);
            &&& after.size == size
            &&& size <= after.blocks * 512 < size + 512
            &&& after == (FileAttr { size, blocks: after.blocks, ..attr })
        }),
{
}

/// The space of storages is that of each of them, all together: a storage adds what it holds, and
/// the order does not matter. What 64 bits cannot count is reported as the most that they can.
pub proof fn space_adds_up(a: Seq<StorageView>, b: Seq<StorageView>, storage: StorageView, n: int)
    requires
        0 <= n,
    ensures
        total_capacity(a + b) == total_capacity(a) + total_capacity(b),
        total_free(a + b) == total_free(a) + total_free(b),
        total_capacity(seq![storage]) == storage.total_capacity,
        total_free(seq![storage]) == storage.free_space,
        total_capacity(Seq::empty()) == 0,
        total_free(Seq::empty()) == 0,
        n <= u64::MAX ==> saturated(n) == n,
        n > u64::MAX ==> saturated(n) == u64::MAX,
    decreases b.len(),
{
    assert(seq![storage].drop_last() =~= Seq::empty());
    reveal_with_fuel(total_capacity, 2);
    reveal_with_fuel(total_free, 2);
    if b.len() == 0 {
        assert(a + b =~= a);
    } else {
        space_adds_up(a, b.drop_last(), storage, n);
        assert((a + b).drop_last() =~= a + b.drop_last());
        assert((a + b).last() == b.last());
    }
}

} // verus!
