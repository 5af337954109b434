//! The inode table as a mathematical value.
use crate::inode::{ChildInfo, InodeKind, ObjectHandle, StorageId, FUSE_ROOT_INODE};
use std::time::SystemTime;
use vstd::prelude::*;

verus! {

/// An inode's metadata, with its name as a sequence of characters.
#[verifier::ext_equal]
pub struct EntryView {
    pub inode: u64,
    pub parent: u64,
    pub name: Seq<char>,
    pub kind: InodeKind,
    pub size: u64,
    pub mtime: SystemTime,
    pub atime: SystemTime,
    pub generation: u64,
}

/// A child as the device reports it, with its name as a sequence of characters.
#[verifier::ext_equal]
pub struct ChildView {
    pub handle: ObjectHandle,
    pub name: Seq<char>,
    pub is_dir: bool,
    pub size: u64,
    pub mtime: SystemTime,
}

/// Everything an inode table knows.
#[verifier::ext_equal]
pub struct TableView {
    pub entries: Map<u64, EntryView>,
    /// `(parent inode, child name)` to child inode.
    pub names: Map<(u64, Seq<char>), u64>,
    /// Parent inode to its children, oldest first.
    pub children: Map<u64, Seq<u64>>,
    pub next_inode: int,
    pub generation: u64,
}

/// Whether entries of this kind can hold others.
pub open spec fn dir_kind(kind: InodeKind) -> bool {
    !(kind is File)
}

/// The session-scoped handle of an entry of this kind, if it has one.
pub open spec fn kind_handle(kind: InodeKind) -> Option<ObjectHandle> {
    match kind {
        InodeKind::Directory { handle } => Some(handle),
        InodeKind::File { handle } => Some(handle),
        _ => None,
    }
}

/// The kind of an object that the device reports as a folder or as a file.
pub open spec fn object_kind(is_dir: bool, handle: ObjectHandle) -> InodeKind {
    if is_dir {
        InodeKind::Directory { handle }
    } else {
        InodeKind::File { handle }
    }
}

/// `s` without any occurrence of `x`, the rest in order.
pub open spec fn without(s: Seq<u64>, x: u64) -> Seq<u64>
    decreases s.len(),
{
    if s.len() == 0 {
        s
    } else if s.last() == x {
        without(s.drop_last(), x)
    } else {
        without(s.drop_last(), x).push(s.last())
    }
}

impl EntryView {
    /// This entry pointing at a handle of session `generation`; entries without a handle stay.
    pub open spec fn with_handle(self, handle: ObjectHandle, generation: u64) -> EntryView {
        match self.kind {
            InodeKind::Directory { .. } => EntryView {
                kind: InodeKind::Directory { handle },
                generation,
                ..self
            },
            InodeKind::File { .. } => EntryView {
                kind: InodeKind::File { handle },
                generation,
                ..self
            },
            _ => self,
        }
    }
}

impl TableView {
    /// The table of a mount that has seen nothing yet: the root alone.
    pub open spec fn initial() -> TableView {
        TableView {
            entries: Map::empty().insert(
                FUSE_ROOT_INODE,
                EntryView {
                    inode: FUSE_ROOT_INODE,
                    parent: FUSE_ROOT_INODE,
                    name: Seq::empty(),
                    kind: InodeKind::Root,
                    size: 0,
                    mtime: crate::clock::unix_time(0),
                    atime: crate::clock::unix_time(0),
                    generation: 0,
                },
            ),
            names: Map::empty(),
            children: Map::empty(),
            next_inode: 2,
            generation: 0,
        }
    }

    /// The children of `parent`, oldest first.
    pub open spec fn kids(self, parent: u64) -> Seq<u64> {
        if self.children.contains_key(parent) {
            self.children[parent]
        } else {
            Seq::empty()
        }
    }

    /// The inode known under `name` in `parent`.
    pub open spec fn named(self, parent: u64, name: Seq<char>) -> Option<u64> {
        if self.names.contains_key((parent, name)) {
            Some(self.names[(parent, name)])
        } else {
            None
        }
    }

    /// Whether `inode` is known to be a file or folder (`true`: a folder).
    pub open spec fn has_shape(self, inode: u64, is_dir: bool) -> bool {
        self.entries.contains_key(inode) && dir_kind(self.entries[inode].kind) == is_dir
    }

    /// Whether the handle of `inode` belongs to the current session. What has no handle is
    /// always fresh; what is not in the table never is.
    pub open spec fn fresh(self, inode: u64) -> bool {
        &&& self.entries.contains_key(inode)
        &&& kind_handle(self.entries[inode].kind) is Some ==> self.entries[inode].generation
            == self.generation
    }

    /// The table with one entry replaced in place, indexes untouched.
    pub open spec fn with_entry(self, inode: u64, entry: EntryView) -> TableView {
        TableView { entries: self.entries.insert(inode, entry), ..self }
    }

    /// The table with a new entry, known by its name and last among its siblings.
    pub open spec fn insert(self, entry: EntryView) -> TableView {
        TableView {
            entries: self.entries.insert(entry.inode, entry),
            names: self.names.insert((entry.parent, entry.name), entry.inode),
            children: self.children.insert(
                entry.parent,
                self.kids(entry.parent).push(entry.inode),
            ),
            ..self
        }
    }

    /// The table with a new entry under the next inode number.
    pub open spec fn add(
        self,
        parent: u64,
        name: Seq<char>,
        kind: InodeKind,
        size: u64,
        time: SystemTime,
    ) -> TableView {
        let entry = EntryView {
            inode: self.next_inode as u64,
            parent,
            name,
            kind,
            size,
            mtime: time,
            atime: time,
            generation: self.generation,
        };
        TableView { next_inode: self.next_inode + 1, ..self.insert(entry) }
    }

    /// The table without `inode`, its name, its place among its siblings and its own list of
    /// children. Descendants keep their entries.
    pub open spec fn remove(self, inode: u64) -> TableView {
        if self.entries.contains_key(inode) {
            let entry = self.entries[inode];
            TableView {
                entries: self.entries.remove(inode),
                names: self.names.remove((entry.parent, entry.name)),
                children: self.unlisted(entry.parent, inode).remove(inode),
                ..self
            }
        } else {
            self
        }
    }

    /// The child lists with `inode` taken out of those of `parent`.
    pub open spec fn unlisted(self, parent: u64, inode: u64) -> Map<u64, Seq<u64>> {
        if self.children.contains_key(parent) {
            self.children.insert(parent, without(self.children[parent], inode))
        } else {
            self.children
        }
    }

    /// The table with `inode` moved to `new_parent` under `new_name`.
    pub open spec fn rename(self, inode: u64, new_parent: u64, new_name: Seq<char>) -> TableView {
        if self.entries.contains_key(inode) {
            let entry = self.entries[inode];
            let unlisted = TableView { children: self.unlisted(entry.parent, inode), ..self };
            TableView {
                entries: self.entries.insert(
                    inode,
                    EntryView { parent: new_parent, name: new_name, ..entry },
                ),
                names: self.names.remove((entry.parent, entry.name)).insert(
                    (new_parent, new_name),
                    inode,
                ),
                children: unlisted.children.insert(
                    new_parent,
                    unlisted.kids(new_parent).push(inode),
                ),
                ..self
            }
        } else {
            self
        }
    }

    /// The table after a listing of `parent` reported `child`.
    ///
    /// A child of the same name and shape keeps its inode and takes over handle, size and time.
    /// A name that changed shape is a different object under a new inode.
    pub open spec fn sync_one(self, parent: u64, child: ChildView) -> TableView {
        let kind = object_kind(child.is_dir, child.handle);
        match self.named(parent, child.name) {
            Some(ino) => if self.has_shape(ino, child.is_dir) {
                self.with_entry(
                    ino,
                    EntryView {
                        kind,
                        size: child.size,
                        mtime: child.mtime,
                        generation: self.generation,
                        ..self.entries[ino]
                    },
                )
            } else {
                self.remove(ino).add(parent, child.name, kind, child.size, child.mtime)
            },
            None => self.add(parent, child.name, kind, child.size, child.mtime),
        }
    }

    /// The table after a listing reported `children`, in order.
    pub open spec fn sync_each(self, parent: u64, children: Seq<ChildView>) -> TableView
        decreases children.len(),
    {
        if children.len() == 0 {
            self
        } else {
            self.sync_each(parent, children.drop_last()).sync_one(parent, children.last())
        }
    }

    /// The table without any of `inodes`.
    pub open spec fn remove_each(self, inodes: Seq<u64>) -> TableView
        decreases inodes.len(),
    {
        if inodes.len() == 0 {
            self
        } else {
            self.remove_each(inodes.drop_last()).remove(inodes.last())
        }
    }

    /// Whether `inode` is in the table under a name that none of `children` bears.
    pub open spec fn unreported(self, inode: u64, children: Seq<ChildView>) -> bool {
        &&& self.entries.contains_key(inode)
        &&& forall|i: int|
            0 <= i < children.len() ==> (#[trigger] children[i]).name != self.entries[inode].name
    }

    /// Those of `inodes` that are no longer reported, in order.
    pub open spec fn gone(self, inodes: Seq<u64>, children: Seq<ChildView>) -> Seq<u64>
        decreases inodes.len(),
    {
        if inodes.len() == 0 {
            inodes
        } else if self.unreported(inodes.last(), children) {
            self.gone(inodes.drop_last(), children).push(inodes.last())
        } else {
            self.gone(inodes.drop_last(), children)
        }
    }

    /// The table after a complete listing of `parent`: every reported child taken in, every
    /// child that is no longer reported taken out.
    pub open spec fn sync(self, parent: u64, children: Seq<ChildView>) -> TableView {
        let seen = self.sync_each(parent, children);
        seen.remove_each(seen.gone(seen.kids(parent), children))
    }

    /// The table with every session-scoped handle made stale.
    pub open spec fn bumped(self) -> TableView {
        TableView { generation: (self.generation + 1) as u64, ..self }
    }

    /// The table with `inode` pointing at a handle of the current session.
    pub open spec fn set_handle(self, inode: u64, handle: ObjectHandle) -> TableView {
        if self.entries.contains_key(inode) {
            self.with_entry(inode, self.entries[inode].with_handle(handle, self.generation))
        } else {
            self
        }
    }

    /// The table with the storage behind `inode` re-pointed; anything but a storage stays.
    pub open spec fn set_storage_id(self, inode: u64, storage_id: StorageId) -> TableView {
        if self.entries.contains_key(inode) && self.entries[inode].kind is Storage {
            self.with_entry(
                inode,
                EntryView { kind: InodeKind::Storage { storage_id }, ..self.entries[inode] },
            )
        } else {
            self
        }
    }

    /// Whether some object in the table bears `handle` and has `parent` as its parent.
    pub open spec fn holds_handle_in(self, handle: ObjectHandle, parent: u64) -> bool {
        exists|inode: u64| #[trigger]
            self.entries.contains_key(inode) && kind_handle(self.entries[inode].kind) == Some(
                handle,
            ) && self.entries[inode].parent == parent
    }
}

/// The views of a listing's children.
pub open spec fn child_views(children: Seq<ChildInfo>) -> Seq<ChildView> {
    Seq::new(children.len(), |i: int| children[i]@)
}

} // verus!
