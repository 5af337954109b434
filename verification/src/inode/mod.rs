//! The mapping between inode numbers and device objects, with cached metadata.
use crate::clock::{at_unix_second, now};
use crate::inode::model::{
    child_views, dir_kind, kind_handle, object_kind, without, ChildView, EntryView, TableView,
};
use crate::maps::value_mut;
use std::collections::HashMap;
use std::time::SystemTime;
use vstd::hash_map::StringHashMap;
use vstd::prelude::*;

pub mod laws;
pub mod model;

verus! {

broadcast use vstd::std_specs::hash::group_hash_axioms;

/// FUSE root inode number.
pub const FUSE_ROOT_INODE: u64 = 1;

/// A token for an object on the device, valid within one session.
#[derive(Debug, Clone, Copy, PartialEq, Eq, Structural)]
pub struct ObjectHandle(pub u64);

/// A token for a storage on the device, valid within one session.
#[derive(Debug, Clone, Copy, PartialEq, Eq, Structural)]
pub struct StorageId(pub u64);

/// What kind of entry an inode represents.
#[derive(Debug, Clone, Copy, PartialEq, Eq, Structural)]
pub enum InodeKind {
    Root,
    Storage { storage_id: StorageId },
    Directory { handle: ObjectHandle },
    File { handle: ObjectHandle },
}

/// Metadata cached for a single inode.
#[derive(Debug)]
pub struct InodeEntry {
    pub inode: u64,
    pub parent: u64,
    pub name: String,
    pub kind: InodeKind,
    pub size: u64,
    pub mtime: SystemTime,
    pub atime: SystemTime,
    /// Session the handle in `kind` was resolved against. Handles are session-scoped, so one
    /// from an older session has to be re-resolved by path before it is used again.
    pub generation: u64,
}

impl View for InodeEntry {
    type V = EntryView;

    open spec fn view(&self) -> EntryView {
        EntryView {
            inode: self.inode,
            parent: self.parent,
            name: self.name@,
            kind: self.kind,
            size: self.size,
            mtime: self.mtime,
            atime: self.atime,
            generation: self.generation,
        }
    }
}

impl Clone for InodeEntry {
    fn clone(&self) -> (copy: Self)
        ensures
            copy@ == self@,
    {
        InodeEntry {
            inode: self.inode,
            parent: self.parent,
            name: self.name.clone(),
            kind: self.kind,
            size: self.size,
            mtime: self.mtime,
            atime: self.atime,
            generation: self.generation,
        }
    }
}

impl InodeKind {
    /// Whether entries of this kind can hold others.
    pub fn is_dir(&self) -> (dir: bool)
        ensures
            dir == dir_kind(*self),
    {
        match self {
            InodeKind::File { .. } => false,
            _ => true,
        }
    }

    /// The session-scoped handle of an entry of this kind, if it has one.
    pub fn handle(&self) -> (handle: Option<ObjectHandle>)
        ensures
            handle == kind_handle(*self),
    {
        match self {
            InodeKind::Directory { handle } => Some(*handle),
            InodeKind::File { handle } => Some(*handle),
            _ => None,
        }
    }

    /// The kind of an object that the device reports as a folder or as a file.
    pub fn of_object(is_dir: bool, handle: ObjectHandle) -> (kind: InodeKind)
        ensures
            kind == object_kind(is_dir, handle),
    {
        if is_dir {
            InodeKind::Directory { handle }
        } else {
            InodeKind::File { handle }
        }
    }
}

impl InodeEntry {
    pub fn is_dir(&self) -> (dir: bool)
        ensures
            dir == dir_kind(self.kind),
    {
        self.kind.is_dir()
    }
}

/// One child as the device reports it, for [`InodeTable::sync_children`].
#[derive(Debug)]
pub struct ChildInfo {
    pub handle: ObjectHandle,
    pub name: String,
    pub is_dir: bool,
    pub size: u64,
    pub mtime: SystemTime,
}

impl View for ChildInfo {
    type V = ChildView;

    open spec fn view(&self) -> ChildView {
        ChildView {
            handle: self.handle,
            name: self.name@,
            is_dir: self.is_dir,
            size: self.size,
            mtime: self.mtime,
        }
    }
}

/// Bidirectional mapping between inodes and device objects, with cached metadata.
pub struct InodeTable {
    entries: HashMap<u64, InodeEntry>,
    /// parent inode -> child name -> child inode
    name_index: HashMap<u64, StringHashMap<u64>>,
    /// parent inode -> list of child inodes
    children_index: HashMap<u64, Vec<u64>>,
    next_inode: u64,
    /// Moved on by every reconnect; see [`InodeEntry::generation`].
    generation: u64,
}

spec fn entry_views(entries: Map<u64, InodeEntry>) -> Map<u64, EntryView> {
    entries.map_values(|e: InodeEntry| e@)
}

spec fn name_view(index: Map<u64, StringHashMap<u64>>) -> Map<(u64, Seq<char>), u64> {
    Map::new(
        |key: (u64, Seq<char>)| index.contains_key(key.0) && index[key.0]@.contains_key(key.1),
        |key: (u64, Seq<char>)| index[key.0]@[key.1],
    )
}

spec fn child_lists(index: Map<u64, Vec<u64>>) -> Map<u64, Seq<u64>> {
    index.map_values(|v: Vec<u64>| v@)
}

impl View for InodeTable {
    type V = TableView;

    closed spec fn view(&self) -> TableView {
        TableView {
            entries: entry_views(self.entries@),
            names: name_view(self.name_index@),
            children: child_lists(self.children_index@),
            next_inode: self.next_inode as int,
            generation: self.generation,
        }
    }
}

impl Default for InodeTable {
    fn default() -> (table: Self)
        ensures
            table@ == TableView::initial(),
    {
        Self::new()
    }
}

/// Takes every occurrence of `x` out of `list`.
pub(crate) fn drop_value(list: &mut Vec<u64>, x: u64)
    ensures
        final(list)@ == without(old(list)@, x),
{
    let mut kept: Vec<u64> = Vec::new();
    let mut i: usize = 0;
    while i < list.len()
        invariant
            i <= list.len(),
            list@ == old(list)@,
            kept@ == without(list@.take(i as int), x),
        decreases list.len() - i,
    {
        proof {
            assert(list@.take(i + 1).drop_last() =~= list@.take(i as int));
        }
        if list[i] != x {
            kept.push(list[i]);
        }
        i += 1;
    }
    proof {
        assert(list@.take(i as int) =~= list@);
    }
    *list = kept;
}

impl InodeTable {
    /// Creates a new table with only the root inode (inode 1).
    pub fn new() -> (table: Self)
        ensures
            table@ == TableView::initial(),
    {
        let root = InodeEntry {
            inode: FUSE_ROOT_INODE,
            parent: FUSE_ROOT_INODE,
            name: String::new(),
            kind: InodeKind::Root,
            size: 0,
            mtime: at_unix_second(0),
            atime: at_unix_second(0),
            generation: 0,
        };
        let mut entries = HashMap::new();
        entries.insert(FUSE_ROOT_INODE, root);
        let table = InodeTable {
            entries,
            name_index: HashMap::new(),
            children_index: HashMap::new(),
            next_inode: 2,
            generation: 0,
        };
        assert(table@ =~= TableView::initial());
        table
    }

    /// Marks every cached object handle as stale, without touching inode numbers, names, or the
    /// tree shape. Open file descriptors keep referring to the same inodes, while the handles
    /// behind them get re-resolved by path on next use.
    pub fn bump_generation(&mut self)
        requires
            old(self)@.generation < u64::MAX,
        ensures
            final(self)@ == old(self)@.bumped(),
    {
        self.generation += 1;
    }

    /// Whether this inode's handle was resolved against the current session.
    pub fn is_fresh(&self, inode: u64) -> (fresh: bool)
        ensures
            fresh == self@.fresh(inode),
    {
        match self.entries.get(&inode) {
            Some(entry) => match entry.kind {
                InodeKind::Root | InodeKind::Storage { .. } => true,
                InodeKind::Directory { .. } | InodeKind::File { .. } => entry.generation
                    == self.generation,
            },
            None => false,
        }
    }

    /// Points an inode at a freshly resolved handle, keeping its inode number.
    pub fn set_handle(&mut self, inode: u64, handle: ObjectHandle)
        ensures
            final(self)@ == old(self)@.set_handle(inode, handle),
    {
        let generation: u64 = self.generation;
        if let Some(entry) = value_mut(&mut self.entries, inode) {
            match entry.kind {
                InodeKind::Directory { .. } => {
                    entry.kind = InodeKind::Directory { handle };
                    entry.generation = generation;
                },
                InodeKind::File { .. } => {
                    entry.kind = InodeKind::File { handle };
                    entry.generation = generation;
                },
                _ => {},
            }
        }
        assert(self@ =~= old(self)@.set_handle(inode, handle));
    }

    /// Re-points a storage inode at a storage of the current session.
    pub fn set_storage_id(&mut self, inode: u64, storage_id: StorageId)
        ensures
            final(self)@ == old(self)@.set_storage_id(inode, storage_id),
    {
        if let Some(entry) = value_mut(&mut self.entries, inode) {
            if let InodeKind::Storage { .. } = entry.kind {
                entry.kind = InodeKind::Storage { storage_id };
            }
        }
        assert(self@ =~= old(self)@.set_storage_id(inode, storage_id));
    }

    fn alloc_inode(&mut self) -> (ino: u64)
        requires
            old(self)@.next_inode < u64::MAX,
        ensures
            ino == old(self)@.next_inode,
            final(self)@ == (TableView { next_inode: ino + 1, ..old(self)@ }),
    {
        let ino: u64 = self.next_inode;
        self.next_inode += 1;
        ino
    }

    /// Records that `name` in `parent` is `ino`.
    fn index_name(&mut self, parent: u64, name: String, ino: u64)
        ensures
            final(self)@ == (TableView {
                names: old(self)@.names.insert((parent, name@), ino),
                ..old(self)@
            }),
    {
        let ghost key = (parent, name@);
        match value_mut(&mut self.name_index, parent) {
            Some(names) => {
                names.insert(name, ino);
            },
            None => {
                let mut names: StringHashMap<u64> = StringHashMap::new();
                names.insert(name, ino);
                self.name_index.insert(parent, names);
            },
        }
        assert(self@.names =~= old(self)@.names.insert(key, ino));
    }

    /// Forgets `name` in `parent`.
    fn forget_name(&mut self, parent: u64, name: &String)
        ensures
            final(self)@ == (TableView {
                names: old(self)@.names.remove((parent, name@)),
                ..old(self)@
            }),
    {
        if let Some(names) = value_mut(&mut self.name_index, parent) {
            names.remove(name.as_str());
        }
        assert(self@.names =~= old(self)@.names.remove((parent, name@)));
    }

    /// Appends `ino` to the children of `parent`.
    fn index_child(&mut self, parent: u64, ino: u64)
        ensures
            final(self)@ == (TableView {
                children: old(self)@.children.insert(parent, old(self)@.kids(parent).push(ino)),
                ..old(self)@
            }),
    {
        match value_mut(&mut self.children_index, parent) {
            Some(siblings) => {
                siblings.push(ino);
            },
            None => {
                let mut siblings: Vec<u64> = Vec::new();
                siblings.push(ino);
                self.children_index.insert(parent, siblings);
            },
        }
        assert(self@.children =~= old(self)@.children.insert(
            parent,
            old(self)@.kids(parent).push(ino),
        ));
    }

    /// Takes `ino` out of the children of `parent`.
    fn forget_child(&mut self, parent: u64, ino: u64)
        ensures
            final(self)@ == (TableView {
                children: old(self)@.unlisted(parent, ino),
                ..old(self)@
            }),
    {
        if let Some(siblings) = value_mut(&mut self.children_index, parent) {
            drop_value(siblings, ino);
        }
        assert(self@.children =~= old(self)@.unlisted(parent, ino));
    }

    fn insert(&mut self, entry: InodeEntry) -> (ino: u64)
        ensures
            ino == entry.inode,
            final(self)@ == old(self)@.insert(entry@),
    {
        let ino: u64 = entry.inode;
        let parent: u64 = entry.parent;
        let name = entry.name.clone();
        self.entries.insert(ino, entry);
        assert(self@.entries =~= old(self)@.entries.insert(ino, entry@));
        self.index_name(parent, name, ino);
        self.index_child(parent, ino);
        ino
    }

    /// Adds a storage as a child of root. Returns the new inode number.
    pub fn add_storage(&mut self, storage_id: StorageId, name: String) -> (ino: u64)
        requires
            old(self)@.next_inode < u64::MAX,
        ensures
            ino == old(self)@.next_inode,
            exists|time: SystemTime| final(self)@ == #[trigger] old(self)@.add(
                FUSE_ROOT_INODE,
                name@,
                InodeKind::Storage { storage_id },
                0,
                time,
            ),
    {
        let time = now();
        let kind = InodeKind::Storage { storage_id };
        let ino: u64 = self.add_entry(FUSE_ROOT_INODE, name, kind, 0, time);
        assert(self@ == old(self)@.add(FUSE_ROOT_INODE, name@, kind, 0, time));
        ino
    }

    fn add_entry(
        &mut self,
        parent: u64,
        name: String,
        kind: InodeKind,
        size: u64,
        time: SystemTime,
    ) -> (ino: u64)
        requires
            old(self)@.next_inode < u64::MAX,
        ensures
            ino == old(self)@.next_inode,
            final(self)@ == old(self)@.add(parent, name@, kind, size, time),
    {
        let ino: u64 = self.alloc_inode();
        let generation: u64 = self.generation;
        self.insert(
            InodeEntry { inode: ino, parent, name, kind, size, mtime: time, atime: time, generation },
        );
        ino
    }

    /// Adds a file or directory under the given parent. Returns the new inode number.
    pub fn add_object(
        &mut self,
        parent_inode: u64,
        handle: ObjectHandle,
        name: String,
        is_dir: bool,
        size: u64,
        mtime: SystemTime,
    ) -> (ino: u64)
        requires
            old(self)@.next_inode < u64::MAX,
        ensures
            ino == old(self)@.next_inode,
            final(self)@ == old(self)@.add(
                parent_inode,
                name@,
                object_kind(is_dir, handle),
                size,
                mtime,
            ),
    {
        self.add_entry(parent_inode, name, InodeKind::of_object(is_dir, handle), size, mtime)
    }

    /// How many entries the table holds.
    pub fn len(&self) -> (len: usize)
        ensures
            len == self@.entries.len(),
    {
        assert(self@.entries.dom() =~= self.entries@.dom());
        self.entries.len()
    }

    /// Whether `n` more inode numbers can be given out.
    pub fn has_room(&self, n: usize) -> (room: bool)
        ensures
            room == (self@.next_inode + n <= u64::MAX),
    {
        self.next_inode <= u64::MAX - n as u64
    }

    /// Whether the table can move on to a new session.
    pub fn can_bump(&self) -> (can: bool)
        ensures
            can == (self@.generation < u64::MAX),
    {
        self.generation < u64::MAX
    }

    /// Looks up an entry by inode number.
    pub fn get(&self, inode: u64) -> (entry: Option<&InodeEntry>)
        ensures
            match entry {
                Some(e) => self@.entries.contains_key(inode) && e@ == self@.entries[inode],
                None => !self@.entries.contains_key(inode),
            },
    {
        self.entries.get(&inode)
    }

    /// Mutable lookup by inode number. The indexes stay as they are, whatever is written.
    pub fn get_mut(&mut self, inode: u64) -> (entry: Option<&mut InodeEntry>)
        ensures
            match entry {
                Some(e) => {
                    &&& old(self)@.entries.contains_key(inode)
                    &&& e@ == old(self)@.entries[inode]
                    &&& final(self)@ == old(self)@.with_entry(inode, final(e)@)
                },
                None => {
                    &&& !old(self)@.entries.contains_key(inode)
                    &&& final(self)@ == old(self)@
                },
            },
    {
        value_mut(&mut self.entries, inode)
    }

    /// Finds a child inode by parent inode and name.
    pub fn lookup(&self, parent_inode: u64, name: &str) -> (ino: Option<u64>)
        ensures
            ino == self@.named(parent_inode, name@),
    {
        match self.name_index.get(&parent_inode) {
            Some(names) => match names.get(name) {
                Some(ino) => Some(*ino),
                None => None,
            },
            None => None,
        }
    }

    /// Returns the inodes of all children of the given parent.
    pub fn children(&self, parent_inode: u64) -> (inodes: Vec<u64>)
        ensures
            inodes@ == self@.kids(parent_inode),
    {
        match self.children_index.get(&parent_inode) {
            Some(list) => {
                let copy = list.clone();
                assert(copy@ =~= list@);
                copy
            },
            None => Vec::new(),
        }
    }

    /// Removes an entry and its index entries. Does not remove descendants.
    pub fn remove(&mut self, inode: u64) -> (removed: Option<InodeEntry>)
        ensures
            final(self)@ == old(self)@.remove(inode),
            match removed {
                Some(e) => old(self)@.entries.contains_key(inode) && e@
                    == old(self)@.entries[inode],
                None => !old(self)@.entries.contains_key(inode),
            },
    {
        match self.entries.remove(&inode) {
            Some(entry) => {
                assert(self@.entries =~= old(self)@.entries.remove(inode));
                self.forget_name(entry.parent, &entry.name);
                self.forget_child(entry.parent, inode);
                let ghost before = self@.children;
                self.children_index.remove(&inode);
                assert(self@.children =~= before.remove(inode));
                Some(entry)
            },
            None => None,
        }
    }

    /// Updates an entry's parent and name (for rename/move operations).
    pub fn rename(&mut self, inode: u64, new_parent: u64, new_name: String)
        ensures
            final(self)@ == old(self)@.rename(inode, new_parent, new_name@),
    {
        let (old_parent, old_name) = match value_mut(&mut self.entries, inode) {
            Some(entry) => {
                let old_parent: u64 = entry.parent;
                let old_name = entry.name.clone();
                entry.parent = new_parent;
                entry.name = new_name.clone();
                (old_parent, old_name)
            },
            None => {
                return;
            },
        };
        assert(self@.entries =~= old(self)@.rename(inode, new_parent, new_name@).entries);
        self.forget_name(old_parent, &old_name);
        self.index_name(new_parent, new_name, inode);
        self.forget_child(old_parent, inode);
        self.index_child(new_parent, inode);
    }

    /// Takes one reported child into the table.
    fn sync_child(&mut self, parent_inode: u64, child: &ChildInfo)
        requires
            old(self)@.next_inode < u64::MAX,
        ensures
            final(self)@ == old(self)@.sync_one(parent_inode, child@),
            final(self)@.next_inode <= old(self)@.next_inode + 1,
    {
        let generation: u64 = self.generation;
        let kind = InodeKind::of_object(child.is_dir, child.handle);
        match self.lookup(parent_inode, child.name.as_str()) {
            Some(ino) => {
                let same_shape = match self.get(ino) {
                    Some(entry) => entry.is_dir() == child.is_dir,
                    None => false,
                };
                if same_shape {
                    if let Some(entry) = value_mut(&mut self.entries, ino) {
                        entry.kind = kind;
                        entry.size = child.size;
                        entry.mtime = child.mtime;
                        entry.generation = generation;
                    }
                    assert(self@ =~= old(self)@.sync_one(parent_inode, child@));
                } else {
                    self.remove(ino);
                    self.add_entry(
                        parent_inode,
                        child.name.clone(),
                        kind,
                        child.size,
                        child.mtime,
                    );
                }
            },
            None => {
                self.add_entry(parent_inode, child.name.clone(), kind, child.size, child.mtime);
            },
        }
    }

    /// Whether `inode` is in the table under a name that none of `children` bears.
    fn is_unreported(&self, inode: u64, children: &[ChildInfo]) -> (gone: bool)
        ensures
            gone == self@.unreported(inode, child_views(children@)),
    {
        let entry = match self.get(inode) {
            Some(entry) => entry,
            None => {
                return false;
            },
        };
        let mut i: usize = 0;
        while i < children.len()
            invariant
                i <= children.len(),
                self@.entries.contains_key(inode),
                entry@ == self@.entries[inode],
                forall|j: int|
                    0 <= j < i ==> (#[trigger] child_views(children@)[j]).name != entry.name@,
            decreases children.len() - i,
        {
            if children[i].name == entry.name {
                assert(child_views(children@)[i as int].name == entry.name@);
                return false;
            }
            i += 1;
        }
        true
    }

    /// Replaces a directory's children with what the device just reported, **reusing the inode
    /// number** of every child that's still there under the same name and kind.
    ///
    /// Inode numbers must survive a re-listing: the kernel caches them and open file descriptors
    /// refer to them, so handing out a fresh number for a file that didn't go anywhere breaks
    /// reads on an already-open descriptor. Only the handle, size, and mtime are refreshed in
    /// place. Children the device no longer reports are removed.
    pub fn sync_children(&mut self, parent_inode: u64, children: &[ChildInfo])
        requires
            old(self)@.next_inode + children.len() <= u64::MAX,
        ensures
            final(self)@ == old(self)@.sync(parent_inode, child_views(children@)),
    {
        let ghost views = child_views(children@);
        let mut i: usize = 0;
        while i < children.len()
            invariant
                i <= children.len(),
                views == child_views(children@),
                old(self)@.next_inode + children.len() <= u64::MAX,
                self@.next_inode <= old(self)@.next_inode + i,
                self@ == old(self)@.sync_each(parent_inode, views.take(i as int)),
            decreases children.len() - i,
        {
            proof {
                assert(views.take(i + 1).drop_last() =~= views.take(i as int));
                assert(views.take(i + 1).last() == children[i as int]@);
            }
            self.sync_child(parent_inode, &children[i]);
            i += 1;
        }
        assert(views.take(i as int) =~= views);
        let ghost seen = self@;
        assert(seen == old(self)@.sync_each(parent_inode, views));

        let listed = self.children(parent_inode);
        let mut gone: Vec<u64> = Vec::new();
        let mut j: usize = 0;
        while j < listed.len()
            invariant
                j <= listed.len(),
                self@ == seen,
                views == child_views(children@),
                gone@ == seen.gone(listed@.take(j as int), views),
            decreases listed.len() - j,
        {
            assert(listed@.take(j + 1).drop_last() =~= listed@.take(j as int));
            if self.is_unreported(listed[j], children) {
                gone.push(listed[j]);
            }
            j += 1;
        }
        assert(listed@.take(j as int) =~= listed@);

        let mut k: usize = 0;
        while k < gone.len()
            invariant
                k <= gone.len(),
                self@ == seen.remove_each(gone@.take(k as int)),
            decreases gone.len() - k,
        {
            assert(gone@.take(k + 1).drop_last() =~= gone@.take(k as int));
            self.remove(gone[k]);
            k += 1;
        }
        assert(gone@.take(k as int) =~= gone@);
    }

    /// Finds the parent inode of an entry identified by its object handle. Returns `None` if the
    /// handle is not in the table; where several entries bear it, which of them is found is
    /// open.
    pub fn find_parent_by_handle(&self, handle: ObjectHandle) -> (parent: Option<u64>)
        ensures
            match parent {
                Some(p) => self@.holds_handle_in(handle, p),
                None => forall|p: u64| !#[trigger] self@.holds_handle_in(handle, p),
            },
    {
        for inode in it: self.entries.keys()
            invariant
                it.seq().unref().to_set() == self.entries@.dom(),
                forall|i: int|
                    0 <= i < it.index() ==> kind_handle(
                        self@.entries[*#[trigger] it.seq()[i]].kind,
                    ) != Some(handle),
        {
            if let Some(entry) = self.entries.get(inode) {
                if let Some(h) = entry.kind.handle() {
                    if h == handle {
                        assert(self@.entries.contains_key(*inode));
                        return Some(entry.parent);
                    }
                }
            }
        }
        None
    }
}

} // verus!
