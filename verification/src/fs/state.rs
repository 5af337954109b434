//! The mutable state of a mount.
use crate::buffer::BufferView;
use crate::fs::spooled::SpooledWrites;
use crate::inode::model::TableView;
use crate::inode::{InodeTable, StorageId, FUSE_ROOT_INODE};
use std::collections::{HashMap, HashSet};
use vstd::prelude::*;

verus! {

broadcast use vstd::std_specs::hash::group_hash_axioms;

/// A storage as the device reports it.
#[derive(Debug)]
pub struct StorageFacts {
    pub id: StorageId,
    pub description: String,
    pub total_capacity: u64,
    pub free_space: u64,
}

/// A [`StorageFacts`], with its description as a sequence of characters.
#[verifier::ext_equal]
pub struct StorageView {
    pub id: StorageId,
    pub description: Seq<char>,
    pub total_capacity: u64,
    pub free_space: u64,
}

impl View for StorageFacts {
    type V = StorageView;

    open spec fn view(&self) -> StorageView {
        StorageView {
            id: self.id,
            description: self.description@,
            total_capacity: self.total_capacity,
            free_space: self.free_space,
        }
    }
}

pub open spec fn storage_views(storages: Seq<StorageFacts>) -> Seq<StorageView> {
    Seq::new(storages.len(), |i: int| storages[i]@)
}

/// What a mount remembers between operations. `C` is what stands for an object's read cache.
pub struct MountState<C> {
    pub storages: Vec<StorageFacts>,
    pub inodes: InodeTable,
    pub write_buf: SpooledWrites,
    /// One sparse cache per *open object*, keyed by inode rather than by file handle: two file
    /// descriptors on the same file share the bytes, and on the whole-object path they share the
    /// single download instead of racing two.
    pub read_cache: HashMap<u64, C>,
    /// Directories whose listing is current.
    pub dirs_loaded: HashSet<u64>,
    pub fh_to_inode: HashMap<u64, u64>,
    pub next_fh: u64,
    pub read_only: bool,
    /// Ceiling on the whole-object fallback, in bytes (`0` lifts it).
    pub full_download_limit: u64,
}

/// What a mount remembers, as mathematical values.
#[verifier::ext_equal]
#[verifier::reject_recursive_types(C)]
pub struct StateView<C> {
    pub storages: Seq<StorageView>,
    pub inodes: TableView,
    pub write_buf: Map<u64, BufferView>,
    pub read_cache: Map<u64, C>,
    pub dirs_loaded: Set<u64>,
    pub fh_to_inode: Map<u64, u64>,
    pub next_fh: int,
    pub read_only: bool,
    pub full_download_limit: u64,
}

impl<C> View for MountState<C> {
    type V = StateView<C>;

    open spec fn view(&self) -> StateView<C> {
        StateView {
            storages: storage_views(self.storages@),
            inodes: self.inodes@,
            write_buf: self.write_buf@,
            read_cache: self.read_cache@,
            dirs_loaded: self.dirs_loaded@,
            fh_to_inode: self.fh_to_inode@,
            next_fh: self.next_fh as int,
            read_only: self.read_only,
            full_download_limit: self.full_download_limit,
        }
    }
}

impl<C> StateView<C> {
    /// Whether some open file handle belongs to `inode`.
    pub open spec fn is_held_open(self, inode: u64) -> bool {
        self.fh_to_inode.values().contains(inode)
    }

    /// The state with every cached object handle made stale, and no listing but the root's
    /// current.
    pub open spec fn invalidated(self) -> StateView<C> {
        StateView {
            inodes: self.inodes.bumped(),
            dirs_loaded: Set::empty().insert(FUSE_ROOT_INODE),
            ..self
        }
    }

    /// The state with no listing current but the root's, if that was.
    pub open spec fn all_dirs_invalidated(self) -> StateView<C> {
        StateView {
            dirs_loaded: self.dirs_loaded.intersect(Set::empty().insert(FUSE_ROOT_INODE)),
            ..self
        }
    }

    /// The state after the read cache of `inode` had its chance to go: it goes once nothing holds
    /// the file open, unless its whole-object fill is still `filling`.
    pub open spec fn cache_dropped(self, inode: u64, filling: bool) -> StateView<C> {
        if self.is_held_open(inode) || (filling && self.read_cache.contains_key(inode)) {
            self
        } else {
            StateView { read_cache: self.read_cache.remove(inode), ..self }
        }
    }
}

impl<C> MountState<C> {
    /// A mount that has seen nothing yet.
    pub fn new(read_only: bool, full_download_limit: u64) -> (state: Self)
        ensures
            state@ == (StateView::<C> {
                storages: Seq::empty(),
                inodes: TableView::initial(),
                write_buf: Map::empty(),
                read_cache: Map::empty(),
                dirs_loaded: Set::empty(),
                fh_to_inode: Map::empty(),
                next_fh: 1,
                read_only,
                full_download_limit,
            }),
    {
        let state = MountState {
            storages: Vec::new(),
            inodes: InodeTable::new(),
            write_buf: SpooledWrites::new(),
            read_cache: HashMap::new(),
            dirs_loaded: HashSet::new(),
            fh_to_inode: HashMap::new(),
            next_fh: 1,
            read_only,
            full_download_limit,
        };
        assert(state@.storages =~= Seq::empty());
        state
    }

    /// Marks every cached object handle stale so the next use re-resolves it by path, and drops
    /// the cached listings that produced them.
    ///
    /// Whole-table rather than just the inode that failed, for two reasons. A device that re-keys
    /// re-keys in batches, so the neighbours are suspect too. And marking is free: re-resolution
    /// is lazy, so the only inodes that pay for a listing are the ones something actually touches
    /// again.
    pub fn invalidate_handles(&mut self)
        requires
            old(self)@.inodes.generation < u64::MAX,
        ensures
            final(self)@ == old(self)@.invalidated(),
    {
        self.inodes.bump_generation();
        self.dirs_loaded.clear();
        self.dirs_loaded.insert(FUSE_ROOT_INODE);
    }

    /// Mark all cached directories as stale so they're re-fetched on next access.
    pub fn invalidate_all_dirs(&mut self)
        ensures
            final(self)@ == old(self)@.all_dirs_invalidated(),
    {
        let root = self.dirs_loaded.contains(&FUSE_ROOT_INODE);
        self.dirs_loaded.clear();
        if root {
            self.dirs_loaded.insert(FUSE_ROOT_INODE);
        }
        assert(self@ =~= old(self)@.all_dirs_invalidated());
    }

    /// Whether some open file handle belongs to `inode`.
    pub fn holds_open(&self, inode: u64) -> (held: bool)
        ensures
            held == self@.is_held_open(inode),
    {
        for open in it: self.fh_to_inode.values()
            invariant
                it.seq().unref().to_set() == self.fh_to_inode@.values(),
                forall|i: int| 0 <= i < it.index() ==> *#[trigger] it.seq()[i] != inode,
        {
            if *open == inode {
                assert(it.seq().unref().to_set().contains(inode)) by {
                    assert(it.seq().unref()[it.index()] == inode);
                }
                return true;
            }
        }
        false
    }

    /// Drop an object's read cache once nothing holds the file open.
    ///
    /// A cache whose whole-object fill is still running stays: the transfer must not be abandoned,
    /// and a reopen while it runs joins it instead of starting a second download of the same
    /// object. A cache with no fill running (every ranged read, and a finished fill) goes right
    /// away, so reopening a file re-reads it from the device rather than serving bytes of unknown
    /// age.
    pub fn drop_read_cache_if_unused(&mut self, inode: u64, filling: bool)
        ensures
            final(self)@ == old(self)@.cache_dropped(inode, filling),
    {
        if self.holds_open(inode) {
            return;
        }
        if filling && self.read_cache.contains_key(&inode) {
            return;
        }
        self.read_cache.remove(&inode);
    }
}

} // verus!
