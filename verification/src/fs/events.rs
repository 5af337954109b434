//! What the device says of its own accord.
use crate::device_error::DeviceError;
use crate::fs::state::{MountState, StateView};
use crate::inode::{InodeKind, ObjectHandle};
use vstd::prelude::*;

verus! {

broadcast use vstd::std_specs::hash::group_hash_axioms;

/// Something that changed on the device.
#[derive(Debug, Clone, Copy, PartialEq, Eq, Structural)]
pub enum DeviceEvent {
    ObjectAdded { handle: ObjectHandle },
    ObjectRemoved { handle: ObjectHandle },
    ObjectInfoChanged { handle: ObjectHandle },
    StoreAdded,
    StoreRemoved,
    StorageInfoChanged,
    /// Anything else.
    Other,
}

impl<C> StateView<C> {
    /// Whether some object in the table bears `handle`.
    pub open spec fn knows(self, handle: ObjectHandle) -> bool {
        exists|parent: u64| #[trigger] self.inodes.holds_handle_in(handle, parent)
    }

    /// Whether `inode` is a file that `handle` stands for.
    pub open spec fn is_file_of(self, inode: u64, handle: ObjectHandle) -> bool {
        self.inodes.entries.contains_key(inode) && self.inodes.entries[inode].kind
            == InodeKind::File { handle }
    }

    /// Whether `after` is this state with the listing of one directory that holds `handle` no
    /// longer current.
    pub open spec fn one_listing_dropped(self, handle: ObjectHandle, after: StateView<C>) -> bool {
        exists|parent: u64| #[trigger]
            self.inodes.holds_handle_in(handle, parent) && after == StateView {
                dirs_loaded: self.dirs_loaded.remove(parent),
                ..self
            }
    }

    /// Whether `after` is this state with the place of `handle` outdated: the listing of a
    /// directory that holds it, or all listings where the table does not know it.
    pub open spec fn place_outdated(self, handle: ObjectHandle, after: StateView<C>) -> bool {
        if self.knows(handle) {
            self.one_listing_dropped(handle, after)
        } else {
            after == self.all_dirs_invalidated()
        }
    }

    /// This state without read caches of files that `handle` stands for: they describe the file
    /// as it was.
    pub open spec fn without_caches_of(self, handle: ObjectHandle) -> StateView<C> {
        StateView {
            read_cache: self.read_cache.remove_keys(
                Set::new(|inode: u64| self.is_file_of(inode, handle)),
            ),
            ..self
        }
    }
}

impl<C> MountState<C> {
    /// Takes the listing of a directory that holds `handle` as outdated. `false` where the handle
    /// is not in the table.
    fn drop_listing_of(&mut self, handle: ObjectHandle) -> (known: bool)
        ensures
            known == old(self)@.knows(handle),
            if known {
                old(self)@.one_listing_dropped(handle, final(self)@)
            } else {
                final(self)@ == old(self)@
            },
    {
        match self.inodes.find_parent_by_handle(handle) {
            Some(parent) => {
                assert(self@.inodes.holds_handle_in(handle, parent));
                self.dirs_loaded.remove(&parent);
                true
            },
            None => {
                assert(!self@.knows(handle));
                false
            },
        }
    }

    /// Process a single device event by invalidating the relevant cache entries.
    ///
    /// An object that comes or goes might be in any directory. Where its directory is known, just
    /// that listing is taken as outdated, otherwise all of them. A fill that still runs into a
    /// dropped read cache finishes into a cache nothing reads any more.
    pub fn handle_event(&mut self, event: &DeviceEvent)
        ensures
            match *event {
                DeviceEvent::ObjectAdded { handle } => old(self)@.place_outdated(
                    handle,
                    final(self)@,
                ),
                DeviceEvent::ObjectRemoved { handle } => old(self)@.place_outdated(
                    handle,
                    final(self)@,
                ),
                DeviceEvent::ObjectInfoChanged { handle } => {
                    let kept = old(self)@.without_caches_of(handle);
                    if old(self)@.knows(handle) {
                        kept.one_listing_dropped(handle, final(self)@)
                    } else {
                        final(self)@ == kept
                    }
                },
                DeviceEvent::StoreAdded
                | DeviceEvent::StoreRemoved
                | DeviceEvent::StorageInfoChanged => final(self)@ == old(
                    self,
                )@.all_dirs_invalidated(),
                DeviceEvent::Other => final(self)@ == old(self)@,
            },
    {
        match event {
            DeviceEvent::ObjectAdded { handle } => {
                if !self.drop_listing_of(*handle) {
                    self.invalidate_all_dirs();
                }
            },
            DeviceEvent::ObjectRemoved { handle } => {
                if !self.drop_listing_of(*handle) {
                    self.invalidate_all_dirs();
                }
            },
            DeviceEvent::ObjectInfoChanged { handle } => {
                self.drop_caches_of(*handle);
                assert(self@.inodes == old(self)@.inodes);
                assert(self@.knows(*handle) == old(self)@.knows(*handle));
                self.drop_listing_of(*handle);
            },
            DeviceEvent::StoreAdded
            | DeviceEvent::StoreRemoved
            | DeviceEvent::StorageInfoChanged => {
                self.invalidate_all_dirs();
            },
            DeviceEvent::Other => {},
        }
    }

    /// Drops the read caches of files that `handle` stands for.
    fn drop_caches_of(&mut self, handle: ObjectHandle)
        ensures
            final(self)@ == old(self)@.without_caches_of(handle),
    {
        let mut stale: Vec<u64> = Vec::new();
        for inode in it: self.read_cache.keys()
            invariant
                it.seq().unref().to_set() == self.read_cache@.dom(),
                forall|i: int|
                    0 <= i < it.index() && self@.is_file_of(*#[trigger] it.seq()[i], handle)
                        ==> stale@.contains(*it.seq()[i]),
                forall|k: int|
                    0 <= k < stale@.len() ==> self@.is_file_of(#[trigger] stale@[k], handle),
        {
            let ghost before = stale@;
            if let Some(entry) = self.inodes.get(*inode) {
                if let InodeKind::File { handle: h } = entry.kind {
                    if h == handle {
                        stale.push(*inode);
                        assert(stale@.last() == *inode);
                        assert forall|x: u64| before.contains(x) implies #[trigger] stale@.contains(
                            x,
                        ) by {
                            assert(stale@[before.index_of(x)] == x);
                        }
                    }
                }
            }
        }
        let ghost all = self.read_cache@;
        proof {
            assert forall|inode: u64| all.contains_key(inode) && #[trigger] self@.is_file_of(
                inode,
                handle,
            ) implies stale@.contains(inode) by {
                assert(all.dom().contains(inode));
            }
        }
        let mut i: usize = 0;
        while i < stale.len()
            invariant
                i <= stale.len(),
                self@ == (StateView {
                    read_cache: all.remove_keys(stale@.take(i as int).to_set()),
                    ..old(self)@
                }),
            decreases stale.len() - i,
        {
            self.read_cache.remove(&stale[i]);
            i += 1;
            assert(stale@.take(i as int).to_set() =~= stale@.take(i - 1).to_set().insert(
                stale@[i - 1],
            )) by {
                let a = stale@.take(i as int);
                let b = stale@.take(i - 1);
                assert(a =~= b.push(stale@[i - 1]));
                assert forall|x: u64| a.to_set().contains(x) <==> #[trigger] b.to_set().insert(
                    stale@[i - 1],
                ).contains(x) by {
                    if b.contains(x) {
                        assert(a[b.index_of(x)] == x);
                    }
                    if x == stale@[i - 1] {
                        assert(a[i - 1] == x);
                    }
                }
            }
            assert(self.read_cache@ =~= all.remove_keys(stale@.take(i as int).to_set()));
        }
        assert(stale@.take(i as int) =~= stale@);
        assert(self.read_cache@ =~= old(self)@.without_caches_of(handle).read_cache) by {
            assert forall|inode: u64| all.contains_key(inode) implies (#[trigger] stale@.to_set().contains(
                inode,
            ) <==> old(self)@.is_file_of(inode, handle)) by {
                if stale@.contains(inode) {
                    let k = stale@.index_of(inode);
                    assert(old(self)@.is_file_of(stale@[k], handle));
                }
            }
        }
    }
}

/// What a poll for device events came back with.
#[derive(Debug)]
pub enum EventPoll {
    Event(DeviceEvent),
    Failed(DeviceError),
    /// Nothing within the time allowed.
    Elapsed,
}

/// Whether the event loop of session `epoch` goes on after a poll. It ends when its session is
/// gone, or when a reconnect has moved the mount to a newer one.
pub fn keeps_polling(poll: &EventPoll, epoch: u64, current_epoch: u64) -> (again: bool)
    ensures
        again == (epoch == current_epoch && (poll matches EventPoll::Failed(error) ==> error
            is Timeout)),
{
    if epoch != current_epoch {
        return false;
    }
    match poll {
        EventPoll::Failed(DeviceError::Timeout) => true,
        EventPoll::Failed(_) => false,
        EventPoll::Event(_) | EventPoll::Elapsed => true,
    }
}

} // verus!
