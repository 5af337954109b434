//! What the filesystem's calls promise together.
use crate::buffer::{read_gives_back_the_write, slice_at, BufferView};
use crate::fs::attr::FileKind;
use crate::fs::errno::Errno;
use crate::fs::operation::calls::held_handle;
use crate::fs::operation::model::RequestView;
use crate::fs::rename::RenameView;
use crate::fs::state::StateView;
use crate::fs::{strategy_for, ReadStrategy};
use crate::inode::laws::add_keeps_tidy;
use crate::inode::model::{kind_handle, object_kind};
use crate::inode::{InodeKind, ObjectHandle};
use std::time::SystemTime;
use vstd::prelude::*;

verus! {

/// Where the names of a directory lead to entries, every lookup in it can be answered.
pub proof fn leading_names_answer_every_lookup<C>(state: StateView<C>, parent: u64, name: Seq<char>)
    requires
        state.inodes.names_lead(parent),
    ensures
        state.findable(parent, name),
{
    if state.inodes.names.contains_key((parent, name)) {
        assert(state.inodes.name_leads(parent, name));
    }
}

/// A new file is found by its name, fresh, and open under the handle that was given out, with
/// nothing spooled where that handle had no spool. Under a name that was free in an existing
/// directory it keeps a tidy table tidy.
pub proof fn created_files_are_found<C>(
    state: StateView<C>,
    parent: u64,
    name: Seq<char>,
    handle: ObjectHandle,
    now: SystemTime,
)
    requires
        0 <= state.inodes.next_inode < u64::MAX,
        0 <= state.next_fh <= u64::MAX,
    ensures
        ({
            let after = state.with_new_file(parent, name, handle, now);
            let ino = state.inodes.next_inode as u64;
            let fh = state.next_fh as u64;
            &&& after.inodes.named(parent, name) == Some(ino)
            &&& after.inodes.entries[ino].kind == object_kind(false, handle)
            &&& after.inodes.fresh(ino)
            &&& after.fh_to_inode.contains_key(fh)
            &&& after.fh_to_inode[fh] == ino
            &&& after.write_buf.contains_key(fh)
            &&& !state.write_buf.contains_key(fh) ==> after.write_buf[fh] == BufferView::empty(
                ino,
                0,
            )
            &&& state.inodes.tidy() && state.inodes.entries.contains_key(parent)
                && state.inodes.named(parent, name) is None ==> after.inodes.tidy()
        }),
{
    if state.inodes.tidy() && state.inodes.entries.contains_key(parent) && state.inodes.named(
        parent,
        name,
    ) is None {
        add_keeps_tidy(state.inodes, parent, name, object_kind(false, handle), 0, now);
    }
}

/// A new folder is found by its name, fresh. Under a name that was free in an existing directory it
/// keeps a tidy table tidy.
pub proof fn created_folders_are_found<C>(
    state: StateView<C>,
    parent: u64,
    name: Seq<char>,
    handle: ObjectHandle,
    now: SystemTime,
)
    requires
        0 <= state.inodes.next_inode < u64::MAX,
    ensures
        ({
            let after = state.inodes.add(parent, name, object_kind(true, handle), 0, now);
            let ino = state.inodes.next_inode as u64;
            &&& after.named(parent, name) == Some(ino)
            &&& after.entries[ino].kind == object_kind(true, handle)
            &&& after.fresh(ino)
            &&& after.has_shape(ino, true)
            &&& state.inodes.tidy() && state.inodes.entries.contains_key(parent)
                && state.inodes.named(parent, name) is None ==> after.tidy()
        }),
{
    if state.inodes.tidy() && state.inodes.entries.contains_key(parent) && state.inodes.named(
        parent,
        name,
    ) is None {
        add_keeps_tidy(state.inodes, parent, name, object_kind(true, handle), 0, now);
    }
}

/// What is written through a handle is what a read through it gives back and what its close has to
/// upload. No other handle, and nothing else of the mount, is touched.
pub proof fn writes_are_read_back<C>(
    state: StateView<C>,
    inode: u64,
    fh: u64,
    offset: int,
    data: Seq<u8>,
)
    requires
        0 <= offset,
    ensures
        ({
            let after = state.with_written(inode, fh, offset, data);
            &&& after.write_buf.contains_key(fh)
            &&& after.write_buf[fh].dirty
            &&& slice_at(after.write_buf[fh].data, offset, data.len() as int) == data
            &&& after == (StateView { write_buf: after.write_buf, ..state })
            &&& forall|other: u64|
                #![trigger after.write_buf.contains_key(other)]
                #![trigger after.write_buf[other]]
                other != fh ==> (after.write_buf.contains_key(other)
                    <==> state.write_buf.contains_key(other)) && (state.write_buf.contains_key(
                    other,
                ) ==> after.write_buf[other] == state.write_buf[other])
        }),
{
    let opened = state.with_buffer(fh, inode, state.known_size(inode));
    read_gives_back_the_write(opened.write_buf[fh].data, offset, data);
}

/// A read-only mount refuses whatever would change the device, before the device is asked.
pub proof fn a_read_only_mount_changes_nothing<C>(
    state: StateView<C>,
    parent: u64,
    name: Option<Seq<char>>,
    new_parent: u64,
    new_name: Option<Seq<char>>,
)
    requires
        state.read_only,
    ensures
        state.creation_error(parent, name) == Some(Errno::EROFS),
        state.target(parent, name) == Err::<u64, _>(Errno::EROFS),
        state.rename_start(parent, name, new_parent, new_name) == Err::<RenameView, _>(
            Errno::EROFS,
        ),
{
}

/// Whatever a device can read in parts is never too large, and a limit of zero lifts the ceiling
/// for every other.
pub proof fn the_ceiling_can_be_lifted(supports_partial_download: bool, size: u64, limit: u64)
    requires
        supports_partial_download || limit == 0 || size <= limit,
    ensures
        strategy_for(supports_partial_download, size, limit)
            != ReadStrategy::TooLargeForSequentialFull,
{
}

/// A device is asked for ranges exactly where it can send them. Any other is asked for the whole
/// object, exactly where that is within the limit or there is none, and for nothing above it.
pub proof fn devices_are_read_as_they_can_be(
    supports_partial_download: bool,
    size: u64,
    limit: u64,
)
    ensures
        ({
            let strategy = strategy_for(supports_partial_download, size, limit);
            &&& strategy == ReadStrategy::Ranged <==> supports_partial_download
            &&& strategy == ReadStrategy::SequentialFull <==> !supports_partial_download && (limit
                == 0 || size <= limit)
            &&& strategy == ReadStrategy::TooLargeForSequentialFull <==> !supports_partial_download
                && 0 < limit < size
        }),
{
}

/// A rename that starts is about what the old name stands for. The device is asked to rename it
/// exactly where the name changes, to the new name, and then to move it exactly where the directory
/// changes, to the new one; after that nothing is left to ask. What it is about stays the same.
pub proof fn renames_reach_the_device<C>(
    state: StateView<C>,
    parent: u64,
    name: Seq<char>,
    new_parent: u64,
    new_name: Seq<char>,
)
    requires
        state.rename_start(parent, Some(name), new_parent, Some(new_name)) is Ok,
    ensures
        ({
            let run = state.rename_start(parent, Some(name), new_parent, Some(new_name))->Ok_0;
            let child = state.inodes.names[(parent, name)];
            let rename = RequestView::Rename { inode: child, name: new_name };
            let move_it = RequestView::Move { inode: child, new_parent };
            let then = run.after_request();
            let last = then.after_request();
            &&& state.inodes.names.contains_key((parent, name))
            &&& run.child == child && run.new_parent == new_parent && run.new_name == new_name
            &&& then.child == child && then.new_parent == new_parent && then.new_name == new_name
            &&& last.child == child && last.new_parent == new_parent && last.new_name == new_name
            &&& run.next_request() == if name != new_name {
                Some(rename)
            } else if parent != new_parent {
                Some(move_it)
            } else {
                None
            }
            &&& then.next_request() == if name != new_name && parent != new_parent {
                Some(move_it)
            } else {
                None
            }
            &&& last.next_request() is None
        }),
{
}

/// When a rename starts: for a file or folder that has the old name, into a directory. Each other
/// case has its own error.
pub proof fn renames_need_an_object_and_a_place<C>(
    state: StateView<C>,
    parent: u64,
    name: Option<Seq<char>>,
    new_parent: u64,
    new_name: Option<Seq<char>>,
)
    ensures
        ({
            let start = state.rename_start(parent, name, new_parent, new_name);
            let child = state.inodes.names[(parent, name->0)];
            let kind = state.inodes.entries[child].kind;
            let there = state.inodes.entries.contains_key(new_parent)
                && !(state.inodes.entries[new_parent].kind is File);
            if state.read_only {
                start == Err::<RenameView, _>(Errno::EROFS)
            } else if name is None {
                start == Err::<RenameView, _>(Errno::ENOENT)
            } else if new_name is None {
                start == Err::<RenameView, _>(Errno::EINVAL)
            } else if !state.inodes.names.contains_key((parent, name->0)) {
                start == Err::<RenameView, _>(Errno::ENOENT)
            } else if !state.inodes.entries.contains_key(child) || !(kind is File
                || kind is Directory) {
                start == Err::<RenameView, _>(Errno::EINVAL)
            } else if parent != new_parent && !there {
                start == Err::<RenameView, _>(Errno::ENOTDIR)
            } else {
                start is Ok
            }
        }),
{
}

/// Renaming something to the place and the name it has asks nothing of the device.
pub proof fn renaming_in_place_asks_nothing<C>(state: StateView<C>, parent: u64, name: Seq<char>)
    ensures
        match state.rename_start(parent, Some(name), parent, Some(name)) {
            Ok(run) => run.next_request() is None,
            Err(_) => true,
        },
{
}

/// What can be opened: a file, unless it is to be read and the device can only send it as a whole
/// although it is above the limit.
pub proof fn files_are_opened_unless_they_cannot_be_read<C>(
    state: StateView<C>,
    inode: u64,
    write_only: bool,
    supports_partial_download: bool,
)
    ensures
        ({
            let refused = state.open_error(inode, write_only, supports_partial_download);
            let entry = state.inodes.entries[inode];
            let limit = state.full_download_limit;
            if !state.inodes.entries.contains_key(inode) {
                refused == Some(Errno::ENOENT)
            } else if !(entry.kind is File) {
                refused == Some(Errno::EISDIR)
            } else if !write_only && !supports_partial_download && 0 < limit < entry.size {
                refused == Some(Errno::EFBIG)
            } else {
                refused is None
            }
        }),
{
}

/// A file that is opened gets a handle that leads to it, and the next one gets another; every other
/// handle leads where it did, and nothing else changes.
pub proof fn handles_lead_to_their_files<C>(state: StateView<C>, inode: u64)
    requires
        0 <= state.next_fh <= u64::MAX,
    ensures
        ({
            let fh = state.next_fh as u64;
            let after = state.with_open_file(inode);
            &&& after.fh_to_inode.contains_key(fh) && after.fh_to_inode[fh] == inode
            &&& after.next_fh != state.next_fh
            &&& 0 <= after.next_fh <= u64::MAX
            &&& state.next_fh < u64::MAX ==> after.next_fh > state.next_fh
            &&& forall|other: u64|
                #![trigger after.fh_to_inode.contains_key(other)]
                #![trigger after.fh_to_inode[other]]
                other != fh ==> (after.fh_to_inode.contains_key(other)
                    <==> state.fh_to_inode.contains_key(other)) && (state.fh_to_inode.contains_key(
                    other,
                ) ==> after.fh_to_inode[other] == state.fh_to_inode[other])
            &&& after == (StateView {
                fh_to_inode: after.fh_to_inode,
                next_fh: after.next_fh,
                ..state
            })
        }),
{
}

/// Where something new can be made: in a directory of a mount that can be written, under a name that
/// is text. What can be deleted: what a name stands for, on such a mount.
pub proof fn changes_need_a_place_and_a_name<C>(
    state: StateView<C>,
    parent: u64,
    name: Option<Seq<char>>,
)
    ensures
        ({
            let there = state.inodes.entries.contains_key(parent)
                && !(state.inodes.entries[parent].kind is File);
            let named = name is Some && state.inodes.names.contains_key((parent, name->0));
            &&& state.creation_error(parent, name) == if state.read_only {
                Some(Errno::EROFS)
            } else if name is None {
                Some(Errno::EINVAL)
            } else if !there {
                Some(Errno::ENOTDIR)
            } else {
                None
            }
            &&& state.target(parent, name) == if state.read_only {
                Err::<u64, _>(Errno::EROFS)
            } else if !named {
                Err(Errno::ENOENT)
            } else {
                Ok(state.inodes.names[(parent, name->0)])
            }
        }),
{
}

/// What is looked up is the entry that the name stands for, or nothing where it stands for none.
pub proof fn lookups_answer_for_their_name<C>(
    state: StateView<C>,
    parent: u64,
    name: Seq<char>,
    uid: u32,
    gid: u32,
)
    ensures
        match state.looked_up(parent, name, uid, gid) {
            Ok(attr) => {
                let entry = state.inodes.entries[state.inodes.names[(parent, name)]];
                &&& state.inodes.names.contains_key((parent, name))
                &&& attr.ino == entry.inode
                &&& attr.size == entry.size
                &&& attr.mtime == entry.mtime
                &&& attr.atime == entry.atime
                &&& attr.uid == uid
                &&& attr.gid == gid
                &&& attr.kind == FileKind::RegularFile <==> entry.kind is File
            },
            Err(e) => !state.inodes.names.contains_key((parent, name)) && e == Errno::ENOENT,
        },
{
}

/// What truncating a file through a handle does: to nothing, it leaves nothing spooled. To any other
/// size it leaves what is spooled as it is, and starts an empty spool where there is none. No other
/// handle is touched.
pub proof fn truncations_empty_the_spool<C>(state: StateView<C>, inode: u64, fh: u64, size: u64)
    ensures
        ({
            let after = state.with_size_set(inode, fh, size);
            &&& after.write_buf.contains_key(fh)
            &&& size == 0 || !state.write_buf.contains_key(fh) ==> {
                &&& after.write_buf[fh].data.len() == 0
                &&& !after.write_buf[fh].dirty
                &&& after.write_buf[fh].inode == inode
            }
            &&& size > 0 && state.write_buf.contains_key(fh) ==> after.write_buf[fh]
                == state.write_buf[fh]
            &&& after == (StateView { write_buf: after.write_buf, ..state })
            &&& forall|other: u64|
                #![trigger after.write_buf.contains_key(other)]
                #![trigger after.write_buf[other]]
                other != fh ==> (after.write_buf.contains_key(other)
                    <==> state.write_buf.contains_key(other)) && (state.write_buf.contains_key(
                    other,
                ) ==> after.write_buf[other] == state.write_buf[other])
        }),
{
}

/// What is written goes behind or over what was spooled before: every earlier byte that the write
/// does not cover stays, and nothing but zeros is between them. The spool stays that of its file.
pub proof fn writes_keep_what_they_do_not_cover<C>(
    state: StateView<C>,
    inode: u64,
    fh: u64,
    offset: int,
    data: Seq<u8>,
    i: int,
)
    requires
        0 <= offset,
        0 <= i,
    ensures
        ({
            let before = if state.write_buf.contains_key(fh) {
                state.write_buf[fh].data
            } else {
                Seq::empty()
            };
            let after = state.with_written(inode, fh, offset, data).write_buf[fh];
            &&& after.data.len() == if offset + data.len() > before.len() {
                offset + data.len()
            } else {
                before.len() as int
            }
            &&& i < before.len() && !(offset <= i < offset + data.len()) ==> after.data[i]
                == before[i]
            &&& before.len() <= i < offset ==> after.data[i] == 0
            &&& after.inode == if state.write_buf.contains_key(fh) {
                state.write_buf[fh].inode
            } else {
                inode
            }
        }),
{
}

/// A new file changes nothing of any other.
pub proof fn new_files_leave_the_others_alone<C>(
    state: StateView<C>,
    parent: u64,
    name: Seq<char>,
    handle: ObjectHandle,
    now: SystemTime,
    other: u64,
)
    requires
        0 <= state.inodes.next_inode < u64::MAX,
        0 <= state.next_fh <= u64::MAX,
    ensures
        ({
            let after = state.with_new_file(parent, name, handle, now);
            let ino = state.inodes.next_inode as u64;
            let entry = after.inodes.entries[ino];
            &&& entry.size == 0 && entry.mtime == now && entry.parent == parent && entry.name == name
            &&& entry.inode == ino
            &&& entry.kind == InodeKind::File { handle }
            &&& other != ino && state.inodes.entries.contains_key(other)
                ==> after.inodes.entries[other] == state.inodes.entries[other]
            &&& other != state.next_fh ==> (after.write_buf.contains_key(other)
                <==> state.write_buf.contains_key(other)) && after.fh_to_inode.contains_key(other)
                == state.fh_to_inode.contains_key(other)
            &&& after.read_cache == state.read_cache
            &&& after.dirs_loaded == state.dirs_loaded
            &&& after.storages == state.storages
            &&& after.next_fh != state.next_fh
        }),
{
}

/// Which directories are listed before they are looked into: all but the root, until their listing
/// was taken in. A reconnect and a stale handle have every directory listed anew, and make no handle
/// current that was not; so does any change of a storage, which leaves the handles alone.
pub proof fn outdated_directories_are_listed<C>(state: StateView<C>, dir: u64)
    ensures
        state.must_list(dir) <==> dir != 1 && !state.dirs_loaded.contains(dir),
        state.invalidated().must_list(dir) <==> dir != 1,
        state.all_dirs_invalidated().must_list(dir) <==> dir != 1,
        state.all_dirs_invalidated().inodes == state.inodes,
        state.all_dirs_invalidated() == (StateView {
            dirs_loaded: state.all_dirs_invalidated().dirs_loaded,
            ..state
        }),
        state.invalidated().inodes.entries == state.inodes.entries,
        state.invalidated().inodes.generation == (state.inodes.generation + 1) as u64,
        state.invalidated() == (StateView {
            inodes: state.invalidated().inodes,
            dirs_loaded: state.invalidated().dirs_loaded,
            ..state
        }),
{
}

/// A read cache goes once no handle leads to its file any more, and then it goes, unless it is still
/// being filled. No other cache goes with it.
pub proof fn read_caches_go_with_the_last_handle<C>(
    state: StateView<C>,
    inode: u64,
    filling: bool,
    fh: u64,
    other: u64,
)
    ensures
        ({
            let after = state.cache_dropped(inode, filling);
            &&& state.fh_to_inode.contains_key(fh) && state.fh_to_inode[fh] == inode ==> after
                == state
            &&& filling ==> after.read_cache == state.read_cache
            &&& (forall|open: u64| #[trigger]
                state.fh_to_inode.contains_key(open) ==> state.fh_to_inode[open] != inode)
                && !filling ==> !after.read_cache.contains_key(inode)
            &&& other != inode ==> after.read_cache.contains_key(other)
                == state.read_cache.contains_key(other) && (state.read_cache.contains_key(other)
                ==> after.read_cache[other] == state.read_cache[other])
            &&& after == (StateView { read_cache: after.read_cache, ..state })
        }),
{
    let after = state.cache_dropped(inode, filling);
    if state.fh_to_inode.contains_key(fh) && state.fh_to_inode[fh] == inode {
        assert(state.fh_to_inode.values().contains(inode));
    }
    if filling && !state.read_cache.contains_key(inode) {
        assert(state.read_cache.remove(inode) =~= state.read_cache);
    }
}

/// What an object that came or went outdates: the listing of a directory in which the table holds
/// the object's handle, and no other; or every listing, where it holds the handle nowhere.
pub proof fn events_outdate_the_place_of_their_object<C>(
    state: StateView<C>,
    handle: ObjectHandle,
    after: StateView<C>,
)
    requires
        state.place_outdated(handle, after),
    ensures
        after == (StateView { dirs_loaded: after.dirs_loaded, ..state }),
        (exists|ino: u64| #[trigger] held_handle(state.inodes, ino) == Some(handle)) ==> exists|
            ino: u64,
        | #[trigger]
            held_handle(state.inodes, ino) == Some(handle) && after.dirs_loaded
                == state.dirs_loaded.remove(state.inodes.entries[ino].parent),
        (forall|ino: u64| #[trigger] held_handle(state.inodes, ino) != Some(handle)) ==> forall|
            dir: u64,
        | #[trigger]
            after.dirs_loaded.contains(dir) <==> dir == 1 && state.dirs_loaded.contains(dir),
{
    if state.knows(handle) {
        let parent = choose|parent: u64| #[trigger]
            state.inodes.holds_handle_in(handle, parent) && after == StateView {
                dirs_loaded: state.dirs_loaded.remove(parent),
                ..state
            };
        let ino = choose|ino: u64| #[trigger]
            state.inodes.entries.contains_key(ino) && kind_handle(state.inodes.entries[ino].kind)
                == Some(handle) && state.inodes.entries[ino].parent == parent;
        assert(held_handle(state.inodes, ino) == Some(handle));
    } else {
        assert forall|ino: u64| #[trigger]
            held_handle(state.inodes, ino) != Some(handle) by {
            if held_handle(state.inodes, ino) == Some(handle) {
                let parent = state.inodes.entries[ino].parent;
                assert(state.inodes.entries.contains_key(ino));
                assert(state.inodes.holds_handle_in(handle, parent));
            }
        }
    }
}

/// What a change of an object drops: the read cache of every file that has its handle, and no other.
pub proof fn changed_objects_lose_their_cache<C>(
    state: StateView<C>,
    handle: ObjectHandle,
    inode: u64,
)
    ensures
        ({
            let after = state.without_caches_of(handle);
            let is_it = state.inodes.entries.contains_key(inode) && state.inodes.entries[inode].kind
                == (InodeKind::File { handle });
            &&& is_it ==> !after.read_cache.contains_key(inode)
            &&& !is_it ==> after.read_cache.contains_key(inode) == state.read_cache.contains_key(
                inode,
            ) && (state.read_cache.contains_key(inode) ==> after.read_cache[inode]
                == state.read_cache[inode])
            &&& after == (StateView { read_cache: after.read_cache, ..state })
        }),
{
}

/// A spool that is started is empty, and knows its file and the size that the file had: what its entry
/// says, or nothing where it has none. One that is there already stays.
pub proof fn spools_know_their_file<C>(
    state: StateView<C>,
    inode: u64,
    fh: u64,
    original_size: u64,
    offset: int,
    data: Seq<u8>,
)
    ensures
        ({
            let after = state.with_buffer(fh, inode, original_size);
            &&& after.write_buf.contains_key(fh)
            &&& state.write_buf.contains_key(fh) ==> after == state
            &&& !state.write_buf.contains_key(fh) ==> after.write_buf[fh] == (BufferView {
                inode,
                original_size,
                data: Seq::empty(),
                dirty: false,
            })
        }),
        state.inodes.entries.contains_key(inode) ==> state.known_size(inode)
            == state.inodes.entries[inode].size,
        !state.inodes.entries.contains_key(inode) ==> state.known_size(inode) == 0,
        !state.write_buf.contains_key(fh) ==> state.with_written(
            inode,
            fh,
            offset,
            data,
        ).write_buf[fh].original_size == state.known_size(inode),
        state.write_buf.contains_key(fh) ==> state.with_written(inode, fh, offset, data)
            == state.recorded(fh, offset, data),
{
}

} // verus!
