//! Taking over a device: the first session of a mount, and every one after a reconnect.
use crate::fs::operation::laws::{same_mount, same_tree};
use crate::fs::state::{storage_views, MountState, StateView, StorageFacts, StorageView};
use crate::fs::{shown_name, storage_name};
use crate::inode::model::{kind_handle, TableView};
use crate::inode::{InodeKind, StorageId, FUSE_ROOT_INODE};
use std::time::SystemTime;
use vstd::prelude::*;

verus! {

broadcast use vstd::std_specs::hash::group_hash_axioms;

/// The table with every storage added below the root, each at its time.
pub open spec fn with_storages(
    table: TableView,
    storages: Seq<StorageView>,
    times: Seq<SystemTime>,
) -> TableView
    decreases storages.len(),
{
    if storages.len() == 0 {
        table
    } else {
        let storage = storages.last();
        with_storages(table, storages.drop_last(), times).add(
            FUSE_ROOT_INODE,
            shown_name(storage),
            InodeKind::Storage { storage_id: storage.id },
            0,
            times[storages.len() - 1],
        )
    }
}

/// The first storage shown under `name`.
pub open spec fn first_shown_as(storages: Seq<StorageView>, name: Seq<char>) -> Option<StorageId>
    decreases storages.len(),
{
    if storages.len() == 0 {
        None
    } else if shown_name(storages[0]) == name {
        Some(storages[0].id)
    } else {
        first_shown_as(storages.drop_first(), name)
    }
}

/// Which storage of a new session an old one called `name` is: the first of that name, or the one
/// in the same place (a device that reports no description has the old number in the name).
pub open spec fn successor(
    storages: Seq<StorageView>,
    name: Seq<char>,
    position: int,
) -> Option<StorageId> {
    match first_shown_as(storages, name) {
        Some(id) => Some(id),
        None => if position < storages.len() {
            Some(storages[position].id)
        } else {
            None
        },
    }
}

/// The table with the first `n` storages in `kids` re-pointed into a new session.
pub open spec fn remapped(
    table: TableView,
    kids: Seq<u64>,
    storages: Seq<StorageView>,
    n: nat,
) -> TableView
    decreases n,
{
    if n == 0 {
        table
    } else {
        let before = remapped(table, kids, storages, (n - 1) as nat);
        let kid = kids[n - 1];
        if !before.entries.contains_key(kid) {
            before
        } else {
            match successor(storages, before.entries[kid].name, n - 1) {
                Some(id) => before.set_storage_id(kid, id),
                None => before,
            }
        }
    }
}

impl<C> StateView<C> {
    /// The state in a new session whose device reports `storages`.
    pub open spec fn adopted(self, storages: Seq<StorageView>) -> StateView<C> {
        let kids = self.inodes.kids(FUSE_ROOT_INODE);
        StateView {
            storages,
            inodes: remapped(self.inodes, kids, storages, kids.len()),
            ..self
        }.invalidated()
    }
}

fn find_shown_as(storages: &Vec<StorageFacts>, name: &String) -> (found: Option<StorageId>)
    ensures
        found == first_shown_as(storage_views(storages@), name@),
{
    let ghost views = storage_views(storages@);
    let mut i: usize = 0;
    assert(views.subrange(0, views.len() as int) =~= views);
    while i < storages.len()
        invariant
            i <= storages.len(),
            views == storage_views(storages@),
            first_shown_as(views, name@) == first_shown_as(
                views.subrange(i as int, views.len() as int),
                name@,
            ),
        decreases storages.len() - i,
    {
        assert(views.subrange(i as int, views.len() as int).drop_first() =~= views.subrange(
            i + 1,
            views.len() as int,
        ));
        if storage_name(&storages[i]) == *name {
            return Some(storages[i].id);
        }
        i += 1;
    }
    None
}

impl<C> MountState<C> {
    /// Takes over the storages of a mount's first session: each becomes a directory of the root,
    /// dated when it is added.
    pub fn init(&mut self, storages: Vec<StorageFacts>)
        requires
            old(self)@.inodes.next_inode + storages.len() <= u64::MAX,
        ensures
            exists|times: Seq<SystemTime>|
                final(self)@ == (StateView {
                    inodes: #[trigger] with_storages(
                        old(self)@.inodes,
                        storage_views(storages@),
                        times,
                    ),
                    storages: storage_views(storages@),
                    dirs_loaded: old(self)@.dirs_loaded.insert(FUSE_ROOT_INODE),
                    ..old(self)@
                }),
    {
        let ghost views = storage_views(storages@);
        let ghost mut times: Seq<SystemTime> = Seq::empty();
        let mut i: usize = 0;
        while i < storages.len()
            invariant
                i <= storages.len(),
                views == storage_views(storages@),
                times.len() == i,
                old(self)@.inodes.next_inode + storages.len() <= u64::MAX,
                self@.inodes.next_inode == old(self)@.inodes.next_inode + i,
                self@ == (StateView {
                    inodes: with_storages(old(self)@.inodes, views.take(i as int), times),
                    ..old(self)@
                }),
            decreases storages.len() - i,
        {
            let ghost before = self@.inodes;
            self.inodes.add_storage(storages[i].id, storage_name(&storages[i]));
            proof {
                let kind = InodeKind::Storage { storage_id: views[i as int].id };
                let name = shown_name(views[i as int]);
                let time = choose|time: SystemTime|
                    self@.inodes == #[trigger] before.add(FUSE_ROOT_INODE, name, kind, 0, time);
                let longer = times.push(time);
                assert(views.take(i + 1).drop_last() =~= views.take(i as int));
                lemma_later_times(old(self)@.inodes, views.take(i as int), times, longer);
                times = longer;
            }
            i += 1;
        }
        assert(views.take(i as int) =~= views);
        self.dirs_loaded.insert(FUSE_ROOT_INODE);
        self.storages = storages;
    }

    /// Takes over a freshly opened device: re-maps storages, and marks every cached object handle
    /// stale.
    ///
    /// Inode numbers, names, the tree shape, open file handles, read caches, and write buffers all
    /// survive untouched. Only the session-scoped tokens change.
    pub fn adopt(&mut self, storages: Vec<StorageFacts>)
        requires
            old(self)@.inodes.generation < u64::MAX,
        ensures
            final(self)@ == old(self)@.adopted(storage_views(storages@)),
    {
        let ghost views = storage_views(storages@);
        let kids = self.inodes.children(FUSE_ROOT_INODE);
        let mut i: usize = 0;
        while i < kids.len()
            invariant
                i <= kids.len(),
                views == storage_views(storages@),
                kids@ == old(self)@.inodes.kids(FUSE_ROOT_INODE),
                self@ == (StateView {
                    inodes: remapped(old(self)@.inodes, kids@, views, i as nat),
                    ..old(self)@
                }),
                self@.inodes.generation == old(self)@.inodes.generation,
            decreases kids.len() - i,
        {
            let found = match self.inodes.get(kids[i]) {
                None => None,
                Some(entry) => match find_shown_as(&storages, &entry.name) {
                    Some(id) => Some(id),
                    None => if i < storages.len() {
                        Some(storages[i].id)
                    } else {
                        None
                    },
                },
            };
            if let Some(id) = found {
                self.inodes.set_storage_id(kids[i], id);
            }
            i += 1;
        }
        self.storages = storages;
        self.invalidate_handles();
    }
}

proof fn lemma_later_times(
    table: TableView,
    storages: Seq<StorageView>,
    times: Seq<SystemTime>,
    longer: Seq<SystemTime>,
)
    requires
        times.len() >= storages.len(),
        longer.len() >= times.len(),
        forall|i: int| 0 <= i < times.len() ==> #[trigger] times[i] == longer[i],
    ensures
        with_storages(table, storages, times) == with_storages(table, storages, longer),
    decreases storages.len(),
{
    if storages.len() > 0 {
        lemma_later_times(table, storages.drop_last(), times, longer);
        assert(times[storages.len() - 1] == longer[storages.len() - 1]);
    }
}

proof fn lemma_remapped_keeps_tree(
    table: TableView,
    kids: Seq<u64>,
    storages: Seq<StorageView>,
    n: nat,
)
    ensures
        same_tree(remapped(table, kids, storages, n), table),
        remapped(table, kids, storages, n).generation == table.generation,
        forall|ino: u64| #[trigger]
            table.entries.contains_key(ino) ==> remapped(
                table,
                kids,
                storages,
                n,
            ).entries[ino].name == table.entries[ino].name && remapped(
                table,
                kids,
                storages,
                n,
            ).entries[ino].generation == table.entries[ino].generation && kind_handle(
                remapped(table, kids, storages, n).entries[ino].kind,
            ) == kind_handle(table.entries[ino].kind),
    decreases n,
{
    if n > 0 {
        lemma_remapped_keeps_tree(table, kids, storages, (n - 1) as nat);
        let before = remapped(table, kids, storages, (n - 1) as nat);
        let after = remapped(table, kids, storages, n);
        assert(after.entries.dom() =~= before.entries.dom());
        assert forall|ino: u64| #[trigger] table.entries.contains_key(ino) implies after.entries[ino].name
            == table.entries[ino].name && after.entries[ino].generation
            == table.entries[ino].generation && kind_handle(after.entries[ino].kind) == kind_handle(
            table.entries[ino].kind,
        ) by {
            assert(before.entries.contains_key(ino));
        }
    } else {
        assert(table.entries.dom() =~= table.entries.dom());
    }
}

/// A reconnect keeps inode numbers, names, the tree, open files, read caches and write spools. Where
/// no entry is dated ahead of the session that ended, it makes every object handle stale.
pub proof fn adopting_keeps_the_mount<C>(state: StateView<C>, storages: Seq<StorageView>)
    ensures
        same_mount(state.adopted(storages), StateView { storages, ..state }),
        forall|ino: u64| #[trigger]
            state.inodes.entries.contains_key(ino) ==> state.adopted(
                storages,
            ).inodes.entries[ino].name == state.inodes.entries[ino].name,
        state.inodes.dated() && state.inodes.generation < u64::MAX ==> forall|ino: u64| #[trigger]
            state.inodes.entries.contains_key(ino) && kind_handle(
                state.inodes.entries[ino].kind,
            ) is Some ==> !state.adopted(storages).inodes.fresh(ino),
{
    let kids = state.inodes.kids(FUSE_ROOT_INODE);
    lemma_remapped_keeps_tree(state.inodes, kids, storages, kids.len());
    let after = state.adopted(storages).inodes;
    assert forall|ino: u64| #[trigger]
        state.inodes.entries.contains_key(ino) implies after.entries[ino].name
        == state.inodes.entries[ino].name by {
        assert(after.entries.contains_key(ino));
    }
    if state.inodes.dated() && state.inodes.generation < u64::MAX {
        assert forall|ino: u64| #[trigger]
            state.inodes.entries.contains_key(ino) && kind_handle(
                state.inodes.entries[ino].kind,
            ) is Some implies !after.fresh(ino) by {
            assert(after.entries.contains_key(ino));
        }
    }
}

/// The first storage shown under a name is the one that is found by it.
proof fn lemma_first_shown(storages: Seq<StorageView>, name: Seq<char>)
    ensures
        match first_shown_as(storages, name) {
            Some(id) => exists|i: int|
                0 <= i < storages.len() && shown_name(#[trigger] storages[i]) == name
                    && storages[i].id == id && forall|j: int|
                    0 <= j < i ==> shown_name(#[trigger] storages[j]) != name,
            None => forall|i: int|
                0 <= i < storages.len() ==> shown_name(#[trigger] storages[i]) != name,
        },
    decreases storages.len(),
{
    if storages.len() > 0 && shown_name(storages[0]) != name {
        let rest = storages.drop_first();
        lemma_first_shown(rest, name);
        match first_shown_as(rest, name) {
            Some(id) => {
                let i = choose|i: int|
                    0 <= i < rest.len() && shown_name(#[trigger] rest[i]) == name && rest[i].id
                        == id && forall|j: int|
                        0 <= j < i ==> shown_name(#[trigger] rest[j]) != name;
                assert(shown_name(storages[i + 1]) == name);
                assert forall|j: int| 0 <= j < i + 1 implies shown_name(#[trigger] storages[j])
                    != name by {
                    if j > 0 {
                        assert(rest[j - 1] == storages[j]);
                    }
                }
            },
            None => {
                assert forall|i: int| 0 <= i < storages.len() implies shown_name(
                    #[trigger] storages[i],
                ) != name by {
                    if i > 0 {
                        assert(rest[i - 1] == storages[i]);
                    }
                }
            },
        }
    } else if storages.len() > 0 {
        assert(shown_name(storages[0]) == name);
    }
}

/// Whether `id` is the number that a storage called `name`, at `position`, has among `storages`: that
/// of the first shown under that name, or of the one in its place where none is.
pub open spec fn succeeds(
    storages: Seq<StorageView>,
    name: Seq<char>,
    position: int,
    id: StorageId,
) -> bool {
    if exists|i: int| 0 <= i < storages.len() && shown_name(#[trigger] storages[i]) == name {
        exists|i: int|
            0 <= i < storages.len() && shown_name(#[trigger] storages[i]) == name && storages[i].id
                == id && forall|j: int|
                0 <= j < i ==> shown_name(#[trigger] storages[j]) != name
    } else {
        position < storages.len() && storages[position].id == id
    }
}

proof fn lemma_remapped(
    table: TableView,
    kids: Seq<u64>,
    storages: Seq<StorageView>,
    n: nat,
    k: int,
)
    requires
        n <= kids.len(),
        kids.no_duplicates(),
        0 <= k < kids.len(),
        table.entries.contains_key(kids[k]),
        table.entries[kids[k]].kind is Storage,
    ensures
        ({
            let after = remapped(table, kids, storages, n).entries[kids[k]];
            let name = table.entries[kids[k]].name;
            &&& after.kind is Storage
            &&& after.name == name
            &&& k >= n ==> after == table.entries[kids[k]]
            &&& k < n ==> if k >= storages.len() && !(exists|i: int|
                0 <= i < storages.len() && shown_name(#[trigger] storages[i]) == name) {
                after == table.entries[kids[k]]
            } else {
                succeeds(storages, name, k, after.kind->storage_id)
            }
        }),
    decreases n,
{
    if n > 0 {
        lemma_remapped(table, kids, storages, (n - 1) as nat, k);
        lemma_remapped_keeps_tree(table, kids, storages, (n - 1) as nat);
        let before = remapped(table, kids, storages, (n - 1) as nat);
        assert(before.entries.contains_key(kids[k]));
        if k == n - 1 {
            lemma_first_shown(storages, table.entries[kids[k]].name);
        } else {
            assert(kids[k] != kids[n - 1]);
        }
    }
}

/// After a reconnect each storage of the mount is the one of its name in the new session, or the one
/// in its place where no storage has its name, or what it was where there is none; and the storages
/// are those that the device reported.
pub proof fn storages_are_found_again<C>(
    state: StateView<C>,
    storages: Seq<StorageView>,
    k: int,
)
    requires
        state.inodes.kids(FUSE_ROOT_INODE).no_duplicates(),
        0 <= k < state.inodes.kids(FUSE_ROOT_INODE).len(),
        state.inodes.entries.contains_key(state.inodes.kids(FUSE_ROOT_INODE)[k]),
        state.inodes.entries[state.inodes.kids(FUSE_ROOT_INODE)[k]].kind is Storage,
    ensures
        ({
            let kid = state.inodes.kids(FUSE_ROOT_INODE)[k];
            let name = state.inodes.entries[kid].name;
            let after = state.adopted(storages);
            let entry = after.inodes.entries[kid];
            &&& after.storages == storages
            &&& entry.kind is Storage
            &&& entry.name == name
            &&& if k >= storages.len() && !(exists|i: int|
                0 <= i < storages.len() && shown_name(#[trigger] storages[i]) == name) {
                entry.kind == state.inodes.entries[kid].kind
            } else {
                succeeds(storages, name, k, entry.kind->storage_id)
            }
            &&& forall|dir: u64| #[trigger] after.dirs_loaded.contains(dir) <==> dir == 1
            &&& after.inodes.generation == (state.inodes.generation + 1) as u64
        }),
{
    let kids = state.inodes.kids(FUSE_ROOT_INODE);
    lemma_remapped(state.inodes, kids, storages, kids.len(), k);
    lemma_remapped_keeps_tree(state.inodes, kids, storages, kids.len());
}

/// A mount's storages are directories of the root: each under the name it is shown by, with its own
/// number, the last of a name being the one that is found by it.
pub proof fn storages_are_below_the_root(
    table: TableView,
    storages: Seq<StorageView>,
    times: Seq<SystemTime>,
    i: int,
)
    requires
        0 <= table.next_inode,
        table.next_inode + storages.len() <= u64::MAX,
        0 <= i < storages.len(),
        forall|j: int|
            i < j < storages.len() ==> shown_name(#[trigger] storages[j]) != shown_name(storages[i]),
    ensures
        ({
            let after = with_storages(table, storages, times);
            let ino = (table.next_inode + i) as u64;
            &&& after.next_inode == table.next_inode + storages.len()
            &&& after.names.contains_key((1u64, shown_name(storages[i])))
            &&& after.names[(1u64, shown_name(storages[i]))] == ino
            &&& after.entries.contains_key(ino)
            &&& after.entries[ino].kind == (InodeKind::Storage { storage_id: storages[i].id })
            &&& after.entries[ino].name == shown_name(storages[i])
            &&& after.entries[ino].parent == 1
            &&& after.entries[ino].size == 0
            &&& after.kids(1).len() == table.kids(1).len() + storages.len()
            &&& after.kids(1)[table.kids(1).len() + i] == ino
        }),
    decreases storages.len(),
{
    let init = storages.drop_last();
    lemma_with_storages_counts(table, init, times);
    if i < init.len() {
        assert forall|j: int| i < j < init.len() implies shown_name(#[trigger] init[j])
            != shown_name(init[i]) by {
            assert(init[j] == storages[j]);
        }
        storages_are_below_the_root(table, init, times, i);
        assert(shown_name(storages[storages.len() - 1]) != shown_name(storages[i]));
    }
}

proof fn lemma_with_storages_counts(
    table: TableView,
    storages: Seq<StorageView>,
    times: Seq<SystemTime>,
)
    ensures
        with_storages(table, storages, times).next_inode == table.next_inode + storages.len(),
        with_storages(table, storages, times).kids(FUSE_ROOT_INODE).len() == table.kids(
            FUSE_ROOT_INODE,
        ).len() + storages.len(),
    decreases storages.len(),
{
    if storages.len() > 0 {
        lemma_with_storages_counts(table, storages.drop_last(), times);
    }
}

} // verus!
