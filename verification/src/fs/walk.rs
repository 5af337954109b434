//! Walking up the tree: which storage an inode is on, and what lies between the two.
use crate::fs::state::{storage_views, StorageFacts, StorageView};
use crate::inode::model::{kind_handle, EntryView, TableView};
use crate::inode::{InodeKind, InodeTable, StorageId};
use vstd::prelude::*;

verus! {

/// The storage that holds `inode`, found within `steps` entries by following parents. There is
/// none past an entry that is missing or its own parent.
pub open spec fn storage_above(
    entries: Map<u64, EntryView>,
    inode: u64,
    steps: nat,
) -> Option<StorageId>
    decreases steps,
{
    if steps == 0 || !entries.contains_key(inode) {
        None
    } else {
        match entries[inode].kind {
            InodeKind::Storage { storage_id } => Some(storage_id),
            _ => if entries[inode].parent == inode {
                None
            } else {
                storage_above(entries, entries[inode].parent, (steps - 1) as nat)
            },
        }
    }
}

/// The first position of a storage in the list of storages.
pub open spec fn storage_position(storages: Seq<StorageView>, id: StorageId) -> Option<int>
    decreases storages.len(),
{
    if storages.len() == 0 {
        None
    } else if storages[0].id == id {
        Some(0)
    } else {
        match storage_position(storages.drop_first(), id) {
            Some(i) => Some(i + 1),
            None => None,
        }
    }
}

/// The position of the storage that holds `inode`.
pub open spec fn storage_index(
    table: TableView,
    storages: Seq<StorageView>,
    inode: u64,
) -> Option<int> {
    match storage_above(table.entries, inode, table.entries.len()) {
        Some(id) => storage_position(storages, id),
        None => None,
    }
}

/// The files and folders from below the storage (or root) down to `inode`, which comes last;
/// `None` where the way up is broken or longer than `steps`.
pub open spec fn path_down(
    entries: Map<u64, EntryView>,
    inode: u64,
    steps: nat,
) -> Option<Seq<u64>>
    decreases steps,
{
    if steps == 0 || !entries.contains_key(inode) {
        None
    } else if kind_handle(entries[inode].kind) is None {
        Some(Seq::empty())
    } else if entries[inode].parent == inode {
        None
    } else {
        match path_down(entries, entries[inode].parent, (steps - 1) as nat) {
            Some(path) => Some(path.push(inode)),
            None => None,
        }
    }
}

/// The first storage of the list with this identifier.
fn position_of(storages: &Vec<StorageFacts>, id: StorageId) -> (found: Option<usize>)
    ensures
        match (found, storage_position(storage_views(storages@), id)) {
            (Some(i), Some(j)) => i == j && i < storages.len(),
            (None, None) => true,
            _ => false,
        },
{
    let ghost views = storage_views(storages@);
    let mut i: usize = 0;
    assert(views.subrange(0, views.len() as int) =~= views);
    while i < storages.len()
        invariant
            i <= storages.len(),
            views == storage_views(storages@),
            storage_position(views, id) == match storage_position(
                views.subrange(i as int, views.len() as int),
                id,
            ) {
                Some(j) => Some(j + i),
                None => None,
            },
        decreases storages.len() - i,
    {
        assert(views.subrange(i as int, views.len() as int).drop_first() =~= views.subrange(
            i + 1,
            views.len() as int,
        ));
        if storages[i].id == id {
            return Some(i);
        }
        i += 1;
    }
    None
}

/// Find the storage index that owns a given inode by walking up the tree.
pub fn find_storage_index(
    table: &InodeTable,
    storages: &Vec<StorageFacts>,
    inode: u64,
) -> (found: Option<usize>)
    ensures
        match (
            found,
            storage_index(table@, storage_views(storages@), inode),
        ) {
            (Some(i), Some(j)) => i == j && i < storages.len(),
            (None, None) => true,
            _ => false,
        },
{
    let mut current: u64 = inode;
    let mut steps: usize = table.len();
    while steps > 0
        invariant
            storage_above(table@.entries, inode, table@.entries.len()) == storage_above(
                table@.entries,
                current,
                steps as nat,
            ),
        decreases steps,
    {
        match table.get(current) {
            None => {
                return None;
            },
            Some(entry) => {
                if let InodeKind::Storage { storage_id } = entry.kind {
                    return position_of(storages, storage_id);
                }
                if current == entry.parent {
                    return None;
                }
                current = entry.parent;
            },
        }
        steps -= 1;
    }
    None
}

/// Collect the chain from below the storage root down to an inode.
pub(crate) fn chain_to(table: &InodeTable, inode: u64) -> (chain: Option<Vec<u64>>)
    ensures
        match (chain, path_down(table@.entries, inode, table@.entries.len())) {
            (Some(c), Some(path)) => c@ == path,
            (None, None) => true,
            _ => false,
        },
{
    let steps: usize = table.len();
    chain_within(table, inode, steps)
}

fn chain_within(table: &InodeTable, inode: u64, steps: usize) -> (chain: Option<Vec<u64>>)
    ensures
        match (chain, path_down(table@.entries, inode, steps as nat)) {
            (Some(c), Some(path)) => c@ == path,
            (None, None) => true,
            _ => false,
        },
{
    // Upwards first: the nodes come out last to first.
    let mut up: Vec<u64> = Vec::new();
    let mut current: u64 = inode;
    let mut left: usize = steps;
    let ghost entries = table@.entries;
    loop
        invariant
            entries == table@.entries,
            path_down(entries, inode, steps as nat) == match path_down(
                entries,
                current,
                left as nat,
            ) {
                Some(path) => Some(path + up@.reverse()),
                None => None,
            },
        ensures
            path_down(entries, inode, steps as nat) == Some(Seq::<u64>::empty() + up@.reverse()),
        decreases left,
    {
        if left == 0 {
            return None;
        }
        match table.get(current) {
            None => {
                return None;
            },
            Some(entry) => {
                match entry.kind {
                    InodeKind::Root | InodeKind::Storage { .. } => {
                        break ;
                    },
                    _ => {
                        if current == entry.parent {
                            return None;
                        }
                        let ghost before = up@;
                        let ghost rest = path_down(entries, entry.parent, (left - 1) as nat);
                        up.push(current);
                        proof {
                            if rest is Some {
                                assert(rest->0.push(current) + before.reverse() =~= rest->0
                                    + up@.reverse());
                            }
                        }
                        current = entry.parent;
                    },
                }
            },
        }
        left -= 1;
    }
    let mut chain: Vec<u64> = Vec::new();
    let mut i: usize = up.len();
    while i > 0
        invariant
            i <= up.len(),
            chain@ == up@.reverse().take(up.len() - i),
        decreases i,
    {
        i -= 1;
        chain.push(up[i]);
        assert(chain@ =~= up@.reverse().take(up.len() - i));
    }
    assert(chain@ =~= Seq::<u64>::empty() + up@.reverse());
    Some(chain)
}

proof fn lemma_storage_above_monotone(entries: Map<u64, EntryView>, inode: u64, steps: nat, more: nat)
    requires
        steps <= more,
        storage_above(entries, inode, steps) is Some,
    ensures
        storage_above(entries, inode, more) == storage_above(entries, inode, steps),
    decreases steps,
{
    if steps > 0 && !(entries[inode].kind is Storage) {
        lemma_storage_above_monotone(
            entries,
            entries[inode].parent,
            (steps - 1) as nat,
            (more - 1) as nat,
        );
    }
}

/// The entries on a way up that takes exactly `steps` steps: as many as steps.
proof fn lemma_storage_above_nodes(entries: Map<u64, EntryView>, inode: u64, steps: nat) -> (nodes:
    Set<u64>)
    requires
        steps > 0,
        storage_above(entries, inode, steps) is Some,
        storage_above(entries, inode, (steps - 1) as nat) is None,
    ensures
        nodes.finite(),
        nodes.len() == steps,
        nodes.subset_of(entries.dom()),
        forall|v: u64| #[trigger] nodes.contains(v) ==> storage_above(entries, v, steps) is Some,
    decreases steps,
{
    if !(entries[inode].kind is Storage) {
        let parent = entries[inode].parent;
        assert(storage_above(entries, parent, (steps - 1) as nat) is Some);
        if storage_above(entries, parent, (steps - 2) as nat) is Some {
            assert(storage_above(entries, inode, (steps - 1) as nat) is Some);
        }
        let below = lemma_storage_above_nodes(entries, parent, (steps - 1) as nat);
        assert(!below.contains(inode));
        let nodes = below.insert(inode);
        assert forall|v: u64| #[trigger] nodes.contains(v) implies storage_above(
            entries,
            v,
            steps,
        ) is Some by {
            if v != inode {
                lemma_storage_above_monotone(entries, v, (steps - 1) as nat, steps);
            }
        }
        nodes
    } else {
        if steps > 1 {
            assert(storage_above(entries, inode, (steps - 1) as nat) is Some);
        }
        let nodes = Set::<u64>::empty().insert(inode);
        assert(nodes.len() == 1);
        nodes
    }
}

proof fn lemma_storage_above_bound(entries: Map<u64, EntryView>, inode: u64, steps: nat)
    requires
        storage_above(entries, inode, steps) is Some,
        entries.dom().finite(),
    ensures
        storage_above(entries, inode, entries.len()) is Some,
    decreases steps,
{
    if storage_above(entries, inode, (steps - 1) as nat) is Some {
        lemma_storage_above_bound(entries, inode, (steps - 1) as nat);
    } else {
        let nodes = lemma_storage_above_nodes(entries, inode, steps);
        vstd::set_lib::lemma_len_subset(nodes, entries.dom());
        lemma_storage_above_monotone(entries, inode, steps, entries.len());
    }
}

proof fn lemma_path_down_monotone(entries: Map<u64, EntryView>, inode: u64, steps: nat, more: nat)
    requires
        steps <= more,
        path_down(entries, inode, steps) is Some,
    ensures
        path_down(entries, inode, more) == path_down(entries, inode, steps),
    decreases steps,
{
    if steps > 0 && kind_handle(entries[inode].kind) is Some {
        lemma_path_down_monotone(
            entries,
            entries[inode].parent,
            (steps - 1) as nat,
            (more - 1) as nat,
        );
    }
}

/// The entries on a way up that takes exactly `steps` steps: as many as steps.
proof fn lemma_path_down_nodes(entries: Map<u64, EntryView>, inode: u64, steps: nat) -> (nodes:
    Set<u64>)
    requires
        steps > 0,
        path_down(entries, inode, steps) is Some,
        path_down(entries, inode, (steps - 1) as nat) is None,
    ensures
        nodes.finite(),
        nodes.len() == steps,
        nodes.subset_of(entries.dom()),
        forall|v: u64| #[trigger] nodes.contains(v) ==> path_down(entries, v, steps) is Some,
    decreases steps,
{
    if kind_handle(entries[inode].kind) is Some {
        let parent = entries[inode].parent;
        assert(path_down(entries, parent, (steps - 1) as nat) is Some);
        if path_down(entries, parent, (steps - 2) as nat) is Some {
            assert(path_down(entries, inode, (steps - 1) as nat) is Some);
        }
        let below = lemma_path_down_nodes(entries, parent, (steps - 1) as nat);
        assert(!below.contains(inode));
        let nodes = below.insert(inode);
        assert forall|v: u64| #[trigger] nodes.contains(v) implies path_down(
            entries,
            v,
            steps,
        ) is Some by {
            if v != inode {
                lemma_path_down_monotone(entries, v, (steps - 1) as nat, steps);
            }
        }
        nodes
    } else {
        if steps > 1 {
            assert(path_down(entries, inode, (steps - 1) as nat) is Some);
        }
        let nodes = Set::<u64>::empty().insert(inode);
        assert(nodes.len() == 1);
        nodes
    }
}

proof fn lemma_path_down_bound(entries: Map<u64, EntryView>, inode: u64, steps: nat)
    requires
        path_down(entries, inode, steps) is Some,
        entries.dom().finite(),
    ensures
        path_down(entries, inode, entries.len()) is Some,
    decreases steps,
{
    if path_down(entries, inode, (steps - 1) as nat) is Some {
        lemma_path_down_bound(entries, inode, (steps - 1) as nat);
    } else {
        let nodes = lemma_path_down_nodes(entries, inode, steps);
        vstd::set_lib::lemma_len_subset(nodes, entries.dom());
        lemma_path_down_monotone(entries, inode, steps, entries.len());
    }
}

/// Walking up as many entries as the table holds is walking all the way: no way to a storage is
/// longer, so only a way that goes in circles is cut off.
pub proof fn walking_the_whole_table_is_enough(
    entries: Map<u64, EntryView>,
    inode: u64,
    steps: nat,
)
    requires
        entries.dom().finite(),
        steps >= entries.len(),
    ensures
        storage_above(entries, inode, steps) == storage_above(entries, inode, entries.len()),
        path_down(entries, inode, steps) == path_down(entries, inode, entries.len()),
{
    if storage_above(entries, inode, steps) is Some {
        lemma_storage_above_bound(entries, inode, steps);
        lemma_storage_above_monotone(entries, inode, entries.len(), steps);
    }
    if storage_above(entries, inode, entries.len()) is Some {
        lemma_storage_above_monotone(entries, inode, entries.len(), steps);
    }
    if path_down(entries, inode, steps) is Some {
        lemma_path_down_bound(entries, inode, steps);
        lemma_path_down_monotone(entries, inode, entries.len(), steps);
    }
    if path_down(entries, inode, entries.len()) is Some {
        lemma_path_down_monotone(entries, inode, entries.len(), steps);
    }
}

/// What lies on the path to an inode are files and folders of the table, and each but the first
/// is in the one before it.
pub proof fn path_leads_down(entries: Map<u64, EntryView>, inode: u64, steps: nat)
    requires
        path_down(entries, inode, steps) is Some,
    ensures
        ({
            let path = path_down(entries, inode, steps)->0;
            &&& forall|i: int|
                0 <= i < path.len() ==> entries.contains_key(#[trigger] path[i]) && kind_handle(
                    entries[path[i]].kind,
                ) is Some
            &&& forall|i: int|
                0 < i < path.len() ==> entries[#[trigger] path[i]].parent == path[i - 1]
            &&& kind_handle(entries[inode].kind) is Some ==> path.len() > 0 && path.last() == inode
        }),
    decreases steps,
{
    if kind_handle(entries[inode].kind) is Some {
        let parent = entries[inode].parent;
        path_leads_down(entries, parent, (steps - 1) as nat);
        let above = path_down(entries, parent, (steps - 1) as nat)->0;
        let path = path_down(entries, inode, steps)->0;
        assert(path == above.push(inode));
        assert forall|i: int| 0 < i < path.len() implies entries[#[trigger] path[i]].parent
            == path[i - 1] by {
            if i == above.len() {
                assert(above.last() == parent);
            }
        }
    }
}

proof fn lemma_position(storages: Seq<StorageView>, id: StorageId)
    ensures
        match storage_position(storages, id) {
            Some(i) => 0 <= i < storages.len() && storages[i].id == id && forall|j: int|
                0 <= j < i ==> (#[trigger] storages[j]).id != id,
            None => forall|j: int| 0 <= j < storages.len() ==> (#[trigger] storages[j]).id != id,
        },
    decreases storages.len(),
{
    if storages.len() > 0 && storages[0].id != id {
        let rest = storages.drop_first();
        lemma_position(rest, id);
        let bound = match storage_position(rest, id) {
            Some(i) => i + 1,
            None => storages.len() as int,
        };
        assert forall|j: int| 0 <= j < bound implies (#[trigger] storages[j]).id != id by {
            if j > 0 {
                assert(rest[j - 1] == storages[j]);
            }
        }
    }
}

/// What is on a storage is found there: a storage is the first in the list with its number, and
/// everything else is on the storage that its parent is on. What is missing, or its own parent, is
/// on none.
pub proof fn storages_are_found_by_their_number(
    table: TableView,
    storages: Seq<StorageView>,
    inode: u64,
)
    ensures
        storage_index(table, storages, inode) matches Some(i) ==> 0 <= i < storages.len(),
        !table.entries.contains_key(inode) ==> storage_index(table, storages, inode) is None,
        table.entries.dom().finite() && table.entries.contains_key(inode) ==> {
            let entry = table.entries[inode];
            match entry.kind {
                InodeKind::Storage { storage_id } => match storage_index(table, storages, inode) {
                    Some(i) => storages[i].id == storage_id && forall|j: int|
                        0 <= j < i ==> (#[trigger] storages[j]).id != storage_id,
                    None => forall|j: int|
                        0 <= j < storages.len() ==> (#[trigger] storages[j]).id != storage_id,
                },
                _ => storage_index(table, storages, inode) == if entry.parent == inode {
                    None
                } else {
                    storage_index(table, storages, entry.parent)
                },
            }
        },
{
    let entries = table.entries;
    if let Some(id) = storage_above(entries, inode, entries.len()) {
        lemma_position(storages, id);
    }
    if entries.dom().finite() && entries.contains_key(inode) {
        let n = entries.len();
        assert(n > 0) by {
            if n == 0 {
                assert(entries.dom() =~= Set::empty());
                assert(entries.dom().contains(inode));
            }
        }
        match entries[inode].kind {
            InodeKind::Storage { storage_id } => {
                lemma_position(storages, storage_id);
            },
            _ => {
                walking_the_whole_table_is_enough(entries, inode, n + 1);
            },
        }
    }
}

/// The path to an inode is the path to its parent and the inode itself; below a storage or the root
/// it starts with nothing. There is none to what is missing or its own parent.
pub proof fn paths_go_through_the_parent(entries: Map<u64, EntryView>, inode: u64)
    requires
        entries.dom().finite(),
    ensures
        ({
            let path = path_down(entries, inode, entries.len());
            if !entries.contains_key(inode) {
                path is None
            } else if entries[inode].kind is Root || entries[inode].kind is Storage {
                path == Some(Seq::<u64>::empty())
            } else if entries[inode].parent == inode {
                path is None
            } else {
                match path_down(entries, entries[inode].parent, entries.len()) {
                    Some(above) => path == Some(above.push(inode)),
                    None => path is None,
                }
            }
        }),
{
    if entries.contains_key(inode) {
        let n = entries.len();
        assert(n > 0) by {
            if n == 0 {
                assert(entries.dom() =~= Set::empty());
                assert(entries.dom().contains(inode));
            }
        }
        walking_the_whole_table_is_enough(entries, inode, n + 1);
    }
}

} // verus!
