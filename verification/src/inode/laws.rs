//! What every inode table keeps, and what its operations promise together.
use crate::inode::model::{dir_kind, kind_handle, object_kind, without, ChildView, EntryView, TableView};
use crate::inode::{InodeKind, ObjectHandle, StorageId, FUSE_ROOT_INODE};
use std::time::SystemTime;
use vstd::prelude::*;

verus! {

impl TableView {
    /// The entry behind `inode` says of itself what the table says of it.
    pub open spec fn entry_sound(self, inode: u64) -> bool {
        let entry = self.entries[inode];
        &&& entry.inode == inode
        &&& 1 <= inode < self.next_inode
        &&& entry.parent < self.next_inode
        &&& entry.generation <= self.generation
        &&& inode != FUSE_ROOT_INODE ==> entry.parent != inode
    }

    /// What `name` in `parent` is mapped to is an entry of that name and parent.
    pub open spec fn name_sound(self, parent: u64, name: Seq<char>) -> bool {
        let ino = self.names[(parent, name)];
        &&& ino != FUSE_ROOT_INODE
        &&& self.entries.contains_key(ino)
        &&& self.entries[ino].parent == parent
        &&& self.entries[ino].name == name
    }

    /// The child list of `parent` holds entries of that parent, each once.
    pub open spec fn kids_sound(self, parent: u64) -> bool {
        &&& self.kids(parent).no_duplicates()
        &&& forall|ino: u64| #[trigger]
            self.kids(parent).contains(ino) ==> ino != FUSE_ROOT_INODE && self.entries.contains_key(
                ino,
            ) && self.entries[ino].parent == parent
    }

    /// An entry other than the root is found by its name, and listed by its parent.
    pub open spec fn indexed(self, ino: u64) -> bool {
        &&& self.named(self.entries[ino].parent, self.entries[ino].name) == Some(ino)
        &&& self.entries.contains_key(self.entries[ino].parent) ==> self.kids(
            self.entries[ino].parent,
        ).contains(ino)
    }

    /// No entry claims to have been seen in a session after the current one.
    pub open spec fn dated(self) -> bool {
        forall|ino: u64| #[trigger]
            self.entries.contains_key(ino) ==> self.entries[ino].generation <= self.generation
    }

    /// What `name` in `parent` is mapped to is an entry of that name and parent, under a number
    /// that has been given out.
    pub open spec fn name_leads(self, parent: u64, name: Seq<char>) -> bool {
        let ino = self.names[(parent, name)];
        &&& self.entries.contains_key(ino)
        &&& self.entries[ino].parent == parent
        &&& self.entries[ino].name == name
        &&& ino < self.next_inode
    }

    /// Every name in `parent` leads to an entry of that name and parent.
    pub open spec fn names_lead(self, parent: u64) -> bool {
        forall|name: Seq<char>| #[trigger]
            self.names.contains_key((parent, name)) ==> self.name_leads(parent, name)
    }

    /// Every name leads to an entry of that name and parent, in every directory.
    pub open spec fn all_names_lead(self) -> bool {
        forall|parent: u64, name: Seq<char>| #[trigger]
            self.names.contains_key((parent, name)) ==> self.name_leads(parent, name)
    }

    /// The invariant of a table whose siblings bear different names: entries and both indexes
    /// say the same.
    pub open spec fn tidy(self) -> bool {
        &&& self.next_inode >= 2
        &&& self.entries.contains_key(FUSE_ROOT_INODE)
        &&& forall|ino: u64| #[trigger] self.entries.contains_key(ino) ==> self.entry_sound(ino)
        &&& forall|parent: u64, name: Seq<char>| #[trigger]
            self.names.contains_key((parent, name)) ==> self.name_sound(parent, name)
        &&& forall|parent: u64| #[trigger] self.kids_sound(parent)
        &&& forall|ino: u64| #[trigger]
            self.entries.contains_key(ino) && ino != FUSE_ROOT_INODE ==> self.indexed(ino)
    }
}

pub(crate) proof fn lemma_without(s: Seq<u64>, x: u64)
    ensures
        !without(s, x).contains(x),
        forall|y: u64| y != x ==> (#[trigger] without(s, x).contains(y) <==> s.contains(y)),
        s.no_duplicates() ==> without(s, x).no_duplicates(),
    decreases s.len(),
{
    if s.len() > 0 {
        let init = s.drop_last();
        lemma_without(init, x);
        assert(s =~= init.push(s.last()));
        assert forall|y: u64| y != x implies (#[trigger] without(s, x).contains(y) <==> s.contains(
            y,
        )) by {
            if s.contains(y) {
                let i = s.index_of(y);
                if i < init.len() {
                    assert(init[i] == y);
                    assert(init.contains(y));
                    let w = without(init, x);
                    let j = w.index_of(y);
                    assert(w.contains(y));
                    if s.last() != x {
                        assert(w.push(s.last())[j] == y);
                    }
                } else {
                    assert(without(s, x).last() == y);
                }
            }
            if without(s, x).contains(y) {
                let w = without(init, x);
                if s.last() == x {
                    assert(init.contains(y));
                    assert(s[init.index_of(y)] == y);
                } else {
                    let j = without(s, x).index_of(y);
                    if j < w.len() {
                        assert(w[j] == y);
                        assert(w.contains(y));
                        assert(init.contains(y));
                        assert(s[init.index_of(y)] == y);
                    } else {
                        assert(s.last() == y);
                    }
                }
            }
        }
        if without(s, x).contains(x) {
            let j = without(s, x).index_of(x);
            let w = without(init, x);
            if j < w.len() {
                assert(w[j] == x);
            }
        }
        if s.no_duplicates() {
            assert(init.no_duplicates());
            let w = without(init, x);
            if s.last() != x {
                if w.contains(s.last()) {
                    assert(init.contains(s.last()));
                    let i = init.index_of(s.last());
                    assert(s[i] == s[s.len() - 1]);
                }
            }
        }
    }
}

/// A new table is tidy.
pub proof fn initial_is_tidy()
    ensures
        TableView::initial().tidy(),
{
}

/// Adding an entry under a name that is free in an existing parent keeps the table tidy, under an
/// inode number that no entry ever had.
pub proof fn add_keeps_tidy(
    table: TableView,
    parent: u64,
    name: Seq<char>,
    kind: InodeKind,
    size: u64,
    time: SystemTime,
)
    requires
        table.tidy(),
        table.next_inode < u64::MAX,
        table.entries.contains_key(parent),
        table.named(parent, name) is None,
    ensures
        table.add(parent, name, kind, size, time).tidy(),
        !table.entries.contains_key(table.next_inode as u64),
        table.add(parent, name, kind, size, time).named(parent, name) == Some(
            table.next_inode as u64,
        ),
{
    let ino = table.next_inode as u64;
    let after = table.add(parent, name, kind, size, time);
    assert forall|p: u64| #[trigger] after.kids_sound(p) by {
        assert(table.kids_sound(p));
        if p == parent {
            let old_kids = table.kids(parent);
            assert(!old_kids.contains(ino));
            assert(after.kids(p) =~= old_kids.push(ino));
            assert forall|k: u64| #[trigger] after.kids(p).contains(k) implies k != FUSE_ROOT_INODE
                && after.entries.contains_key(k) && after.entries[k].parent == p by {
                if k != ino {
                    let i = after.kids(p).index_of(k);
                    assert(old_kids[i] == k);
                    assert(old_kids.contains(k));
                }
            }
        } else {
            assert(after.kids(p) == table.kids(p));
        }
    }
    assert forall|k: u64| #[trigger]
        after.entries.contains_key(k) && k != FUSE_ROOT_INODE implies after.indexed(k) by {
        if k == ino {
            assert(after.kids(parent).last() == ino);
        } else {
            assert(table.entries.contains_key(k));
            assert(table.indexed(k));
            let p = table.entries[k].parent;
            if after.entries.contains_key(p) {
                assert(table.entry_sound(k));
                let old_kids = table.kids(p);
                let i = old_kids.index_of(k);
                assert(after.kids(p)[i] == k);
            }
        }
    }
}

/// Removing an entry other than the root keeps the table tidy.
pub proof fn remove_keeps_tidy(table: TableView, ino: u64)
    requires
        table.tidy(),
        ino != FUSE_ROOT_INODE,
    ensures
        table.remove(ino).tidy(),
{
    if table.entries.contains_key(ino) {
        let after = table.remove(ino);
        let parent = table.entries[ino].parent;
        assert(table.indexed(ino));
        assert(table.entry_sound(ino));
        lemma_without(table.kids(parent), ino);
        assert forall|p: u64, name: Seq<char>| #[trigger]
            after.names.contains_key((p, name)) implies after.name_sound(p, name) by {
            assert(table.names.contains_key((p, name)));
            assert(table.name_sound(p, name));
        }
        assert forall|p: u64| #[trigger] after.kids_sound(p) by {
            assert(table.kids_sound(p));
            if p == ino {
                assert(after.kids(p) =~= Seq::empty());
            } else if p == parent {
                if table.children.contains_key(parent) {
                    assert(after.kids(p) =~= without(table.kids(p), ino));
                }
            } else {
                assert(after.kids(p) == table.kids(p));
                assert forall|k: u64| #[trigger] after.kids(p).contains(k) implies k != ino by {
                    assert(table.kids(p).contains(k));
                }
            }
        }
        assert forall|k: u64| #[trigger]
            after.entries.contains_key(k) && k != FUSE_ROOT_INODE implies after.indexed(k) by {
            assert(table.entries.contains_key(k));
            assert(table.indexed(k));
        }
    }
}

/// A new entry is found by its name, fresh, under a number of its own that is listed last.
pub proof fn added_entries_are_found(
    table: TableView,
    parent: u64,
    name: Seq<char>,
    kind: InodeKind,
    size: u64,
    time: SystemTime,
)
    requires
        0 <= table.next_inode < u64::MAX,
    ensures
        ({
            let ino = table.next_inode as u64;
            let after = table.add(parent, name, kind, size, time);
            &&& after.named(parent, name) == Some(ino)
            &&& after.fresh(ino)
            &&& after.entries[ino].parent == parent
            &&& after.entries[ino].name == name
            &&& after.kids(parent).last() == ino
            &&& numbers_are_new(table, after)
        }),
{
}

/// An entry that was removed is no longer in the table, found by its name or listed by its parent.
pub proof fn removed_entries_are_gone(table: TableView, ino: u64)
    requires
        table.entries.contains_key(ino),
    ensures
        ({
            let entry = table.entries[ino];
            let after = table.remove(ino);
            &&& !after.entries.contains_key(ino)
            &&& after.named(entry.parent, entry.name) is None
            &&& !after.kids(entry.parent).contains(ino)
            &&& after.kids(ino).len() == 0
        }),
{
    let parent = table.entries[ino].parent;
    lemma_without(table.kids(parent), ino);
    if parent != ino && table.children.contains_key(parent) {
        assert(table.remove(ino).kids(parent) =~= without(table.kids(parent), ino));
    }
}

/// An entry that was renamed is found under its new name, listed by its new parent, and no longer
/// found under its old name. Its number, kind, size, times and session stay.
pub proof fn renamed_entries_are_found(
    table: TableView,
    ino: u64,
    new_parent: u64,
    new_name: Seq<char>,
)
    requires
        table.entries.contains_key(ino),
    ensures
        ({
            let entry = table.entries[ino];
            let after = table.rename(ino, new_parent, new_name);
            &&& after.named(new_parent, new_name) == Some(ino)
            &&& (entry.parent, entry.name) != (new_parent, new_name) ==> after.named(
                entry.parent,
                entry.name,
            ) is None
            &&& after.kids(new_parent).last() == ino
            &&& after.entries == table.entries.insert(
                ino,
                EntryView { parent: new_parent, name: new_name, ..entry },
            )
            &&& after.fresh(ino) == table.fresh(ino)
        }),
{
}

/// Moving an entry into another directory, under a name that is free there or its own, keeps the
/// table tidy.
pub proof fn rename_keeps_tidy(table: TableView, ino: u64, new_parent: u64, new_name: Seq<char>)
    requires
        table.tidy(),
        table.entries.contains_key(ino),
        ino != FUSE_ROOT_INODE,
        table.entries.contains_key(new_parent),
        new_parent != ino,
        table.named(new_parent, new_name) is None || table.named(new_parent, new_name) == Some(ino),
    ensures
        table.rename(ino, new_parent, new_name).tidy(),
{
    let after = table.rename(ino, new_parent, new_name);
    let parent = table.entries[ino].parent;
    assert(table.indexed(ino));
    assert(table.entry_sound(ino));
    assert(table.entry_sound(new_parent));
    lemma_without(table.kids(parent), ino);
    assert(table.kids_sound(parent));
    assert forall|p: u64, name: Seq<char>| #[trigger]
        after.names.contains_key((p, name)) implies after.name_sound(p, name) by {
        if (p, name) != (new_parent, new_name) {
            assert(table.names.contains_key((p, name)));
            assert(table.name_sound(p, name));
        }
    }
    let rest = TableView { children: table.unlisted(parent, ino), ..table };
    assert forall|p: u64| !(#[trigger] rest.kids(p)).contains(ino) by {
        assert(table.kids_sound(p));
        if p == parent {
            if table.children.contains_key(parent) {
                assert(rest.kids(p) =~= without(table.kids(p), ino));
            }
        } else {
            assert(rest.kids(p) =~= table.kids(p));
        }
    }
    assert forall|p: u64| #[trigger] after.kids_sound(p) by {
        assert(table.kids_sound(p));
        let before = rest.kids(p);
        assert(!before.contains(ino));
        if p == parent && table.children.contains_key(parent) {
            assert(before =~= without(table.kids(p), ino));
        } else {
            assert(before =~= table.kids(p));
        }
        assert(before.no_duplicates());
        if p == new_parent {
            assert(after.kids(p) =~= before.push(ino));
            assert forall|k: u64| #[trigger] after.kids(p).contains(k) implies k != FUSE_ROOT_INODE
                && after.entries.contains_key(k) && after.entries[k].parent == p by {
                if k != ino {
                    let i = after.kids(p).index_of(k);
                    assert(before[i] == k);
                    assert(before.contains(k));
                    assert(table.kids(p).contains(k));
                }
            }
        } else {
            assert(after.kids(p) =~= before);
            assert forall|k: u64| #[trigger] after.kids(p).contains(k) implies k != FUSE_ROOT_INODE
                && after.entries.contains_key(k) && after.entries[k].parent == p by {
                assert(k != ino);
                assert(table.kids(p).contains(k));
            }
        }
    }
    assert forall|k: u64| #[trigger]
        after.entries.contains_key(k) && k != FUSE_ROOT_INODE implies after.indexed(k) by {
        if k == ino {
            assert(after.kids(new_parent).last() == ino);
        } else {
            assert(table.entries.contains_key(k));
            assert(table.indexed(k));
            let p = table.entries[k].parent;
            if after.entries.contains_key(p) {
                assert(table.kids(p).contains(k));
                assert(rest.kids(p).contains(k)) by {
                    if p == parent && table.children.contains_key(parent) {
                        assert(rest.kids(p) =~= without(table.kids(p), ino));
                    } else {
                        assert(rest.kids(p) =~= table.kids(p));
                    }
                }
                let i = rest.kids(p).index_of(k);
                assert(after.kids(p)[i] == k);
            }
        }
    }
}

/// Replacing an entry's kind, size and times in place, for a session that is not in the future,
/// keeps the table tidy.
pub proof fn refresh_keeps_tidy(table: TableView, ino: u64, entry: EntryView)
    requires
        table.tidy(),
        table.entries.contains_key(ino),
        entry.inode == ino,
        entry.parent == table.entries[ino].parent,
        entry.name == table.entries[ino].name,
        entry.generation <= table.generation,
    ensures
        table.with_entry(ino, entry).tidy(),
{
    let after = table.with_entry(ino, entry);
    assert(table.entry_sound(ino));
    assert forall|p: u64, name: Seq<char>| #[trigger]
        after.names.contains_key((p, name)) implies after.name_sound(p, name) by {
        assert(table.name_sound(p, name));
    }
    assert forall|p: u64| #[trigger] after.kids_sound(p) by {
        assert(table.kids_sound(p));
        assert(after.kids(p) == table.kids(p));
    }
    assert forall|k: u64| #[trigger]
        after.entries.contains_key(k) && k != FUSE_ROOT_INODE implies after.indexed(k) by {
        assert(table.entries.contains_key(k));
        assert(table.indexed(k));
    }
}

/// A re-pointed object is fresh, under its new handle. Re-pointing handles or storages keeps a tidy
/// table tidy.
pub proof fn repointing_keeps_tidy(
    table: TableView,
    ino: u64,
    handle: ObjectHandle,
    storage_id: StorageId,
)
    ensures
        table.entries.contains_key(ino) ==> table.set_handle(ino, handle).fresh(ino),
        table.entries.contains_key(ino) && kind_handle(table.entries[ino].kind) is Some
            ==> kind_handle(table.set_handle(ino, handle).entries[ino].kind) == Some(handle),
        table.tidy() ==> table.set_handle(ino, handle).tidy() && table.set_storage_id(
            ino,
            storage_id,
        ).tidy(),
{
    if table.tidy() && table.entries.contains_key(ino) {
        assert(table.entry_sound(ino));
        refresh_keeps_tidy(
            table,
            ino,
            table.entries[ino].with_handle(handle, table.generation),
        );
        refresh_keeps_tidy(
            table,
            ino,
            EntryView { kind: InodeKind::Storage { storage_id }, ..table.entries[ino] },
        );
    }
}

/// Moving on to a new session makes every handle stale, without touching inode numbers, names or
/// the tree's shape. What has no handle stays fresh. A tidy table stays tidy.
pub proof fn bump_makes_handles_stale(table: TableView)
    requires
        table.dated(),
        table.generation < u64::MAX,
    ensures
        table.bumped().entries == table.entries,
        table.bumped().names == table.names,
        table.bumped().children == table.children,
        forall|ino: u64| #[trigger]
            table.entries.contains_key(ino) ==> (table.bumped().fresh(ino) <==> kind_handle(
                table.entries[ino].kind,
            ) is None),
        table.tidy() ==> table.bumped().tidy(),
{
    if table.tidy() {
        let after = table.bumped();
        assert forall|ino: u64| #[trigger]
            after.entries.contains_key(ino) implies after.entry_sound(ino) by {
            assert(table.entries.contains_key(ino));
            assert(table.entry_sound(ino));
        }
        assert forall|p: u64, name: Seq<char>| #[trigger]
            after.names.contains_key((p, name)) implies after.name_sound(p, name) by {
            assert(table.name_sound(p, name));
        }
        assert forall|p: u64| #[trigger] after.kids_sound(p) by {
            assert(table.kids_sound(p));
            assert(after.kids(p) == table.kids(p));
        }
        assert forall|k: u64| #[trigger]
            after.entries.contains_key(k) && k != FUSE_ROOT_INODE implies after.indexed(k) by {
            assert(table.entries.contains_key(k));
            assert(table.indexed(k));
        }
    }
}

/// Neither adding, removing or renaming an entry nor re-pointing it nor moving on to a new session
/// dates an entry ahead of the current session, whatever table it starts from.
pub proof fn changes_keep_dates(
    table: TableView,
    ino: u64,
    parent: u64,
    name: Seq<char>,
    kind: InodeKind,
    size: u64,
    time: SystemTime,
    handle: ObjectHandle,
    storage_id: StorageId,
)
    requires
        table.dated(),
    ensures
        TableView::initial().dated(),
        table.add(parent, name, kind, size, time).dated(),
        table.remove(ino).dated(),
        table.rename(ino, parent, name).dated(),
        table.set_handle(ino, handle).dated(),
        table.set_storage_id(ino, storage_id).dated(),
        table.generation < u64::MAX ==> table.bumped().dated(),
{
    let added = table.add(parent, name, kind, size, time);
    assert forall|k: u64| #[trigger] added.entries.contains_key(k) implies added.entries[k].generation
        <= added.generation by {
        assert(k == table.next_inode as u64 || table.entries.contains_key(k));
    }
    let renamed = table.rename(ino, parent, name);
    assert forall|k: u64| #[trigger]
        renamed.entries.contains_key(k) implies renamed.entries[k].generation
        <= renamed.generation by {
        assert(table.entries.contains_key(k));
    }
    let repointed = table.set_handle(ino, handle);
    assert forall|k: u64| #[trigger]
        repointed.entries.contains_key(k) implies repointed.entries[k].generation
        <= repointed.generation by {
        assert(table.entries.contains_key(k));
    }
    let moved = table.set_storage_id(ino, storage_id);
    assert forall|k: u64| #[trigger] moved.entries.contains_key(k) implies moved.entries[k].generation
        <= moved.generation by {
        assert(table.entries.contains_key(k));
    }
    if table.generation < u64::MAX {
        let bumped = table.bumped();
        assert forall|k: u64| #[trigger]
            bumped.entries.contains_key(k) implies bumped.entries[k].generation
            <= bumped.generation by {
            assert(table.entries.contains_key(k));
        }
    }
}

/// Neither adding, removing or renaming an entry nor re-pointing it nor moving on to a new session
/// keeps a name from leading to its entry, whatever names are taken.
pub proof fn changes_keep_names_leading(
    table: TableView,
    ino: u64,
    parent: u64,
    name: Seq<char>,
    kind: InodeKind,
    size: u64,
    time: SystemTime,
    handle: ObjectHandle,
    storage_id: StorageId,
)
    requires
        table.all_names_lead(),
        0 <= table.next_inode < u64::MAX,
    ensures
        TableView::initial().all_names_lead(),
        table.add(parent, name, kind, size, time).all_names_lead(),
        table.remove(ino).all_names_lead(),
        ino < table.next_inode ==> table.rename(ino, parent, name).all_names_lead(),
        table.set_handle(ino, handle).all_names_lead(),
        table.set_storage_id(ino, storage_id).all_names_lead(),
        table.bumped().all_names_lead(),
{
    lemma_add_leads(table, parent, name, kind, size, time);
    lemma_remove_leads(table, ino);
    let renamed = table.rename(ino, parent, name);
    if ino < table.next_inode {
        assert forall|p: u64, n: Seq<char>| #[trigger]
            renamed.names.contains_key((p, n)) implies renamed.name_leads(p, n) by {
            if (p, n) != (parent, name) || !table.entries.contains_key(ino) {
                assert(table.names.contains_key((p, n)));
                assert(table.name_leads(p, n));
            }
        }
    }
    let repointed = table.set_handle(ino, handle);
    assert forall|p: u64, n: Seq<char>| #[trigger]
        repointed.names.contains_key((p, n)) implies repointed.name_leads(p, n) by {
        assert(table.name_leads(p, n));
    }
    let moved = table.set_storage_id(ino, storage_id);
    assert forall|p: u64, n: Seq<char>| #[trigger]
        moved.names.contains_key((p, n)) implies moved.name_leads(p, n) by {
        assert(table.name_leads(p, n));
    }
    let bumped = table.bumped();
    assert forall|p: u64, n: Seq<char>| #[trigger]
        bumped.names.contains_key((p, n)) implies bumped.name_leads(p, n) by {
        assert(table.name_leads(p, n));
    }
}

proof fn lemma_add_leads(
    table: TableView,
    parent: u64,
    name: Seq<char>,
    kind: InodeKind,
    size: u64,
    time: SystemTime,
)
    requires
        table.all_names_lead(),
        0 <= table.next_inode < u64::MAX,
    ensures
        table.add(parent, name, kind, size, time).all_names_lead(),
{
    let after = table.add(parent, name, kind, size, time);
    assert forall|p: u64, n: Seq<char>| #[trigger]
        after.names.contains_key((p, n)) implies after.name_leads(p, n) by {
        if (p, n) != (parent, name) {
            assert(table.names.contains_key((p, n)));
            assert(table.name_leads(p, n));
        }
    }
}

proof fn lemma_remove_leads(table: TableView, ino: u64)
    requires
        table.all_names_lead(),
    ensures
        table.remove(ino).all_names_lead(),
        table.remove(ino).next_inode == table.next_inode,
{
    let after = table.remove(ino);
    assert forall|p: u64, n: Seq<char>| #[trigger]
        after.names.contains_key((p, n)) implies after.name_leads(p, n) by {
        assert(table.names.contains_key((p, n)));
        assert(table.name_leads(p, n));
    }
}

/// A listing keeps every name leading to its entry, in every directory.
pub proof fn sync_keeps_names_leading(table: TableView, parent: u64, children: Seq<ChildView>)
    requires
        table.all_names_lead(),
        0 <= table.next_inode,
        table.next_inode + children.len() <= u64::MAX,
    ensures
        table.sync(parent, children).all_names_lead(),
{
    lemma_sync_each_leads(table, parent, children);
    let seen = table.sync_each(parent, children);
    lemma_remove_each_leads(seen, seen.gone(seen.kids(parent), children));
}

proof fn lemma_sync_each_leads(table: TableView, parent: u64, children: Seq<ChildView>)
    requires
        table.all_names_lead(),
        0 <= table.next_inode,
        table.next_inode + children.len() <= u64::MAX,
    ensures
        table.sync_each(parent, children).all_names_lead(),
        0 <= table.sync_each(parent, children).next_inode <= table.next_inode + children.len(),
    decreases children.len(),
{
    if children.len() > 0 {
        let init = children.drop_last();
        let child = children.last();
        lemma_sync_each_leads(table, parent, init);
        let before = table.sync_each(parent, init);
        let kind = object_kind(child.is_dir, child.handle);
        match before.named(parent, child.name) {
            Some(ino) => if before.has_shape(ino, child.is_dir) {
                let after = before.sync_one(parent, child);
                assert forall|p: u64, n: Seq<char>| #[trigger]
                    after.names.contains_key((p, n)) implies after.name_leads(p, n) by {
                    assert(before.name_leads(p, n));
                }
            } else {
                lemma_remove_leads(before, ino);
                lemma_add_leads(
                    before.remove(ino),
                    parent,
                    child.name,
                    kind,
                    child.size,
                    child.mtime,
                );
            },
            None => {
                lemma_add_leads(before, parent, child.name, kind, child.size, child.mtime);
            },
        }
    }
}

proof fn lemma_remove_each_leads(table: TableView, inodes: Seq<u64>)
    requires
        table.all_names_lead(),
    ensures
        table.remove_each(inodes).all_names_lead(),
    decreases inodes.len(),
{
    if inodes.len() > 0 {
        lemma_remove_each_leads(table, inodes.drop_last());
        lemma_remove_leads(table.remove_each(inodes.drop_last()), inodes.last());
    }
}

/// A listing dates no entry ahead of the current session.
pub proof fn sync_keeps_dates(table: TableView, parent: u64, children: Seq<ChildView>)
    requires
        table.dated(),
    ensures
        table.sync(parent, children).dated(),
{
    lemma_sync_each_dates(table, parent, children);
    let seen = table.sync_each(parent, children);
    lemma_remove_each_dates(seen, seen.gone(seen.kids(parent), children));
}

proof fn lemma_sync_each_dates(table: TableView, parent: u64, children: Seq<ChildView>)
    requires
        table.dated(),
    ensures
        table.sync_each(parent, children).dated(),
    decreases children.len(),
{
    if children.len() > 0 {
        let before = table.sync_each(parent, children.drop_last());
        lemma_sync_each_dates(table, parent, children.drop_last());
        let child = children.last();
        let after = before.sync_one(parent, child);
        assert forall|k: u64| #[trigger]
            after.entries.contains_key(k) implies after.entries[k].generation
            <= after.generation by {
            assert(before.entries.contains_key(k) || after.entries[k].generation
                == before.generation);
        }
    }
}

proof fn lemma_remove_each_dates(table: TableView, inodes: Seq<u64>)
    requires
        table.dated(),
    ensures
        table.remove_each(inodes).dated(),
    decreases inodes.len(),
{
    if inodes.len() > 0 {
        lemma_remove_each_dates(table, inodes.drop_last());
        let before = table.remove_each(inodes.drop_last());
        let after = table.remove_each(inodes);
        assert forall|k: u64| #[trigger]
            after.entries.contains_key(k) implies after.entries[k].generation
            <= after.generation by {
            assert(before.entries.contains_key(k));
        }
    }
}

impl TableView {
    /// Whether `child` of `parent` is in the table as the device reported it in this session.
    pub open spec fn reflects(self, parent: u64, child: ChildView) -> bool {
        match self.named(parent, child.name) {
            Some(ino) => {
                let entry = self.entries[ino];
                &&& self.entries.contains_key(ino)
                &&& entry.parent == parent
                &&& entry.name == child.name
                &&& entry.kind == object_kind(child.is_dir, child.handle)
                &&& entry.size == child.size
                &&& entry.mtime == child.mtime
                &&& self.fresh(ino)
            },
            None => false,
        }
    }
}

proof fn lemma_sync_one_tidy(table: TableView, parent: u64, child: ChildView)
    requires
        table.tidy(),
        table.next_inode < u64::MAX,
        table.entries.contains_key(parent),
    ensures
        table.sync_one(parent, child).tidy(),
        table.sync_one(parent, child).entries.contains_key(parent),
        table.sync_one(parent, child).next_inode <= table.next_inode + 1,
{
    let kind = object_kind(child.is_dir, child.handle);
    match table.named(parent, child.name) {
        Some(ino) => {
            assert(table.name_sound(parent, child.name));
            assert(table.entry_sound(ino));
            if table.has_shape(ino, child.is_dir) {
                refresh_keeps_tidy(
                    table,
                    ino,
                    EntryView {
                        kind,
                        size: child.size,
                        mtime: child.mtime,
                        generation: table.generation,
                        ..table.entries[ino]
                    },
                );
            } else {
                remove_keeps_tidy(table, ino);
                assert(ino != parent);
                add_keeps_tidy(
                    table.remove(ino),
                    parent,
                    child.name,
                    kind,
                    child.size,
                    child.mtime,
                );
            }
        },
        None => {
            add_keeps_tidy(table, parent, child.name, kind, child.size, child.mtime);
        },
    }
}

proof fn lemma_sync_each_tidy(table: TableView, parent: u64, children: Seq<ChildView>)
    requires
        table.tidy(),
        table.next_inode + children.len() <= u64::MAX,
        table.entries.contains_key(parent),
    ensures
        table.sync_each(parent, children).tidy(),
        table.sync_each(parent, children).entries.contains_key(parent),
        table.sync_each(parent, children).next_inode <= table.next_inode + children.len(),
    decreases children.len(),
{
    if children.len() > 0 {
        lemma_sync_each_tidy(table, parent, children.drop_last());
        lemma_sync_one_tidy(
            table.sync_each(parent, children.drop_last()),
            parent,
            children.last(),
        );
    }
}

proof fn lemma_sync_one(table: TableView, parent: u64, child: ChildView)
    requires
        table.names_lead(parent),
        0 <= table.next_inode < u64::MAX,
    ensures
        ({
            let after = table.sync_one(parent, child);
            &&& after.names_lead(parent)
            &&& after.reflects(parent, child)
            &&& table.next_inode <= after.next_inode <= table.next_inode + 1
            &&& after.generation == table.generation
            &&& forall|name: Seq<char>|
                name != child.name ==> #[trigger] after.named(parent, name) == table.named(
                    parent,
                    name,
                )
            &&& forall|name: Seq<char>|
                name != child.name && #[trigger] table.named(parent, name) is Some
                    ==> after.entries.contains_key(table.named(parent, name)->0) && after.entries[
                table.named(parent, name)->0] == table.entries[table.named(parent, name)->0]
            &&& forall|ino: u64|
                table.named(parent, child.name) == Some(ino) && #[trigger] table.has_shape(
                    ino,
                    child.is_dir,
                ) ==> after.named(parent, child.name) == Some(ino)
        }),
{
    let after = table.sync_one(parent, child);
    if table.names.contains_key((parent, child.name)) {
        assert(table.entries[table.names[(parent, child.name)]].name == child.name);
    }
    assert forall|name: Seq<char>|
        name != child.name && #[trigger] table.named(parent, name) is Some implies ({
        let k = table.named(parent, name)->0;
        after.entries.contains_key(k) && after.entries[k] == table.entries[k]
    }) by {
        assert(table.names.contains_key((parent, name)));
    }
    assert forall|name: Seq<char>|
        name != child.name implies #[trigger] after.named(parent, name) == table.named(
        parent,
        name,
    ) by {}
    assert forall|name: Seq<char>| #[trigger]
        after.names.contains_key((parent, name)) implies after.name_leads(parent, name) by {
        if name != child.name {
            assert(after.named(parent, name) == table.named(parent, name));
            assert(table.names.contains_key((parent, name)));
        }
    }
}

proof fn lemma_sync_each(table: TableView, parent: u64, children: Seq<ChildView>)
    requires
        table.names_lead(parent),
        0 <= table.next_inode,
        table.next_inode + children.len() <= u64::MAX,
    ensures
        ({
            let after = table.sync_each(parent, children);
            &&& after.names_lead(parent)
            &&& table.next_inode <= after.next_inode <= table.next_inode + children.len()
            &&& after.generation == table.generation
            &&& forall|i: int|
                0 <= i < children.len() && last_of_name(children, i) ==> after.reflects(
                    parent,
                    #[trigger] children[i],
                )
            &&& forall|name: Seq<char>, ino: u64|
                table.named(parent, name) == Some(ino) && #[trigger] keeps_shape(
                    table,
                    ino,
                    name,
                    children,
                ) ==> after.named(parent, name) == Some(ino) && after.has_shape(
                    ino,
                    dir_kind(table.entries[ino].kind),
                )
        }),
    decreases children.len(),
{
    if children.len() > 0 {
        let init = children.drop_last();
        let child = children.last();
        lemma_sync_each(table, parent, init);
        let mid = table.sync_each(parent, init);
        lemma_sync_one(mid, parent, child);
        let after = mid.sync_one(parent, child);
        assert forall|i: int|
            0 <= i < children.len() && last_of_name(children, i) implies after.reflects(
            parent,
            #[trigger] children[i],
        ) by {
            if i < init.len() {
                assert(children[i] == init[i]);
                assert(last_of_name(init, i)) by {
                    assert forall|j: int| i < j < init.len() implies (#[trigger] init[j]).name
                        != init[i].name by {
                        assert(children[j] == init[j]);
                    }
                }
                assert(children[children.len() - 1].name != children[i].name);
                assert(mid.reflects(parent, init[i]));
                let name = init[i].name;
                assert(mid.named(parent, name) is Some);
                assert(after.named(parent, name) == mid.named(parent, name));
            }
        }
        assert forall|name: Seq<char>, ino: u64|
            table.named(parent, name) == Some(ino) && #[trigger] keeps_shape(
                table,
                ino,
                name,
                children,
            ) implies after.named(parent, name) == Some(ino) && after.has_shape(
            ino,
            dir_kind(table.entries[ino].kind),
        ) by {
            assert forall|i: int| 0 <= i < init.len() && (#[trigger] init[i]).name == name implies
                table.has_shape(ino, init[i].is_dir) by {
                assert(children[i] == init[i]);
            }
            assert(keeps_shape(table, ino, name, init));
            if child.name == name {
                assert(table.has_shape(ino, children[children.len() - 1].is_dir));
                assert(mid.has_shape(ino, child.is_dir));
                assert(after.reflects(parent, child));
            } else {
                assert(after.named(parent, name) == mid.named(parent, name));
                assert(mid.named(parent, name) is Some);
            }
        }
    }
}

/// Whether no later child bears the name of `children[i]`.
pub open spec fn last_of_name(children: Seq<ChildView>, i: int) -> bool {
    forall|j: int| i < j < children.len() ==> (#[trigger] children[j]).name != children[i].name
}

/// Whether `ino` is in `table`, a folder exactly where `children` report `name` as a folder.
pub open spec fn keeps_shape(
    table: TableView,
    ino: u64,
    name: Seq<char>,
    children: Seq<ChildView>,
) -> bool {
    &&& table.entries.contains_key(ino)
    &&& forall|i: int|
        0 <= i < children.len() && (#[trigger] children[i]).name == name ==> table.has_shape(
            ino,
            children[i].is_dir,
        )
}

proof fn lemma_remove_each_tidy(table: TableView, inodes: Seq<u64>)
    requires
        table.tidy(),
        !inodes.contains(FUSE_ROOT_INODE),
    ensures
        table.remove_each(inodes).tidy(),
    decreases inodes.len(),
{
    if inodes.len() > 0 {
        let init = inodes.drop_last();
        assert forall|k: u64| init.contains(k) implies #[trigger] inodes.contains(k) by {
            assert(inodes[init.index_of(k)] == k);
        }
        assert(inodes[inodes.len() - 1] == inodes.last());
        lemma_remove_each_tidy(table, init);
        remove_keeps_tidy(table.remove_each(init), inodes.last());
    }
}

/// Whether none of `inodes` is an entry of that name.
spec fn none_named(table: TableView, inodes: Seq<u64>, name: Seq<char>) -> bool {
    forall|k: u64| #[trigger]
        inodes.contains(k) && table.entries.contains_key(k) ==> table.entries[k].name != name
}

proof fn lemma_remove_each(table: TableView, parent: u64, inodes: Seq<u64>)
    ensures
        ({
            let after = table.remove_each(inodes);
            &&& after.generation == table.generation
            &&& forall|k: u64| #[trigger]
                after.entries.contains_key(k) <==> table.entries.contains_key(k)
                    && !inodes.contains(k)
            &&& forall|k: u64| #[trigger]
                after.entries.contains_key(k) ==> after.entries[k] == table.entries[k]
            &&& forall|name: Seq<char>| #[trigger]
                none_named(table, inodes, name) ==> after.named(parent, name) == table.named(
                    parent,
                    name,
                )
            &&& forall|k: u64| #[trigger]
                after.kids(parent).contains(k) ==> table.kids(parent).contains(k)
        }),
    decreases inodes.len(),
{
    if inodes.len() > 0 {
        let init = inodes.drop_last();
        let x = inodes.last();
        assert(inodes =~= init.push(x));
        lemma_remove_each(table, parent, init);
        let mid = table.remove_each(init);
        let after = mid.remove(x);
        assert forall|k: u64| #[trigger] inodes.contains(k) <==> init.contains(k) || k == x by {
            if inodes.contains(k) && k != x {
                assert(init[inodes.index_of(k)] == k);
            }
            if init.contains(k) {
                assert(inodes[init.index_of(k)] == k);
            }
            assert(inodes[inodes.len() - 1] == x);
        }
        assert forall|name: Seq<char>| #[trigger]
            none_named(table, inodes, name) implies after.named(parent, name) == table.named(
            parent,
            name,
        ) by {
            assert(none_named(table, init, name)) by {
                assert forall|k: u64| #[trigger]
                    init.contains(k) && table.entries.contains_key(k) implies table.entries[k].name
                    != name by {
                    assert(inodes.contains(k));
                }
            }
            assert(inodes.contains(x));
        }
        assert forall|k: u64| #[trigger] after.kids(parent).contains(k) implies table.kids(
            parent,
        ).contains(k) by {
            if mid.entries.contains_key(x) {
                let p = mid.entries[x].parent;
                lemma_without(mid.kids(p), x);
                if parent != x {
                    if p == parent && mid.children.contains_key(p) {
                        assert(after.kids(parent) =~= without(mid.kids(parent), x));
                    } else {
                        assert(after.kids(parent) =~= mid.kids(parent));
                    }
                }
            }
            assert(mid.kids(parent).contains(k));
        }
    }
}

proof fn lemma_gone(table: TableView, inodes: Seq<u64>, children: Seq<ChildView>)
    ensures
        forall|k: u64| #[trigger]
            table.gone(inodes, children).contains(k) <==> inodes.contains(k) && table.unreported(
                k,
                children,
            ),
    decreases inodes.len(),
{
    if inodes.len() > 0 {
        let init = inodes.drop_last();
        let x = inodes.last();
        lemma_gone(table, init, children);
        let before = table.gone(init, children);
        let after = table.gone(inodes, children);
        assert forall|k: u64| #[trigger] after.contains(k) <==> inodes.contains(k)
            && table.unreported(k, children) by {
            if after.contains(k) {
                let i = after.index_of(k);
                if table.unreported(x, children) && i == before.len() {
                    assert(inodes[inodes.len() - 1] == k);
                } else {
                    assert(before[i] == k);
                    assert(before.contains(k));
                    assert(inodes[init.index_of(k)] == k);
                }
            }
            if inodes.contains(k) && table.unreported(k, children) {
                let i = inodes.index_of(k);
                if i < init.len() {
                    assert(init[i] == k);
                    assert(before.contains(k));
                    assert(after[before.index_of(k)] == k);
                } else {
                    assert(after.last() == k);
                }
            }
        }
    }
}

/// After a listing, a directory's children are what the device reported: each reported child is
/// found under its name with the reported handle, size and time, fresh, and whatever else is in the
/// directory bears a reported name. Where a listing bears one name more than once, its last mention
/// counts. A tidy table stays tidy.
pub proof fn sync_reflects_listing(table: TableView, parent: u64, children: Seq<ChildView>)
    requires
        table.names_lead(parent),
        0 <= table.next_inode,
        table.next_inode + children.len() <= u64::MAX,
    ensures
        forall|i: int|
            0 <= i < children.len() && last_of_name(children, i) ==> table.sync(
                parent,
                children,
            ).reflects(parent, #[trigger] children[i]),
        forall|ino: u64| #[trigger]
            table.sync(parent, children).kids(parent).contains(ino) && table.sync(
                parent,
                children,
            ).entries.contains_key(ino) ==> exists|i: int|
                0 <= i < children.len() && (#[trigger] children[i]).name == table.sync(
                    parent,
                    children,
                ).entries[ino].name,
        table.tidy() && table.entries.contains_key(parent) ==> table.sync(parent, children).tidy(),
{
    let seen = table.sync_each(parent, children);
    lemma_sync_each(table, parent, children);
    let listed = seen.kids(parent);
    let gone = seen.gone(listed, children);
    lemma_gone(seen, listed, children);
    lemma_remove_each(seen, parent, gone);
    let after = seen.remove_each(gone);
    assert forall|i: int|
        0 <= i < children.len() && last_of_name(children, i) implies after.reflects(
        parent,
        #[trigger] children[i],
    ) by {
        let name = children[i].name;
        assert(seen.reflects(parent, children[i]));
        assert(none_named(seen, gone, name)) by {
            assert forall|k: u64| #[trigger]
                gone.contains(k) && seen.entries.contains_key(k) implies seen.entries[k].name
                != name by {
                assert(seen.unreported(k, children));
            }
        }
        let ino = seen.named(parent, name)->0;
        assert(!gone.contains(ino));
        assert(after.entries.contains_key(ino));
    }
    assert forall|ino: u64| #[trigger]
        after.kids(parent).contains(ino) && after.entries.contains_key(ino) implies exists|i: int|
        0 <= i < children.len() && (#[trigger] children[i]).name == after.entries[ino].name by {
        assert(listed.contains(ino));
        assert(!gone.contains(ino));
        assert(!seen.unreported(ino, children));
    }
    if table.tidy() && table.entries.contains_key(parent) {
        lemma_sync_each_tidy(table, parent, children);
        assert(seen.kids_sound(parent));
        lemma_remove_each_tidy(seen, gone);
    }
}

/// A child that a listing still reports, as what it was, keeps its inode number.
pub proof fn sync_keeps_inode_numbers(
    table: TableView,
    parent: u64,
    children: Seq<ChildView>,
    name: Seq<char>,
    ino: u64,
)
    requires
        table.names_lead(parent),
        0 <= table.next_inode,
        table.next_inode + children.len() <= u64::MAX,
        table.named(parent, name) == Some(ino),
        keeps_shape(table, ino, name, children),
        exists|i: int| 0 <= i < children.len() && (#[trigger] children[i]).name == name,
    ensures
        table.sync(parent, children).named(parent, name) == Some(ino),
        table.sync(parent, children).entries.contains_key(ino),
{
    let seen = table.sync_each(parent, children);
    lemma_sync_each(table, parent, children);
    let listed = seen.kids(parent);
    let gone = seen.gone(listed, children);
    lemma_gone(seen, listed, children);
    lemma_remove_each(seen, parent, gone);
    assert(seen.named(parent, name) == Some(ino));
    assert(seen.names.contains_key((parent, name)));
    assert(none_named(seen, gone, name)) by {
        assert forall|k: u64| #[trigger]
            gone.contains(k) && seen.entries.contains_key(k) implies seen.entries[k].name
            != name by {
            assert(seen.unreported(k, children));
        }
    }
    assert(!gone.contains(ino));
    assert(seen.remove_each(gone).entries.contains_key(ino));
}

/// In a tidy table every name leads to its entry, and no entry is dated ahead.
pub proof fn tidy_tables_lead(table: TableView)
    requires
        table.tidy(),
    ensures
        table.all_names_lead(),
        table.dated(),
{
    assert forall|parent: u64, name: Seq<char>| #[trigger]
        table.names.contains_key((parent, name)) implies table.name_leads(parent, name) by {
        assert(table.name_sound(parent, name));
        assert(table.entry_sound(table.names[(parent, name)]));
    }
    assert forall|ino: u64| #[trigger] table.entries.contains_key(ino) implies table.entries[ino].generation
        <= table.generation by {
        assert(table.entry_sound(ino));
    }
}

/// Whether every inode of `later` is one of `table` or got a number that was still free there.
pub open spec fn numbers_are_new(table: TableView, later: TableView) -> bool {
    &&& table.next_inode <= later.next_inode
    &&& forall|ino: u64| #[trigger]
        later.entries.contains_key(ino) ==> table.entries.contains_key(ino) || table.next_inode
            <= ino
}

proof fn lemma_sync_each_numbers(table: TableView, parent: u64, children: Seq<ChildView>)
    requires
        0 <= table.next_inode,
        table.next_inode + children.len() <= u64::MAX,
    ensures
        numbers_are_new(table, table.sync_each(parent, children)),
        table.sync_each(parent, children).next_inode <= table.next_inode + children.len(),
    decreases children.len(),
{
    if children.len() > 0 {
        lemma_sync_each_numbers(table, parent, children.drop_last());
    }
}

proof fn lemma_remove_each_numbers(table: TableView, inodes: Seq<u64>)
    ensures
        table.remove_each(inodes).next_inode == table.next_inode,
        forall|ino: u64| #[trigger]
            table.remove_each(inodes).entries.contains_key(ino) ==> table.entries.contains_key(ino),
    decreases inodes.len(),
{
    if inodes.len() > 0 {
        lemma_remove_each_numbers(table, inodes.drop_last());
    }
}

/// An inode number is never given out twice: what a listing adds gets a number that no entry has
/// had before.
pub proof fn numbers_are_never_reused(table: TableView, parent: u64, children: Seq<ChildView>)
    requires
        0 <= table.next_inode,
        table.next_inode + children.len() <= u64::MAX,
    ensures
        numbers_are_new(table, table.sync(parent, children)),
{
    lemma_sync_each_numbers(table, parent, children);
    let seen = table.sync_each(parent, children);
    lemma_remove_each_numbers(seen, seen.gone(seen.kids(parent), children));
}

/// What a kind says: files and folders have a handle, storages and the root have none, and everything
/// but a file can hold others. What a listing reports as a folder is one, and everything else a file.
pub proof fn kinds_say_what_an_entry_is(kind: InodeKind, is_dir: bool, handle: ObjectHandle)
    ensures
        dir_kind(kind) <==> !(kind is File),
        match kind {
            InodeKind::File { handle: h } => kind_handle(kind) == Some(h),
            InodeKind::Directory { handle: h } => kind_handle(kind) == Some(h),
            InodeKind::Storage { .. } => kind_handle(kind) is None,
            InodeKind::Root => kind_handle(kind) is None,
        },
        is_dir ==> object_kind(is_dir, handle) == (InodeKind::Directory { handle }),
        !is_dir ==> object_kind(is_dir, handle) == (InodeKind::File { handle }),
{
}

/// A new table holds the root alone, which is its own parent.
pub proof fn a_new_table_holds_the_root()
    ensures
        ({
            let table = TableView::initial();
            &&& forall|ino: u64| #[trigger] table.entries.contains_key(ino) <==> ino == 1
            &&& table.entries[1].kind is Root
            &&& table.entries[1].parent == 1
            &&& table.entries[1].inode == 1
            &&& forall|key: (u64, Seq<char>)| !#[trigger] table.names.contains_key(key)
            &&& forall|ino: u64| (#[trigger] table.kids(ino)).len() == 0
            &&& table.next_inode == 2
            &&& table.generation == 0
        }),
{
}

/// What is fresh: what is in the table, and has a handle of the current session or none.
pub proof fn handles_of_this_session_are_fresh(table: TableView, ino: u64)
    ensures
        table.fresh(ino) <==> table.entries.contains_key(ino) && (table.entries[ino].kind is Root
            || table.entries[ino].kind is Storage || table.entries[ino].generation
            == table.generation),
        table.has_shape(ino, true) <==> table.entries.contains_key(ino)
            && !(table.entries[ino].kind is File),
        table.has_shape(ino, false) <==> table.entries.contains_key(ino)
            && table.entries[ino].kind is File,
{
}

/// Re-pointing a file or folder gives it the new handle, dated now, and leaves what it is; storages
/// and the root have no handle to change. Re-pointing a storage gives it the new number and leaves
/// everything else. No other entry, and no name or place, changes.
pub proof fn repointing_changes_one_token(
    table: TableView,
    ino: u64,
    handle: ObjectHandle,
    storage_id: StorageId,
    other: u64,
)
    ensures
        ({
            let after = table.set_handle(ino, handle);
            let entry = table.entries[ino];
            &&& table.entries.contains_key(ino) ==> after.entries[ino] == match entry.kind {
                InodeKind::File { .. } => EntryView {
                    kind: InodeKind::File { handle },
                    generation: table.generation,
                    ..entry
                },
                InodeKind::Directory { .. } => EntryView {
                    kind: InodeKind::Directory { handle },
                    generation: table.generation,
                    ..entry
                },
                _ => entry,
            }
            &&& after.entries.contains_key(other) == table.entries.contains_key(other)
            &&& other != ino ==> after.entries[other] == table.entries[other]
            &&& after == (TableView { entries: after.entries, ..table })
        }),
        ({
            let after = table.set_storage_id(ino, storage_id);
            let entry = table.entries[ino];
            &&& table.entries.contains_key(ino) ==> after.entries[ino] == match entry.kind {
                InodeKind::Storage { .. } => EntryView {
                    kind: InodeKind::Storage { storage_id },
                    ..entry
                },
                _ => entry,
            }
            &&& after.entries.contains_key(other) == table.entries.contains_key(other)
            &&& other != ino ==> after.entries[other] == table.entries[other]
            &&& after == (TableView { entries: after.entries, ..table })
        }),
{
}

/// Adding, removing and renaming one entry leave every other entry as it is, every other name where
/// it leads, and the children of every other directory.
pub proof fn changes_leave_the_others_alone(
    table: TableView,
    ino: u64,
    parent: u64,
    name: Seq<char>,
    kind: InodeKind,
    size: u64,
    time: SystemTime,
    other: u64,
)
    requires
        0 <= table.next_inode < u64::MAX,
    ensures
        ({
            let new = table.next_inode as u64;
            let after = table.add(parent, name, kind, size, time);
            &&& after.entries.contains_key(new) && after.entries[new] == (EntryView {
                inode: new,
                parent,
                name,
                kind,
                size,
                mtime: time,
                atime: time,
                generation: table.generation,
            })
            &&& other != new ==> after.entries.contains_key(other) == table.entries.contains_key(
                other,
            ) && after.entries[other] == table.entries[other]
            &&& other != parent ==> after.kids(other) == table.kids(other)
            &&& after.kids(parent) == table.kids(parent).push(new)
            &&& after.next_inode == table.next_inode + 1
            &&& after.generation == table.generation
            &&& forall|key: (u64, Seq<char>)|
                key != (parent, name) ==> (#[trigger] after.names.contains_key(key)
                    <==> table.names.contains_key(key)) && after.names[key] == table.names[key]
        }),
        ({
            let after = table.remove(ino);
            let entry = table.entries[ino];
            &&& !table.entries.contains_key(ino) ==> after == table
            &&& table.entries.contains_key(ino) ==> {
                &&& other != ino ==> after.entries.contains_key(other)
                    == table.entries.contains_key(other) && after.entries[other]
                    == table.entries[other]
                &&& other != ino && other != entry.parent ==> after.kids(other) == table.kids(other)
                &&& forall|key: (u64, Seq<char>)|
                    key != (entry.parent, entry.name) ==> (#[trigger] after.names.contains_key(key)
                        <==> table.names.contains_key(key)) && after.names[key] == table.names[key]
                &&& after.next_inode == table.next_inode
                &&& after.generation == table.generation
            }
        }),
        ({
            let after = table.rename(ino, parent, name);
            let entry = table.entries[ino];
            &&& !table.entries.contains_key(ino) ==> after == table
            &&& table.entries.contains_key(ino) ==> {
                &&& other != ino ==> after.entries.contains_key(other)
                    == table.entries.contains_key(other) && after.entries[other]
                    == table.entries[other]
                &&& other != parent && other != entry.parent ==> after.kids(other) == table.kids(
                    other,
                )
                &&& entry.parent != parent ==> !after.kids(entry.parent).contains(ino)
                &&& forall|key: (u64, Seq<char>)|
                    key != (entry.parent, entry.name) && key != (parent, name) ==> (
                    #[trigger] after.names.contains_key(key) <==> table.names.contains_key(key))
                        && after.names[key] == table.names[key]
                &&& after.next_inode == table.next_inode
                &&& after.generation == table.generation
            }
        }),
{
    if table.entries.contains_key(ino) {
        let from = table.entries[ino].parent;
        lemma_without(table.kids(from), ino);
        let after = table.rename(ino, parent, name);
        if from != parent && table.children.contains_key(from) {
            assert(after.kids(from) =~= without(table.kids(from), ino));
        }
    }
}

proof fn lemma_sync_each_alone(table: TableView, parent: u64, children: Seq<ChildView>, k: u64)
    requires
        table.names_lead(parent),
        0 <= table.next_inode,
        table.next_inode + children.len() <= u64::MAX,
        table.entries.contains_key(k),
        k < table.next_inode,
        table.entries[k].parent != parent,
    ensures
        ({
            let after = table.sync_each(parent, children);
            &&& after.entries.contains_key(k)
            &&& after.entries[k] == table.entries[k]
            &&& after.kids(parent).contains(k) ==> table.kids(parent).contains(k)
        }),
    decreases children.len(),
{
    if children.len() > 0 {
        let init = children.drop_last();
        let child = children.last();
        lemma_sync_each_alone(table, parent, init, k);
        lemma_sync_each(table, parent, init);
        let before = table.sync_each(parent, init);
        let after = before.sync_one(parent, child);
        if before.names.contains_key((parent, child.name)) {
            assert(before.name_leads(parent, child.name));
        }
        match before.named(parent, child.name) {
            Some(ino) => if !before.has_shape(ino, child.is_dir) {
                let mid = before.remove(ino);
                lemma_without(before.kids(parent), ino);
                assert(after.kids(parent) =~= mid.kids(parent).push(before.next_inode as u64));
                assert(mid.kids(parent).contains(k) ==> before.kids(parent).contains(k)) by {
                    if parent != ino && before.children.contains_key(parent) {
                        assert(mid.kids(parent) =~= without(before.kids(parent), ino));
                    }
                }
                lemma_pushed(mid.kids(parent), before.next_inode as u64, k);
            },
            None => {
                lemma_pushed(before.kids(parent), before.next_inode as u64, k);
            },
        }
    }
}

proof fn lemma_pushed(s: Seq<u64>, x: u64, y: u64)
    requires
        x != y,
    ensures
        s.push(x).contains(y) ==> s.contains(y),
{
    if s.push(x).contains(y) {
        assert(s[s.push(x).index_of(y)] == y);
    }
}

/// A listing of one directory leaves everything that is in another as it was.
pub proof fn listings_leave_other_directories_alone(
    table: TableView,
    parent: u64,
    children: Seq<ChildView>,
    k: u64,
)
    requires
        table.names_lead(parent),
        0 <= table.next_inode,
        table.next_inode + children.len() <= u64::MAX,
        table.entries.contains_key(k),
        k < table.next_inode,
        table.entries[k].parent != parent,
        !table.kids(parent).contains(k),
    ensures
        table.sync(parent, children).entries.contains_key(k),
        table.sync(parent, children).entries[k] == table.entries[k],
{
    let seen = table.sync_each(parent, children);
    lemma_sync_each_alone(table, parent, children, k);
    let gone = seen.gone(seen.kids(parent), children);
    lemma_gone(seen, seen.kids(parent), children);
    lemma_remove_each(seen, parent, gone);
    assert(!gone.contains(k));
    assert(seen.remove_each(gone).entries.contains_key(k));
}

/// A child that a listing no longer reports is gone from the table.
pub proof fn unreported_children_are_gone(
    table: TableView,
    parent: u64,
    children: Seq<ChildView>,
    ino: u64,
)
    requires
        table.names_lead(parent),
        0 <= table.next_inode,
        table.next_inode + children.len() <= u64::MAX,
        parent < table.next_inode,
        forall|name: Seq<char>| #[trigger] table.named(parent, name) != Some(parent),
        table.kids(parent).contains(ino),
        table.entries.contains_key(ino),
        table.entries[ino].parent == parent,
        table.named(parent, table.entries[ino].name) == Some(ino),
        forall|i: int|
            0 <= i < children.len() ==> (#[trigger] children[i]).name != table.entries[ino].name,
    ensures
        !table.sync(parent, children).entries.contains_key(ino),
{
    let seen = table.sync_each(parent, children);
    lemma_sync_each_keeps_unreported(table, parent, children, ino);
    let gone = seen.gone(seen.kids(parent), children);
    lemma_gone(seen, seen.kids(parent), children);
    lemma_remove_each(seen, parent, gone);
    assert(seen.unreported(ino, children));
    assert(gone.contains(ino));
}

proof fn lemma_sync_each_keeps_unreported(
    table: TableView,
    parent: u64,
    children: Seq<ChildView>,
    ino: u64,
)
    requires
        table.names_lead(parent),
        0 <= table.next_inode,
        table.next_inode + children.len() <= u64::MAX,
        parent < table.next_inode,
        forall|name: Seq<char>| #[trigger] table.named(parent, name) != Some(parent),
        table.kids(parent).contains(ino),
        table.entries.contains_key(ino),
        table.entries[ino].parent == parent,
        table.named(parent, table.entries[ino].name) == Some(ino),
        forall|i: int|
            0 <= i < children.len() ==> (#[trigger] children[i]).name != table.entries[ino].name,
    ensures
        ({
            let after = table.sync_each(parent, children);
            &&& after.entries.contains_key(ino)
            &&& after.entries[ino] == table.entries[ino]
            &&& after.named(parent, table.entries[ino].name) == Some(ino)
            &&& after.kids(parent).contains(ino)
            &&& parent < after.next_inode
            &&& forall|name: Seq<char>| #[trigger] after.named(parent, name) != Some(parent)
        }),
    decreases children.len(),
{
    if children.len() > 0 {
        let init = children.drop_last();
        let child = children.last();
        assert forall|i: int| 0 <= i < init.len() implies (#[trigger] init[i]).name
            != table.entries[ino].name by {
            assert(children[i] == init[i]);
        }
        assert(children[children.len() - 1].name != table.entries[ino].name);
        lemma_sync_each_keeps_unreported(table, parent, init, ino);
        lemma_sync_each(table, parent, init);
        let before = table.sync_each(parent, init);
        lemma_sync_one(before, parent, child);
        let after = before.sync_one(parent, child);
        assert(before.named(parent, table.entries[ino].name) is Some);
        let new = before.next_inode as u64;
        match before.named(parent, child.name) {
            Some(other) => if !before.has_shape(other, child.is_dir) {
                assert(before.name_leads(parent, child.name));
                let mid = before.remove(other);
                lemma_without(before.kids(parent), other);
                if other != parent {
                    assert(mid.kids(parent) =~= without(before.kids(parent), other));
                    assert(mid.kids(parent).contains(ino));
                    let i = mid.kids(parent).index_of(ino);
                    assert(after.kids(parent)[i] == ino);
                }
            },
            None => {
                let i = before.kids(parent).index_of(ino);
                assert(after.kids(parent)[i] == ino);
            },
        }
    }
}

} // verus!
