//! What a directory reads as.
use crate::fs::attr::{entry_kind, kind_of, FileKind};
use crate::fs::state::MountState;
use crate::inode::model::TableView;
use crate::inode::FUSE_ROOT_INODE;
use vstd::prelude::*;

verus! {

/// One line of a directory. `offset` is where reading on after it continues.
#[derive(Debug)]
pub struct DirEntry {
    pub offset: u64,
    pub ino: u64,
    pub kind: FileKind,
    pub name: String,
}

/// A [`DirEntry`], with its name as a sequence of characters.
#[verifier::ext_equal]
pub struct DirEntryView {
    pub offset: int,
    pub ino: u64,
    pub kind: FileKind,
    pub name: Seq<char>,
}

impl View for DirEntry {
    type V = DirEntryView;

    open spec fn view(&self) -> DirEntryView {
        DirEntryView {
            offset: self.offset as int,
            ino: self.ino,
            kind: self.kind,
            name: self.name@,
        }
    }
}

pub open spec fn dir_entry_views(entries: Seq<DirEntry>) -> Seq<DirEntryView> {
    Seq::new(entries.len(), |i: int| entries[i]@)
}

/// The lines of those `kids` that are in the table, each with its place in the list.
pub open spec fn child_lines(table: TableView, kids: Seq<u64>) -> Seq<DirEntryView>
    decreases kids.len(),
{
    if kids.len() == 0 {
        Seq::empty()
    } else {
        let before = child_lines(table, kids.drop_last());
        let ino = kids.last();
        if table.entries.contains_key(ino) {
            before.push(
                DirEntryView {
                    offset: kids.len() as int + 2,
                    ino,
                    kind: kind_of(table.entries[ino]),
                    name: table.entries[ino].name,
                },
            )
        } else {
            before
        }
    }
}

/// All lines of a directory: itself, its parent, its children.
pub open spec fn all_lines(table: TableView, dir: u64) -> Seq<DirEntryView> {
    let parent = if table.entries.contains_key(dir) {
        table.entries[dir].parent
    } else {
        FUSE_ROOT_INODE
    };
    seq![
        DirEntryView { offset: 1, ino: dir, kind: FileKind::Directory, name: "."@ },
        DirEntryView { offset: 2, ino: parent, kind: FileKind::Directory, name: ".."@ },
    ] + child_lines(table, table.kids(dir))
}

impl<C> MountState<C> {
    /// The lines of a directory, from the `offset`-th on. Its listing is current.
    pub fn readdir(&self, dir: u64, offset: u64) -> (lines: Vec<DirEntry>)
        requires
            self@.inodes.kids(dir).len() < u64::MAX - 2,
        ensures
            dir_entry_views(lines@) == all_lines(self@.inodes, dir).skip(
                if offset < all_lines(self@.inodes, dir).len() {
                    offset as int
                } else {
                    all_lines(self@.inodes, dir).len() as int
                },
            ),
    {
        let parent: u64 = match self.inodes.get(dir) {
            Some(entry) => entry.parent,
            None => FUSE_ROOT_INODE,
        };
        let mut lines: Vec<DirEntry> = Vec::new();
        lines.push(
            DirEntry { offset: 1, ino: dir, kind: FileKind::Directory, name: ".".to_string() },
        );
        lines.push(
            DirEntry { offset: 2, ino: parent, kind: FileKind::Directory, name: "..".to_string() },
        );
        let children = self.inodes.children(dir);
        let ghost head = dir_entry_views(lines@);
        let mut i: usize = 0;
        assert(dir_entry_views(lines@) =~= head + child_lines(
            self@.inodes,
            children@.take(0),
        ));
        while i < children.len()
            invariant
                i <= children.len(),
                children@ == self@.inodes.kids(dir),
                children@.len() < u64::MAX - 2,
                dir_entry_views(lines@) == head + child_lines(
                    self@.inodes,
                    children@.take(i as int),
                ),
            decreases children.len() - i,
        {
            let ino: u64 = children[i];
            assert(children@.take(i + 1).drop_last() =~= children@.take(i as int));
            let ghost before = lines@;
            if let Some(child) = self.inodes.get(ino) {
                lines.push(
                    DirEntry {
                        offset: i as u64 + 3,
                        ino,
                        kind: entry_kind(child),
                        name: child.name.clone(),
                    },
                );
                assert(dir_entry_views(lines@) =~= dir_entry_views(before).push(
                    lines@.last()@,
                ));
            }
            i += 1;
            assert(dir_entry_views(lines@) =~= head + child_lines(
                self@.inodes,
                children@.take(i as int),
            ));
        }
        assert(children@.take(i as int) =~= children@);
        assert(head =~= seq![
            DirEntryView { offset: 1, ino: dir, kind: FileKind::Directory, name: "."@ },
            DirEntryView { offset: 2, ino: parent, kind: FileKind::Directory, name: ".."@ },
        ]);
        let ghost all = lines@;
        let skip: usize = if offset < lines.len() as u64 {
            offset as usize
        } else {
            lines.len()
        };
        let rest = lines.split_off(skip);
        assert(dir_entry_views(rest@) =~= dir_entry_views(all).skip(skip as int));
        rest
    }
}

proof fn lemma_child_lines(table: TableView, kids: Seq<u64>)
    requires
        forall|i: int| 0 <= i < kids.len() ==> table.entries.contains_key(#[trigger] kids[i]),
    ensures
        child_lines(table, kids).len() == kids.len(),
        forall|i: int|
            0 <= i < kids.len() ==> #[trigger] child_lines(table, kids)[i] == (DirEntryView {
                offset: i + 3,
                ino: kids[i],
                kind: if table.entries[kids[i]].kind is File {
                    FileKind::RegularFile
                } else {
                    FileKind::Directory
                },
                name: table.entries[kids[i]].name,
            }),
    decreases kids.len(),
{
    if kids.len() > 0 {
        let init = kids.drop_last();
        assert forall|i: int| 0 <= i < init.len() implies table.entries.contains_key(
            #[trigger] init[i],
        ) by {
            assert(table.entries.contains_key(kids[i]));
        }
        lemma_child_lines(table, init);
        assert(table.entries.contains_key(kids[kids.len() - 1]));
        assert forall|i: int| 0 <= i < kids.len() implies #[trigger] child_lines(table, kids)[i]
            == (DirEntryView {
            offset: i + 3,
            ino: kids[i],
            kind: if table.entries[kids[i]].kind is File {
                FileKind::RegularFile
            } else {
                FileKind::Directory
            },
            name: table.entries[kids[i]].name,
        }) by {
            if i < init.len() {
                assert(child_lines(table, init)[i].ino == init[i]);
            }
        }
    }
}

/// A directory reads as itself, its parent, and its children in their order, each by its name and as
/// what it is. The offset of a line is how many come before what follows it, so reading on from there
/// neither repeats nor skips a line.
pub proof fn directories_read_as_what_they_hold(table: TableView, dir: u64)
    requires
        table.entries.contains_key(dir),
        forall|i: int|
            0 <= i < table.kids(dir).len() ==> table.entries.contains_key(
                #[trigger] table.kids(dir)[i],
            ),
    ensures
        ({
            let lines = all_lines(table, dir);
            let kids = table.kids(dir);
            &&& lines.len() == kids.len() + 2
            &&& lines[0].ino == dir && lines[0].name == "."@ && lines[0].kind
                == FileKind::Directory
            &&& lines[1].ino == table.entries[dir].parent && lines[1].name == ".."@
                && lines[1].kind == FileKind::Directory
            &&& forall|i: int| 0 <= i < lines.len() ==> (#[trigger] lines[i]).offset == i + 1
            &&& forall|i: int|
                0 <= i < kids.len() ==> {
                    let line = lines[i + 2];
                    let entry = table.entries[#[trigger] kids[i]];
                    &&& line.ino == kids[i]
                    &&& line.name == entry.name
                    &&& line.kind == FileKind::RegularFile <==> entry.kind is File
                }
        }),
{
    let lines = all_lines(table, dir);
    let kids = table.kids(dir);
    lemma_child_lines(table, kids);
    assert forall|i: int| 0 <= i < lines.len() implies (#[trigger] lines[i]).offset == i + 1 by {
        if i >= 2 {
            assert(lines[i] == child_lines(table, kids)[i - 2]);
        }
    }
    assert forall|i: int| 0 <= i < kids.len() implies ({
        let line = lines[i + 2];
        let entry = table.entries[#[trigger] kids[i]];
        &&& line.ino == kids[i]
        &&& line.name == entry.name
        &&& line.kind == FileKind::RegularFile <==> entry.kind is File
    }) by {
        assert(lines[i + 2] == child_lines(table, kids)[i]);
    }
}

/// The lines behind the first two are those of the children that the table knows, each with its place
/// among all the children: none is left out, and nothing else is shown.
pub proof fn lines_keep_the_places_of_the_children(table: TableView, dir: u64, i: int, k: int)
    ensures
        ({
            let lines = all_lines(table, dir);
            let kids = table.kids(dir);
            &&& 2 <= i < lines.len() ==> 3 <= lines[i].offset < kids.len() + 3
                && lines[i].ino == kids[lines[i].offset - 3]
                && table.entries.contains_key(lines[i].ino)
            &&& 0 <= k < kids.len() && table.entries.contains_key(kids[k]) ==> exists|j: int|
                2 <= j < lines.len() && (#[trigger] lines[j]).offset == k + 3
        }),
{
    let lines = all_lines(table, dir);
    let kids = table.kids(dir);
    let below = child_lines(table, kids);
    lemma_places(table, kids);
    if 2 <= i < lines.len() {
        assert(lines[i] == below[i - 2]);
    }
    if 0 <= k < kids.len() && table.entries.contains_key(kids[k]) {
        let j = choose|j: int| 0 <= j < below.len() && (#[trigger] below[j]).offset == k + 3;
        assert(lines[j + 2] == below[j]);
    }
}

proof fn lemma_places(table: TableView, kids: Seq<u64>)
    ensures
        ({
            let lines = child_lines(table, kids);
            &&& forall|i: int|
                0 <= i < lines.len() ==> 3 <= (#[trigger] lines[i]).offset < kids.len() + 3
                    && lines[i].ino == kids[lines[i].offset - 3] && table.entries.contains_key(
                    lines[i].ino,
                )
            &&& forall|k: int|
                0 <= k < kids.len() && table.entries.contains_key(#[trigger] kids[k]) ==> exists|
                    j: int,
                |
                    0 <= j < lines.len() && (#[trigger] lines[j]).offset == k + 3
        }),
    decreases kids.len(),
{
    if kids.len() > 0 {
        let init = kids.drop_last();
        let before = child_lines(table, init);
        let lines = child_lines(table, kids);
        lemma_places(table, init);
        assert forall|i: int| 0 <= i < lines.len() implies 3 <= (#[trigger] lines[i]).offset
            < kids.len() + 3 && lines[i].ino == kids[lines[i].offset - 3]
            && table.entries.contains_key(lines[i].ino) by {
            if i < before.len() {
                assert(lines[i] == before[i]);
            }
        }
        assert forall|k: int|
            0 <= k < kids.len() && table.entries.contains_key(
                #[trigger] kids[k],
            ) implies exists|j: int| 0 <= j < lines.len() && (#[trigger] lines[j]).offset == k + 3 by {
            if k < init.len() {
                assert(init[k] == kids[k]);
                let j = choose|j: int|
                    0 <= j < before.len() && (#[trigger] before[j]).offset == k + 3;
                assert(lines[j] == before[j]);
            } else {
                assert(lines[before.len() as int].offset == k + 3);
            }
        }
    }
}

} // verus!
