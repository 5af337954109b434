//! What each filesystem call answers and changes, before and after its device operation.
use crate::buffer::{slice_at, BufferView};
use crate::device_error::DeviceError;
use crate::fs::attr::{entry_attr, inode_to_file_attr, FileAttr};
use crate::fs::errno::Errno;
use crate::fs::operation::model::RequestView;
use crate::fs::operation::Request;
use crate::fs::protocol::{result_view, Reply, ReplyView};
use crate::fs::read_run::{ReadPhaseView, ReadRun, ReadRunView};
use crate::fs::spooled::{fits_spool, spool_fits};
use crate::fs::state::{MountState, StateView};
use crate::fs::{read_strategy, strategy_for, ReadStrategy};
use crate::inode::model::{dir_kind, object_kind};
use crate::inode::{InodeKind, ObjectHandle, FUSE_ROOT_INODE};
use std::ops::Range;
use std::time::SystemTime;
use vstd::prelude::*;

verus! {

broadcast use vstd::std_specs::hash::group_hash_axioms;

/// `fh + 1`, starting over after the last 64-bit number.
pub open spec fn following(fh: int) -> int {
    if fh < u64::MAX {
        fh + 1
    } else {
        0
    }
}

/// A name, where the kernel handed one that is text.
pub open spec fn text_of(name: Option<&str>) -> Option<Seq<char>> {
    match name {
        Some(s) => Some(s@),
        None => None,
    }
}

impl<C> StateView<C> {
    /// Whether `inode` is a directory of the table.
    pub open spec fn is_dir(self, inode: u64) -> bool {
        self.inodes.has_shape(inode, true)
    }

    /// Whether what `name` in `parent` stands for, if anything, is in the table.
    pub open spec fn findable(self, parent: u64, name: Seq<char>) -> bool {
        match self.inodes.named(parent, name) {
            Some(ino) => self.inodes.entries.contains_key(ino),
            None => true,
        }
    }

    /// The size that a file has where no write buffer says otherwise.
    pub open spec fn known_size(self, inode: u64) -> u64 {
        if self.inodes.entries.contains_key(inode) {
            self.inodes.entries[inode].size
        } else {
            0
        }
    }

    /// The state with a write buffer open for `fh`; one that is open stays.
    pub open spec fn with_buffer(self, fh: u64, inode: u64, original_size: u64) -> StateView<C> {
        if self.write_buf.contains_key(fh) {
            self
        } else {
            StateView {
                write_buf: self.write_buf.insert(fh, BufferView::empty(inode, original_size)),
                ..self
            }
        }
    }

    /// The state with `data` written at `offset` to what is spooled for `fh`.
    pub open spec fn recorded(self, fh: u64, offset: int, data: Seq<u8>) -> StateView<C> {
        StateView {
            write_buf: self.write_buf.insert(fh, self.write_buf[fh].written(offset, data)),
            ..self
        }
    }

    /// The state after a write through `fh`, into its spool.
    pub open spec fn with_written(
        self,
        inode: u64,
        fh: u64,
        offset: int,
        data: Seq<u8>,
    ) -> StateView<C> {
        self.with_buffer(fh, inode, self.known_size(inode)).recorded(fh, offset, data)
    }

    /// The state with the next file handle given out to `inode`.
    pub open spec fn with_open_file(self, inode: u64) -> StateView<C> {
        StateView {
            fh_to_inode: self.fh_to_inode.insert(self.next_fh as u64, inode),
            next_fh: following(self.next_fh),
            ..self
        }
    }

    /// Whether a directory has to be listed before it is looked into.
    pub open spec fn must_list(self, dir: u64) -> bool {
        !self.dirs_loaded.contains(dir) && dir != FUSE_ROOT_INODE
    }

    /// What a lookup answers.
    pub open spec fn looked_up(
        self,
        parent: u64,
        name: Seq<char>,
        uid: u32,
        gid: u32,
    ) -> Result<FileAttr, Errno> {
        match self.inodes.named(parent, name) {
            Some(ino) => Ok(entry_attr(self.inodes.entries[ino], uid, gid)),
            None => Err(Errno::ENOENT),
        }
    }

    /// What opening a file answers, but for the handle.
    pub open spec fn open_error(
        self,
        inode: u64,
        write_only: bool,
        supports_partial_download: bool,
    ) -> Option<Errno> {
        if !self.inodes.entries.contains_key(inode) {
            Some(Errno::ENOENT)
        } else if dir_kind(self.inodes.entries[inode].kind) {
            Some(Errno::EISDIR)
        } else if !write_only && strategy_for(
            supports_partial_download,
            self.inodes.entries[inode].size,
            self.full_download_limit,
        ) == ReadStrategy::TooLargeForSequentialFull {
            Some(Errno::EFBIG)
        } else {
            None
        }
    }

    /// Why something new cannot be made in `parent`, before the device is asked.
    pub open spec fn creation_error(self, parent: u64, name: Option<Seq<char>>) -> Option<Errno> {
        if self.read_only {
            Some(Errno::EROFS)
        } else if name is None {
            Some(Errno::EINVAL)
        } else if !self.is_dir(parent) {
            Some(Errno::ENOTDIR)
        } else {
            None
        }
    }

    /// What `name` in `parent` stands for, or why nothing there can be changed.
    pub open spec fn target(self, parent: u64, name: Option<Seq<char>>) -> Result<u64, Errno> {
        if self.read_only {
            Err(Errno::EROFS)
        } else {
            match name {
                None => Err(Errno::ENOENT),
                Some(n) => match self.inodes.named(parent, n) {
                    Some(ino) => Ok(ino),
                    None => Err(Errno::ENOENT),
                },
            }
        }
    }

    /// What a new file's creation leaves: an entry for `handle`, open for writing under the next
    /// file handle.
    pub open spec fn with_new_file(
        self,
        parent: u64,
        name: Seq<char>,
        handle: ObjectHandle,
        now: SystemTime,
    ) -> StateView<C> {
        let ino = self.inodes.next_inode as u64;
        StateView {
            inodes: self.inodes.add(parent, name, object_kind(false, handle), 0, now),
            ..self
        }.with_open_file(ino).with_buffer(self.next_fh as u64, ino, 0)
    }

    /// What truncating or growing a file through an open handle leaves. A truncation to nothing
    /// starts a new buffer.
    pub open spec fn with_size_set(self, inode: u64, fh: u64, size: u64) -> StateView<C> {
        let opened = self.with_buffer(fh, inode, self.known_size(inode));
        if size == 0 {
            StateView {
                write_buf: opened.write_buf.insert(fh, BufferView::empty(inode, 0)),
                ..opened
            }
        } else {
            opened
        }
    }
}

/// What a read starts with.
#[derive(Debug)]
pub enum ReadStart {
    /// The answer is this part of the spool file of the file handle.
    Spooled(Range<u64>),
    /// The answer is nothing.
    Empty,
    /// There is no answer.
    Fail(Errno),
    /// The bytes come from the device, for an object of this size.
    Fetch { object_size: u64, run: ReadRun },
}

/// What changing attributes comes to.
#[derive(Debug)]
pub struct SetattrAnswer {
    /// The file handle whose spool file has to be emptied.
    pub emptied: Option<u64>,
    pub attr: Result<FileAttr, Errno>,
}

/// What closing a file has to flush first.
#[derive(Debug)]
pub enum FlushStart {
    /// Nothing.
    Clean,
    /// The file the bytes were for is gone.
    Lost,
    /// The bytes of the spool file, by this request.
    Flush { request: Request },
}

impl<C> MountState<C> {
    /// Hands out the next file handle.
    fn alloc_fh(&mut self) -> (fh: u64)
        ensures
            fh == old(self)@.next_fh,
            final(self)@ == (StateView { next_fh: following(fh as int), ..old(self)@ }),
    {
        let fh: u64 = self.next_fh;
        self.next_fh = if fh < u64::MAX {
            fh + 1
        } else {
            0
        };
        fh
    }

    /// Whether `inode` is a directory of the table.
    fn has_dir(&self, inode: u64) -> (dir: bool)
        ensures
            dir == self@.is_dir(inode),
    {
        match self.inodes.get(inode) {
            Some(entry) => entry.is_dir(),
            None => false,
        }
    }

    /// What has to be asked before a directory is looked into: nothing where its listing is
    /// current. The root lists storages, which never change under a mount.
    pub fn load_dir(&mut self, dir: u64) -> (request: Option<Request>)
        ensures
            match request {
                Some(r) => {
                    &&& old(self)@.must_list(dir)
                    &&& r@ == RequestView::List { dir }
                    &&& final(self)@ == old(self)@
                },
                None => {
                    &&& !old(self)@.must_list(dir)
                    &&& final(self)@ == (StateView {
                        dirs_loaded: old(self)@.dirs_loaded.insert(dir),
                        ..old(self)@
                    })
                },
            },
    {
        if self.dirs_loaded.contains(&dir) {
            assert(self@.dirs_loaded.insert(dir) =~= self@.dirs_loaded);
            return None;
        }
        if dir == FUSE_ROOT_INODE {
            self.dirs_loaded.insert(dir);
            return None;
        }
        Some(Request::List { dir })
    }

    /// Takes the result of listing a directory: a successful one makes its listing current.
    pub fn dir_loaded(&mut self, dir: u64, result: &Result<Reply, DeviceError>)
        ensures
            final(self)@ == if result is Ok {
                StateView { dirs_loaded: old(self)@.dirs_loaded.insert(dir), ..old(self)@ }
            } else {
                old(self)@
            },
    {
        if result.is_ok() {
            self.dirs_loaded.insert(dir);
        }
    }

    /// Looks a name up in a directory whose listing is current.
    pub fn lookup(&self, parent: u64, name: &str, uid: u32, gid: u32) -> (found: Result<
        FileAttr,
        Errno,
    >)
        requires
            self@.findable(parent, name@),
        ensures
            found == self@.looked_up(parent, name@, uid, gid),
    {
        match self.inodes.lookup(parent, name) {
            Some(ino) => match self.inodes.get(ino) {
                Some(entry) => Ok(inode_to_file_attr(entry, uid, gid)),
                None => Err(Errno::ENOENT),
            },
            None => Err(Errno::ENOENT),
        }
    }

    /// The attributes of an inode. Where a file is open for writing, its size is what has been
    /// written; where several handles are open, which of them counts is open.
    pub fn getattr(&self, ino: u64, uid: u32, gid: u32) -> (found: Result<FileAttr, Errno>)
        ensures
            match found {
                Err(e) => !self@.inodes.entries.contains_key(ino) && e == Errno::ENOENT,
                Ok(attr) => {
                    let plain = entry_attr(self@.inodes.entries[ino], uid, gid);
                    &&& self@.inodes.entries.contains_key(ino)
                    &&& !self@.is_held_open(ino) ==> attr == plain
                    &&& self@.is_held_open(ino) ==> exists|fh: u64| #[trigger]
                        self@.fh_to_inode.contains_key(fh) && self@.fh_to_inode[fh] == ino && attr
                            == if self@.write_buf.contains_key(fh) {
                            plain.resized(self@.write_buf[fh].data.len() as u64)
                        } else {
                            plain
                        }
                },
            },
    {
        let entry = match self.inodes.get(ino) {
            Some(entry) => entry,
            None => {
                return Err(Errno::ENOENT);
            },
        };
        let attr = inode_to_file_attr(entry, uid, gid);
        for fh in it: self.fh_to_inode.keys()
            invariant
                it.seq().unref().to_set() == self.fh_to_inode@.dom(),
                attr == entry_attr(self@.inodes.entries[ino], uid, gid),
                self@.inodes.entries.contains_key(ino),
                forall|i: int|
                    0 <= i < it.index() ==> self@.fh_to_inode[*#[trigger] it.seq()[i]] != ino,
        {
            assert(self.fh_to_inode@.contains_key(*fh)) by {
                assert(it.seq().unref()[it.index()] == *fh);
            }
            if let Some(inode) = self.fh_to_inode.get(fh) {
                if *inode == ino {
                    assert(self@.is_held_open(ino)) by {
                        assert(self@.fh_to_inode.contains_key(*fh));
                    }
                    return match self.write_buf.size(*fh) {
                        Some(size) => Ok(attr.with_size(size)),
                        None => Ok(attr),
                    };
                }
            }
        }
        proof {
            if self@.is_held_open(ino) {
                let fh = choose|fh: u64| #[trigger]
                    self@.fh_to_inode.contains_key(fh) && self@.fh_to_inode[fh] == ino;
                assert(self.fh_to_inode@.dom().contains(fh));
                assert(false);
            }
        }
        Ok(attr)
    }

    /// Opens a file.
    ///
    /// An object that cannot be read is refused here rather than at the first read: a copy would
    /// otherwise have created its destination file before finding out. Write-only opens are none
    /// of this check's business: an overwrite replaces the object without reading a byte of it.
    pub fn open(
        &mut self,
        ino: u64,
        write_only: bool,
        supports_partial_download: bool,
    ) -> (opened: Result<u64, Errno>)
        ensures
            match old(self)@.open_error(ino, write_only, supports_partial_download) {
                Some(e) => opened == Err::<u64, _>(e) && final(self)@ == old(self)@,
                None => opened == Ok::<_, Errno>(old(self)@.next_fh as u64) && final(self)@ == old(
                    self,
                )@.with_open_file(ino),
            },
    {
        match self.inodes.get(ino) {
            None => Err(Errno::ENOENT),
            Some(entry) => {
                if entry.is_dir() {
                    return Err(Errno::EISDIR);
                }
                if !write_only && read_strategy(
                    supports_partial_download,
                    entry.size,
                    self.full_download_limit,
                ) == ReadStrategy::TooLargeForSequentialFull {
                    return Err(Errno::EFBIG);
                }
                let fh: u64 = self.alloc_fh();
                self.fh_to_inode.insert(fh, ino);
                Ok(fh)
            },
        }
    }

    /// Opens a directory: its listing is asked for anew.
    pub fn opendir(&mut self, ino: u64) -> (opened: Result<u64, Errno>)
        ensures
            if !old(self)@.inodes.entries.contains_key(ino) {
                opened == Err::<u64, _>(Errno::ENOENT) && final(self)@ == old(self)@
            } else if !old(self)@.is_dir(ino) {
                opened == Err::<u64, _>(Errno::ENOTDIR) && final(self)@ == old(self)@
            } else {
                opened == Ok::<_, Errno>(old(self)@.next_fh as u64) && final(self)@ == (StateView {
                    next_fh: following(old(self)@.next_fh),
                    dirs_loaded: old(self)@.dirs_loaded.remove(ino),
                    ..old(self)@
                })
            },
    {
        match self.inodes.get(ino) {
            None => Err(Errno::ENOENT),
            Some(entry) => {
                if !entry.is_dir() {
                    return Err(Errno::ENOTDIR);
                }
                let fh: u64 = self.alloc_fh();
                self.dirs_loaded.remove(&ino);
                Ok(fh)
            },
        }
    }

    /// What a read starts with. A file that is open for writing answers from its spool; past the
    /// end, and for no bytes, no device is asked.
    pub fn begin_read(
        &self,
        ino: u64,
        fh: u64,
        offset: u64,
        size: u32,
        supports_partial_download: bool,
    ) -> (start: ReadStart)
        ensures
            if self@.write_buf.contains_key(fh) {
                let data = self@.write_buf[fh].data;
                &&& start matches ReadStart::Spooled(window)
                &&& window.start <= window.end <= data.len()
                &&& data.subrange(window.start as int, window.end as int) == slice_at(
                    data,
                    offset as int,
                    size as int,
                )
            } else if !self@.inodes.entries.contains_key(ino) {
                start == ReadStart::Fail(Errno::ENOENT)
            } else {
                let entry = self@.inodes.entries[ino];
                if dir_kind(entry.kind) {
                    start == ReadStart::Fail(Errno::EISDIR)
                } else if size == 0 || offset >= entry.size {
                    start is Empty
                } else {
                    &&& start matches ReadStart::Fetch { object_size, run }
                    &&& object_size == entry.size
                    &&& run@ == (ReadRunView {
                        inode: ino,
                        offset,
                        size: size as u64,
                        object_size: entry.size,
                        strategy: strategy_for(
                            supports_partial_download,
                            entry.size,
                            self@.full_download_limit,
                        ),
                        phase: ReadPhaseView::Fresh,
                    })
                }
            },
    {
        if let Some(window) = self.write_buf.window(fh, offset, size) {
            return ReadStart::Spooled(window);
        }
        let entry = match self.inodes.get(ino) {
            Some(entry) => entry,
            None => {
                return ReadStart::Fail(Errno::ENOENT);
            },
        };
        if entry.is_dir() {
            return ReadStart::Fail(Errno::EISDIR);
        }
        if size == 0 || offset >= entry.size {
            return ReadStart::Empty;
        }
        let strategy = read_strategy(
            supports_partial_download,
            entry.size,
            self.full_download_limit,
        );
        ReadStart::Fetch {
            object_size: entry.size,
            run: ReadRun::new(ino, offset, size as u64, entry.size, strategy),
        }
    }

    /// What a write starts with: a spool for the file handle, and whether the bytes can go into it
    /// at `offset`.
    pub fn begin_write(&mut self, ino: u64, fh: u64, offset: u64, len: usize) -> (start: Result<
        (),
        Errno,
    >)
        ensures
            if old(self)@.read_only {
                start == Err::<(), _>(Errno::EROFS) && final(self)@ == old(self)@
            } else {
                &&& start == if spool_fits(offset, len as nat) {
                    Ok::<(), Errno>(())
                } else {
                    Err(Errno::EIO)
                }
                &&& final(self)@ == old(self)@.with_buffer(fh, ino, old(self)@.known_size(ino))
            },
    {
        if self.read_only {
            return Err(Errno::EROFS);
        }
        self.ensure_buffer(ino, fh);
        if fits_spool(offset, len) {
            Ok(())
        } else {
            Err(Errno::EIO)
        }
    }

    /// Takes note of a write. `stored` says whether `data` is in the spool file of `fh` at
    /// `offset`.
    pub fn finish_write(&mut self, fh: u64, offset: u64, data: &[u8], stored: bool) -> (written:
        Result<u32, Errno>)
        ensures
            if stored && old(self)@.write_buf.contains_key(fh) && spool_fits(offset, data@.len()) {
                &&& written matches Ok(n) && n == data@.len() % 0x1_0000_0000
                &&& final(self)@ == old(self)@.recorded(fh, offset as int, data@)
            } else {
                written == Err::<u32, _>(Errno::EIO) && final(self)@ == old(self)@
            },
    {
        if stored && self.write_buf.record(fh, offset, data) {
            Ok((data.len() as u64 % 0x1_0000_0000) as u32)
        } else {
            Err(Errno::EIO)
        }
    }

    /// Starts a spool for `fh` unless there is one.
    fn ensure_buffer(&mut self, ino: u64, fh: u64)
        ensures
            final(self)@ == old(self)@.with_buffer(fh, ino, old(self)@.known_size(ino)),
            final(self)@.write_buf.contains_key(fh),
    {
        if !self.write_buf.is_open(fh) {
            let original_size: u64 = match self.inodes.get(ino) {
                Some(entry) => entry.size,
                None => 0,
            };
            self.write_buf.open(fh, ino, original_size);
        }
    }

    /// Changes a file's size through an open handle, and answers its attributes. Nothing else of
    /// what could be set is kept.
    pub fn setattr(
        &mut self,
        ino: u64,
        size: Option<u64>,
        fh: Option<u64>,
        uid: u32,
        gid: u32,
    ) -> (answer: SetattrAnswer)
        ensures
            if size is Some && old(self)@.read_only {
                &&& answer.attr == Err::<FileAttr, _>(Errno::EROFS)
                &&& answer.emptied is None
                &&& final(self)@ == old(self)@
            } else {
                &&& answer.emptied == if size == Some(0u64) {
                    fh
                } else {
                    None
                }
                &&& final(self)@ == match (size, fh) {
                    (Some(new_size), Some(handle)) => old(self)@.with_size_set(
                        ino,
                        handle,
                        new_size,
                    ),
                    _ => old(self)@,
                }
                &&& if old(self)@.inodes.entries.contains_key(ino) {
                    let plain = entry_attr(old(self)@.inodes.entries[ino], uid, gid);
                    answer.attr == Ok::<_, Errno>(
                        match size {
                            Some(new_size) => plain.resized(new_size),
                            None => plain,
                        },
                    )
                } else {
                    answer.attr == Err::<FileAttr, _>(Errno::ENOENT)
                }
            },
    {
        let mut emptied: Option<u64> = None;
        if let Some(new_size) = size {
            if self.read_only {
                return SetattrAnswer { emptied: None, attr: Err(Errno::EROFS) };
            }
            if let Some(fh) = fh {
                self.ensure_buffer(ino, fh);
                if new_size == 0 {
                    let ghost opened = self@;
                    self.write_buf.close(fh);
                    self.write_buf.open(fh, ino, 0);
                    emptied = Some(fh);
                    assert(self@.write_buf =~= opened.write_buf.insert(
                        fh,
                        BufferView::empty(ino, 0),
                    ));
                }
            }
        }
        let attr = match self.inodes.get(ino) {
            Some(entry) => {
                let attr = inode_to_file_attr(entry, uid, gid);
                match size {
                    Some(new_size) => Ok(attr.with_size(new_size)),
                    None => Ok(attr),
                }
            },
            None => Err(Errno::ENOENT),
        };
        SetattrAnswer { emptied, attr }
    }

    /// Why something new cannot be made in `parent`, before the device is asked.
    fn refuse_creation(&self, parent: u64, name: Option<&str>) -> (refused: Option<Errno>)
        ensures
            refused == self@.creation_error(parent, text_of(name)),
    {
        if self.read_only {
            Some(Errno::EROFS)
        } else if name.is_none() {
            Some(Errno::EINVAL)
        } else if !self.has_dir(parent) {
            Some(Errno::ENOTDIR)
        } else {
            None
        }
    }

    /// What creating a file asks of the device.
    pub fn begin_create(&self, parent: u64, name: Option<&str>) -> (start: Result<Request, Errno>)
        ensures
            match self@.creation_error(parent, text_of(name)) {
                Some(e) => start == Err::<Request, _>(e),
                None => start matches Ok(request) && request@ == (RequestView::CreateFile {
                    parent,
                    name: text_of(name)->0,
                }),
            },
    {
        match (self.refuse_creation(parent, name), name) {
            (Some(e), _) => Err(e),
            (None, Some(n)) => Ok(Request::CreateFile { parent, name: n.to_string() }),
            (None, None) => Err(Errno::EINVAL),
        }
    }

    /// Takes the answer to a file's creation: on success the new file has an inode and is open
    /// for writing.
    pub fn finish_create(
        &mut self,
        parent: u64,
        name: &str,
        result: &Result<Reply, DeviceError>,
        now: SystemTime,
        uid: u32,
        gid: u32,
    ) -> (created: Result<(FileAttr, u64), Errno>)
        requires
            old(self)@.inodes.next_inode < u64::MAX,
        ensures
            match result_view(*result) {
                Ok(ReplyView::Created(handle)) => {
                    let after = old(self)@.with_new_file(parent, name@, handle, now);
                    &&& final(self)@ == after
                    &&& created == Ok::<_, Errno>(
                        (
                            entry_attr(
                                after.inodes.entries[old(self)@.inodes.next_inode as u64],
                                uid,
                                gid,
                            ),
                            old(self)@.next_fh as u64,
                        ),
                    )
                },
                _ => created == Err::<(FileAttr, u64), _>(Errno::EIO) && final(self)@ == old(self)@,
            },
    {
        match result {
            Ok(Reply::Created(handle)) => {
                let ino: u64 = self.inodes.add_object(
                    parent,
                    *handle,
                    name.to_string(),
                    false,
                    0,
                    now,
                );
                let fh: u64 = self.alloc_fh();
                self.fh_to_inode.insert(fh, ino);
                self.write_buf.open(fh, ino, 0);
                assert(self@ =~= old(self)@.with_new_file(parent, name@, *handle, now));
                match self.inodes.get(ino) {
                    Some(entry) => Ok((inode_to_file_attr(entry, uid, gid), fh)),
                    None => Err(Errno::EIO),
                }
            },
            _ => Err(Errno::EIO),
        }
    }

    /// What creating a folder asks of the device.
    pub fn begin_mkdir(&self, parent: u64, name: Option<&str>) -> (start: Result<Request, Errno>)
        ensures
            match self@.creation_error(parent, text_of(name)) {
                Some(e) => start == Err::<Request, _>(e),
                None => start matches Ok(request) && request@ == (RequestView::CreateFolder {
                    parent,
                    name: text_of(name)->0,
                }),
            },
    {
        match (self.refuse_creation(parent, name), name) {
            (Some(e), _) => Err(e),
            (None, Some(n)) => Ok(Request::CreateFolder { parent, name: n.to_string() }),
            (None, None) => Err(Errno::EINVAL),
        }
    }

    /// Takes the answer to a folder's creation.
    pub fn finish_mkdir(
        &mut self,
        parent: u64,
        name: &str,
        result: &Result<Reply, DeviceError>,
        now: SystemTime,
        uid: u32,
        gid: u32,
    ) -> (created: Result<FileAttr, Errno>)
        requires
            old(self)@.inodes.next_inode < u64::MAX,
        ensures
            match result_view(*result) {
                Ok(ReplyView::Created(handle)) => {
                    let table = old(self)@.inodes.add(
                        parent,
                        name@,
                        object_kind(true, handle),
                        0,
                        now,
                    );
                    &&& final(self)@ == (StateView { inodes: table, ..old(self)@ })
                    &&& created == Ok::<_, Errno>(
                        entry_attr(
                            table.entries[old(self)@.inodes.next_inode as u64],
                            uid,
                            gid,
                        ),
                    )
                },
                _ => created == Err::<FileAttr, _>(Errno::EIO) && final(self)@ == old(self)@,
            },
    {
        match result {
            Ok(Reply::Created(handle)) => {
                let ino: u64 = self.inodes.add_object(
                    parent,
                    *handle,
                    name.to_string(),
                    true,
                    0,
                    now,
                );
                match self.inodes.get(ino) {
                    Some(entry) => Ok(inode_to_file_attr(entry, uid, gid)),
                    None => Err(Errno::EIO),
                }
            },
            _ => Err(Errno::EIO),
        }
    }

    /// What `name` in `parent` stands for, or why nothing there can be changed.
    fn find_target(&self, parent: u64, name: Option<&str>) -> (found: Result<u64, Errno>)
        ensures
            found == self@.target(parent, text_of(name)),
    {
        if self.read_only {
            return Err(Errno::EROFS);
        }
        match name {
            None => Err(Errno::ENOENT),
            Some(n) => match self.inodes.lookup(parent, n) {
                Some(ino) => Ok(ino),
                None => Err(Errno::ENOENT),
            },
        }
    }

    /// Which file a deletion is about, and what it asks of the device.
    pub fn begin_unlink(&self, parent: u64, name: Option<&str>) -> (start: Result<
        (u64, Request),
        Errno,
    >)
        ensures
            match self@.target(parent, text_of(name)) {
                Err(e) => start == Err::<(u64, Request), _>(e),
                Ok(ino) => if self@.is_dir(ino) {
                    start == Err::<(u64, Request), _>(Errno::EISDIR)
                } else {
                    &&& start matches Ok(removal)
                    &&& removal.0 == ino
                    &&& removal.1@ == (RequestView::DeleteFile { inode: ino })
                },
            },
    {
        match self.find_target(parent, name) {
            Err(e) => Err(e),
            Ok(ino) => if self.has_dir(ino) {
                Err(Errno::EISDIR)
            } else {
                Ok((ino, Request::DeleteFile { inode: ino }))
            },
        }
    }

    /// Which folder a deletion is about, and what it asks of the device. A storage cannot be
    /// deleted.
    pub fn begin_rmdir(&self, parent: u64, name: Option<&str>) -> (start: Result<
        (u64, Request),
        Errno,
    >)
        ensures
            match self@.target(parent, text_of(name)) {
                Err(e) => start == Err::<(u64, Request), _>(e),
                Ok(ino) => if self@.inodes.entries.contains_key(ino)
                    && self@.inodes.entries[ino].kind is Directory {
                    &&& start matches Ok(removal)
                    &&& removal.0 == ino
                    &&& removal.1@ == (RequestView::DeleteObject { inode: ino })
                } else {
                    start == Err::<(u64, Request), _>(Errno::ENOTDIR)
                },
            },
    {
        match self.find_target(parent, name) {
            Err(e) => Err(e),
            Ok(ino) => match self.inodes.get(ino) {
                Some(entry) => match entry.kind {
                    InodeKind::Directory { .. } => Ok((ino, Request::DeleteObject { inode: ino })),
                    _ => Err(Errno::ENOTDIR),
                },
                None => Err(Errno::ENOTDIR),
            },
        }
    }

    /// Takes the answer to a deletion: what is gone from the device is gone from the table.
    pub fn finish_removal(&mut self, ino: u64, result: &Result<Reply, DeviceError>) -> (answer:
        Result<(), Errno>)
        ensures
            if result is Ok {
                answer is Ok && final(self)@ == (StateView {
                    inodes: old(self)@.inodes.remove(ino),
                    ..old(self)@
                })
            } else {
                answer == Err::<(), _>(Errno::EIO) && final(self)@ == old(self)@
            },
    {
        if result.is_ok() {
            self.inodes.remove(ino);
            Ok(())
        } else {
            Err(Errno::EIO)
        }
    }

    /// What closing a file has to flush. Its spool is no longer accounted for afterwards.
    pub fn begin_release(&mut self, fh: u64) -> (start: FlushStart)
        ensures
            final(self)@ == (StateView { write_buf: old(self)@.write_buf.remove(fh), ..old(self)@ }),
            if !old(self)@.write_buf.contains_key(fh) || !old(self)@.write_buf[fh].dirty {
                start is Clean
            } else {
                let buffer = old(self)@.write_buf[fh];
                if !old(self)@.inodes.entries.contains_key(buffer.inode) {
                    start is Lost
                } else {
                    let entry = old(self)@.inodes.entries[buffer.inode];
                    &&& start matches FlushStart::Flush { request }
                    &&& request@ == (RequestView::Flush {
                        inode: buffer.inode,
                        parent: entry.parent,
                        name: entry.name,
                        size: buffer.data.len() as u64,
                    })
                }
            },
    {
        let buffer = match self.write_buf.close(fh) {
            Some(buffer) => buffer,
            None => {
                return FlushStart::Clean;
            },
        };
        if !buffer.is_dirty() {
            return FlushStart::Clean;
        }
        let inode: u64 = buffer.inode();
        match self.inodes.get(inode) {
            None => FlushStart::Lost,
            Some(entry) => {
                FlushStart::Flush {
                    request: Request::Flush {
                        inode,
                        parent: entry.parent,
                        name: entry.name.clone(),
                        size: buffer.len(),
                    },
                }
            },
        }
    }

    /// Gives a file handle back. `filling` says whether a whole-object download of its file is
    /// running. A failed flush means that the bytes never reached the device, so the close has to
    /// say so.
    pub fn finish_release(
        &mut self,
        fh: u64,
        filling: bool,
        flushed: &Result<Reply, DeviceError>,
    ) -> (answer: Result<(), Errno>)
        ensures
            answer == if flushed is Ok {
                Ok::<(), Errno>(())
            } else {
                Err(Errno::EIO)
            },
            final(self)@ == if old(self)@.fh_to_inode.contains_key(fh) {
                StateView {
                    fh_to_inode: old(self)@.fh_to_inode.remove(fh),
                    ..old(self)@
                }.cache_dropped(old(self)@.fh_to_inode[fh], filling)
            } else {
                old(self)@
            },
    {
        if let Some(inode) = self.fh_to_inode.remove(&fh) {
            self.drop_read_cache_if_unused(inode, filling);
        } else {
            assert(self@.fh_to_inode =~= old(self)@.fh_to_inode);
        }
        if flushed.is_ok() {
            Ok(())
        } else {
            Err(Errno::EIO)
        }
    }
}

} // verus!
