//! What has been written to open files, spooled to disk until they are closed.
//!
//! The bytes are in spool files, one for each file handle, which the owner of the mount writes and
//! reads. This keeps account of them: how long each spool is, and which part of it answers a read.
//! Memory stays flat however much is written.
use crate::buffer::{slice_at, BufferView};
use crate::maps::value_mut;
use std::collections::HashMap;
use std::ops::Range;
use vstd::prelude::*;

verus! {

broadcast use vstd::std_specs::hash::group_hash_axioms;

/// Whether a spool file can hold `len` bytes at `offset`.
pub open spec fn spool_fits(offset: u64, len: nat) -> bool {
    offset + len <= i64::MAX
}

/// The account of one spool file.
pub struct SpooledWrite {
    inode: u64,
    original_size: u64,
    len: u64,
    dirty: bool,
    /// What the spool file holds.
    data: Ghost<Seq<u8>>,
}

impl View for SpooledWrite {
    type V = BufferView;

    closed spec fn view(&self) -> BufferView {
        BufferView {
            inode: self.inode,
            original_size: self.original_size,
            data: self.data@,
            dirty: self.dirty,
        }
    }
}

impl SpooledWrite {
    #[verifier::type_invariant]
    spec fn measured(&self) -> bool {
        self.len == self.data@.len()
    }

    /// The account of an empty spool file.
    pub fn new(inode: u64, original_size: u64) -> (spooled: Self)
        ensures
            spooled@ == BufferView::empty(inode, original_size),
    {
        SpooledWrite { inode, original_size, len: 0, dirty: false, data: Ghost(Seq::empty()) }
    }

    /// The inode that the bytes are for.
    pub fn inode(&self) -> (inode: u64)
        ensures
            inode == self@.inode,
    {
        self.inode
    }

    /// How many bytes there are.
    pub fn len(&self) -> (len: u64)
        ensures
            len == self@.data.len(),
    {
        proof {
            use_type_invariant(self);
        }
        self.len
    }

    /// Whether anything was written.
    pub fn is_dirty(&self) -> (dirty: bool)
        ensures
            dirty == self@.dirty,
    {
        self.dirty
    }

    /// Takes note that `bytes` are in the spool file at `offset`. What lies between them and the
    /// end that the file had reads as zeros.
    pub fn record(&mut self, offset: u64, bytes: &[u8])
        requires
            spool_fits(offset, bytes@.len()),
        ensures
            final(self)@ == old(self)@.written(offset as int, bytes@),
    {
        proof {
            use_type_invariant(&*self);
        }
        let end: u64 = offset + bytes.len() as u64;
        let len: u64 = if end > self.len {
            end
        } else {
            self.len
        };
        let ghost written = self@.written(offset as int, bytes@);
        *self = SpooledWrite {
            inode: self.inode,
            original_size: self.original_size,
            len,
            dirty: true,
            data: Ghost(written.data),
        };
    }

    /// The part of the spool file that a read of `size` bytes at `offset` returns.
    pub fn window(&self, offset: u64, size: u32) -> (window: Range<u64>)
        ensures
            window.start <= window.end <= self@.data.len(),
            self@.data.subrange(window.start as int, window.end as int) == slice_at(
                self@.data,
                offset as int,
                size as int,
            ),
    {
        proof {
            use_type_invariant(self);
        }
        if offset >= self.len {
            assert(self@.data.subrange(0, 0) =~= Seq::empty());
            return 0..0;
        }
        let left: u64 = self.len - offset;
        let n: u64 = if (size as u64) < left {
            size as u64
        } else {
            left
        };
        offset..offset + n
    }
}

/// The accounts of all spool files, by file handle.
pub struct SpooledWrites {
    spools: HashMap<u64, SpooledWrite>,
}

impl View for SpooledWrites {
    type V = Map<u64, BufferView>;

    closed spec fn view(&self) -> Map<u64, BufferView> {
        self.spools@.map_values(|s: SpooledWrite| s@)
    }
}

impl SpooledWrites {
    pub fn new() -> (spools: Self)
        ensures
            spools@ == Map::<u64, BufferView>::empty(),
    {
        let spools = SpooledWrites { spools: HashMap::new() };
        assert(spools@ =~= Map::empty());
        spools
    }

    /// Starts an account for a file handle. One that is already there stays.
    pub fn open(&mut self, fh: u64, inode: u64, original_size: u64)
        ensures
            final(self)@ == if old(self)@.contains_key(fh) {
                old(self)@
            } else {
                old(self)@.insert(fh, BufferView::empty(inode, original_size))
            },
    {
        if !self.spools.contains_key(&fh) {
            self.spools.insert(fh, SpooledWrite::new(inode, original_size));
            assert(self@ =~= old(self)@.insert(fh, BufferView::empty(inode, original_size)));
        }
    }

    /// Takes note that `bytes` are in the spool file of `fh` at `offset`. `false` where there is
    /// none, or it cannot be that long.
    pub fn record(&mut self, fh: u64, offset: u64, bytes: &[u8]) -> (recorded: bool)
        ensures
            recorded == (old(self)@.contains_key(fh) && spool_fits(offset, bytes@.len())),
            final(self)@ == if recorded {
                old(self)@.insert(fh, old(self)@[fh].written(offset as int, bytes@))
            } else {
                old(self)@
            },
    {
        if !fits_spool(offset, bytes.len()) {
            return false;
        }
        let ghost before = self@;
        let recorded = match value_mut(&mut self.spools, fh) {
            Some(spooled) => {
                spooled.record(offset, bytes);
                true
            },
            None => false,
        };
        assert(recorded ==> self@ =~= before.insert(
            fh,
            before[fh].written(offset as int, bytes@),
        ));
        recorded
    }

    /// The part of the spool file of `fh` that a read of `size` bytes at `offset` returns; none
    /// where there is no spool file.
    pub fn window(&self, fh: u64, offset: u64, size: u32) -> (window: Option<Range<u64>>)
        ensures
            match window {
                Some(w) => {
                    &&& self@.contains_key(fh)
                    &&& w.start <= w.end <= self@[fh].data.len()
                    &&& self@[fh].data.subrange(w.start as int, w.end as int) == slice_at(
                        self@[fh].data,
                        offset as int,
                        size as int,
                    )
                },
                None => !self@.contains_key(fh),
            },
    {
        match self.spools.get(&fh) {
            Some(spooled) => Some(spooled.window(offset, size)),
            None => None,
        }
    }

    /// Ends the account of a file handle, and hands it over.
    pub fn close(&mut self, fh: u64) -> (spooled: Option<SpooledWrite>)
        ensures
            final(self)@ == old(self)@.remove(fh),
            match spooled {
                Some(s) => old(self)@.contains_key(fh) && s@ == old(self)@[fh],
                None => !old(self)@.contains_key(fh),
            },
    {
        let spooled = self.spools.remove(&fh);
        assert(self@ =~= old(self)@.remove(fh));
        spooled
    }

    pub fn is_open(&self, fh: u64) -> (open: bool)
        ensures
            open == self@.contains_key(fh),
    {
        self.spools.contains_key(&fh)
    }

    /// How many bytes have been spooled for the given file handle.
    pub fn size(&self, fh: u64) -> (size: Option<u64>)
        ensures
            match size {
                Some(n) => self@.contains_key(fh) && n == self@[fh].data.len(),
                None => !self@.contains_key(fh),
            },
    {
        match self.spools.get(&fh) {
            Some(spooled) => Some(spooled.len()),
            None => None,
        }
    }
}

/// Whether a spool file can hold `len` bytes at `offset`.
pub fn fits_spool(offset: u64, len: usize) -> (fits: bool)
    ensures
        fits == spool_fits(offset, len as nat),
{
    len as u64 <= i64::MAX as u64 && offset <= i64::MAX as u64 - len as u64
}

/// What a spool file can hold: whatever ends within the largest offset that a file can have.
pub proof fn spools_hold_what_a_file_can(offset: u64, len: nat)
    ensures
        spool_fits(offset, len) <==> offset + len <= 0x7fff_ffff_ffff_ffff,
{
}

} // verus!
