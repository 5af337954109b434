//! Write buffers in memory: what has been written to a file since it was opened, until it is
//! flushed. A mount spools its writes to disk instead (see [`crate::fs::spooled`]), by the same rules.
use crate::error::MountError;
use crate::maps::value_mut;
use crate::text::{decimal, push_decimal};
use std::collections::HashMap;
use vstd::prelude::*;

verus! {

broadcast use vstd::std_specs::hash::group_hash_axioms;

/// What a write buffer holds.
#[verifier::ext_equal]
pub struct BufferView {
    pub inode: u64,
    pub original_size: u64,
    pub data: Seq<u8>,
    pub dirty: bool,
}

/// `data` with `bytes` laid over it at `offset`, zeros filling any gap between the two.
pub open spec fn overlay(data: Seq<u8>, offset: int, bytes: Seq<u8>) -> Seq<u8> {
    let end = offset + bytes.len();
    Seq::new(
        (if end > data.len() {
            end
        } else {
            data.len() as int
        }) as nat,
        |i: int|
            if offset <= i < end {
                bytes[i - offset]
            } else if i < data.len() {
                data[i]
            } else {
                0
            },
    )
}

/// At most `size` bytes of `data` from `offset` on; none where `offset` lies outside.
pub open spec fn slice_at(data: Seq<u8>, offset: int, size: int) -> Seq<u8> {
    if 0 <= offset < data.len() {
        data.subrange(
            offset,
            if offset + size < data.len() {
                offset + size
            } else {
                data.len() as int
            },
        )
    } else {
        Seq::empty()
    }
}

impl BufferView {
    pub open spec fn empty(inode: u64, original_size: u64) -> BufferView {
        BufferView { inode, original_size, data: Seq::empty(), dirty: false }
    }

    pub open spec fn written(self, offset: int, bytes: Seq<u8>) -> BufferView {
        BufferView { data: overlay(self.data, offset, bytes), dirty: true, ..self }
    }
}

/// Whether a write fits into an allocation.
pub open spec fn write_fits(offset: i64, len: nat) -> bool {
    0 <= offset && offset + len <= isize::MAX
}

/// Per-file write buffer holding data until flush/close.
pub struct FileBuffer {
    pub inode: u64,
    pub original_size: u64,
    pub data: Vec<u8>,
    pub dirty: bool,
}

impl View for FileBuffer {
    type V = BufferView;

    open spec fn view(&self) -> BufferView {
        BufferView {
            inode: self.inode,
            original_size: self.original_size,
            data: self.data@,
            dirty: self.dirty,
        }
    }
}

impl FileBuffer {
    pub fn new(inode: u64, original_size: u64) -> (buffer: Self)
        ensures
            buffer@ == BufferView::empty(inode, original_size),
    {
        FileBuffer { inode, original_size, data: Vec::new(), dirty: false }
    }

    /// Write `data` at `offset`, growing the buffer and zero-filling gaps as needed. Returns the
    /// number of bytes written, modulo what 32 bits can hold.
    pub fn write_at(&mut self, offset: i64, data: &[u8]) -> (written: u32)
        requires
            write_fits(offset, data@.len()),
        ensures
            final(self)@ == old(self)@.written(offset as int, data@),
            written == data@.len() % 0x1_0000_0000,
    {
        let start: usize = offset as usize;
        let end: usize = start + data.len();
        if end > self.data.len() {
            self.data.resize(end, 0);
        }
        let ghost grown = self.data@;
        let mut i: usize = 0;
        while i < data.len()
            invariant
                i <= data.len(),
                start + data.len() == end,
                end <= self.data.len(),
                self.data@.len() == grown.len(),
                self.inode == old(self).inode,
                self.original_size == old(self).original_size,
                forall|k: int|
                    0 <= k < grown.len() ==> #[trigger] self.data@[k] == if start <= k < start + i {
                        data@[k - start]
                    } else {
                        grown[k]
                    },
            decreases data.len() - i,
        {
            self.data[start + i] = data[i];
            i += 1;
        }
        self.dirty = true;
        assert(self.data@ =~= overlay(old(self)@.data, offset as int, data@)) by {
            assert forall|k: int| 0 <= k < grown.len() && !(start <= k < end) implies grown[k]
                == if k < old(self)@.data.len() {
                old(self)@.data[k]
            } else {
                0
            } by {
                if k < old(self)@.data.len() {
                    if end > old(self)@.data.len() {
                        assert(grown.subrange(0, old(self)@.data.len() as int)[k] == grown[k]);
                    }
                }
            }
        }
        (data.len() as u64 % 0x1_0000_0000) as u32
    }

    /// Read up to `size` bytes starting at `offset`. Returns fewer bytes if the offset is near or
    /// past the end.
    pub fn read_at(&self, offset: i64, size: u32) -> (data: Vec<u8>)
        ensures
            data@ == slice_at(self@.data, offset as int, size as int),
    {
        let mut out: Vec<u8> = Vec::new();
        if offset < 0 || offset as u64 >= self.data.len() as u64 {
            return out;
        }
        let start: usize = offset as usize;
        let left: usize = self.data.len() - start;
        let n: usize = if (size as u64) < left as u64 {
            size as usize
        } else {
            left
        };
        out.extend_from_slice(vstd::slice::slice_subrange(self.data.as_slice(), start, start + n));
        assert(out@ =~= slice_at(self@.data, offset as int, size as int));
        out
    }

    pub fn len(&self) -> (len: u64)
        ensures
            len == self@.data.len(),
    {
        self.data.len() as u64
    }

    pub fn is_dirty(&self) -> (dirty: bool)
        ensures
            dirty == self@.dirty,
    {
        self.dirty
    }

    /// Consume the buffer and return the raw data.
    pub fn into_data(self) -> (data: Vec<u8>)
        ensures
            data@ == self@.data,
    {
        self.data
    }
}

/// Manages in-progress file writes, mapping file handles to their buffers.
pub struct WriteBuffer {
    buffers: HashMap<u64, FileBuffer>,
}

impl View for WriteBuffer {
    type V = Map<u64, BufferView>;

    closed spec fn view(&self) -> Map<u64, BufferView> {
        self.buffers@.map_values(|b: FileBuffer| b@)
    }
}

/// The complaint about a file handle that has no buffer.
pub open spec fn no_buffer(fh: u64) -> Seq<char> {
    "no buffer for file handle "@ + decimal(fh as nat)
}

fn no_buffer_error(fh: u64) -> (error: MountError)
    ensures
        error matches MountError::Other(message) && message@ == no_buffer(fh),
{
    let mut message = "no buffer for file handle ".to_string();
    push_decimal(&mut message, fh);
    MountError::Other(message)
}

impl Default for WriteBuffer {
    fn default() -> (buffers: Self)
        ensures
            buffers@ == Map::<u64, BufferView>::empty(),
    {
        Self::new()
    }
}

impl WriteBuffer {
    pub fn new() -> (buffers: Self)
        ensures
            buffers@ == Map::<u64, BufferView>::empty(),
    {
        let buffers = WriteBuffer { buffers: HashMap::new() };
        assert(buffers@ =~= Map::empty());
        buffers
    }

    /// Register a new write buffer for the given file handle. One that is already there stays.
    pub fn open(&mut self, fh: u64, inode: u64, original_size: u64) -> (buffer: &mut FileBuffer)
        ensures
            buffer@ == if old(self)@.contains_key(fh) {
                old(self)@[fh]
            } else {
                BufferView::empty(inode, original_size)
            },
            final(self)@ == old(self)@.insert(fh, final(buffer)@),
    {
        if !self.buffers.contains_key(&fh) {
            self.buffers.insert(fh, FileBuffer::new(inode, original_size));
        }
        value_mut(&mut self.buffers, fh).unwrap()
    }

    /// Write data at offset into the buffer for `fh`.
    pub fn write(&mut self, fh: u64, offset: i64, data: &[u8]) -> (written: Result<
        u32,
        MountError,
    >)
        requires
            old(self)@.contains_key(fh) ==> write_fits(offset, data@.len()),
        ensures
            match written {
                Ok(n) => {
                    &&& old(self)@.contains_key(fh)
                    &&& n == data@.len() % 0x1_0000_0000
                    &&& final(self)@ == old(self)@.insert(
                        fh,
                        old(self)@[fh].written(offset as int, data@),
                    )
                },
                Err(error) => {
                    &&& !old(self)@.contains_key(fh)
                    &&& error matches MountError::Other(message) && message@ == no_buffer(fh)
                    &&& final(self)@ == old(self)@
                },
            },
    {
        let ghost before = self@;
        let written = match value_mut(&mut self.buffers, fh) {
            Some(buffer) => Ok(buffer.write_at(offset, data)),
            None => Err(no_buffer_error(fh)),
        };
        assert(written is Ok ==> self@ =~= before.insert(
            fh,
            before[fh].written(offset as int, data@),
        ));
        written
    }

    /// Read data from the buffer for `fh`.
    pub fn read(&self, fh: u64, offset: i64, size: u32) -> (data: Result<Vec<u8>, MountError>)
        ensures
            match data {
                Ok(bytes) => self@.contains_key(fh) && bytes@ == slice_at(
                    self@[fh].data,
                    offset as int,
                    size as int,
                ),
                Err(error) => !self@.contains_key(fh) && (error matches MountError::Other(message)
                    && message@ == no_buffer(fh)),
            },
    {
        match self.buffers.get(&fh) {
            Some(buffer) => Ok(buffer.read_at(offset, size)),
            None => Err(no_buffer_error(fh)),
        }
    }

    /// Remove and return the buffer for flushing to MTP.
    pub fn flush(&mut self, fh: u64) -> (buffer: Option<FileBuffer>)
        ensures
            final(self)@ == old(self)@.remove(fh),
            match buffer {
                Some(b) => old(self)@.contains_key(fh) && b@ == old(self)@[fh],
                None => !old(self)@.contains_key(fh),
            },
    {
        let buffer = self.buffers.remove(&fh);
        assert(self@ =~= old(self)@.remove(fh));
        buffer
    }

    /// Alias for `flush` -- used at file close time.
    pub fn close(&mut self, fh: u64) -> (buffer: Option<FileBuffer>)
        ensures
            final(self)@ == old(self)@.remove(fh),
            match buffer {
                Some(b) => old(self)@.contains_key(fh) && b@ == old(self)@[fh],
                None => !old(self)@.contains_key(fh),
            },
    {
        self.flush(fh)
    }

    pub fn is_open(&self, fh: u64) -> (open: bool)
        ensures
            open == self@.contains_key(fh),
    {
        self.buffers.contains_key(&fh)
    }

    /// Current buffered size for the given file handle.
    pub fn size(&self, fh: u64) -> (size: Option<u64>)
        ensures
            match size {
                Some(n) => self@.contains_key(fh) && n == self@[fh].data.len(),
                None => !self@.contains_key(fh),
            },
    {
        match self.buffers.get(&fh) {
            Some(buffer) => Some(buffer.len()),
            None => None,
        }
    }
}

/// Reading back where a write landed gives what was written; what lies before the write stays,
/// with zeros for bytes that were never there.
pub proof fn read_gives_back_the_write(data: Seq<u8>, offset: int, bytes: Seq<u8>)
    requires
        0 <= offset,
    ensures
        slice_at(overlay(data, offset, bytes), offset, bytes.len() as int) == bytes,
        forall|i: int|
            0 <= i < offset ==> #[trigger] overlay(data, offset, bytes)[i] == if i < data.len() {
                data[i]
            } else {
                0
            },
        forall|i: int|
            offset + bytes.len() <= i < data.len() ==> #[trigger] overlay(data, offset, bytes)[i]
                == data[i],
{
    assert(slice_at(overlay(data, offset, bytes), offset, bytes.len() as int) =~= bytes);
}

/// A read gives back what is there, byte by byte from its offset, as much as was asked for and is
/// there; an offset outside gives nothing.
pub proof fn reads_give_back_what_is_there(data: Seq<u8>, offset: int, size: int, i: int)
    requires
        0 <= size,
    ensures
        ({
            let read = slice_at(data, offset, size);
            &&& !(0 <= offset < data.len()) ==> read.len() == 0
            &&& 0 <= offset < data.len() && offset + size <= data.len() ==> read.len() == size
            &&& 0 <= offset < data.len() < offset + size ==> read.len() == data.len() - offset
            &&& 0 <= i < read.len() ==> read[i] == data[offset + i]
        }),
{
}

/// A new buffer holds nothing and has nothing to flush; a write leaves something to flush, and the
/// buffer that of its file.
pub proof fn writes_make_a_buffer_dirty(
    inode: u64,
    original_size: u64,
    buffer: BufferView,
    offset: int,
    bytes: Seq<u8>,
)
    requires
        0 <= offset,
    ensures
        BufferView::empty(inode, original_size).data.len() == 0,
        !BufferView::empty(inode, original_size).dirty,
        BufferView::empty(inode, original_size).inode == inode,
        BufferView::empty(inode, original_size).original_size == original_size,
        buffer.written(offset, bytes).dirty,
        buffer.written(offset, bytes).inode == buffer.inode,
        buffer.written(offset, bytes).original_size == buffer.original_size,
        buffer.written(offset, bytes).data.len() >= offset + bytes.len(),
        buffer.written(offset, bytes).data.len() >= buffer.data.len(),
        buffer.written(offset, bytes).data.len() == offset + bytes.len() || buffer.written(
            offset,
            bytes,
        ).data.len() == buffer.data.len(),
{
}

/// What a buffer can hold: whatever starts at an offset that is not negative and ends within the
/// largest allocation.
pub proof fn buffers_hold_what_an_allocation_can(offset: i64, len: nat)
    ensures
        write_fits(offset, len) <==> offset >= 0 && offset + len <= isize::MAX,
{
}

} // verus!
