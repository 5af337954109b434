//! Reading a file's bytes from the device.
use crate::fs::errno::Errno;
use crate::fs::operation::model::RequestView;
use crate::fs::operation::Request;
use crate::sparse_cache::shared::{FillFailure, FillView, SharedSparseCache, SharedView};
use crate::sparse_cache::{window_end, CacheView};
use std::ops::Range;
use vstd::prelude::*;

verus! {

/// The most that one ranged read asks for, to keep latency reasonable.
pub const READ_CHUNK: u64 = 1024 * 1024;

/// A ranged read in progress: the gaps that were missing when it started, and where in them it
/// stands.
#[derive(Debug)]
pub struct RangedRead {
    gaps: Vec<Range<u64>>,
    /// The gap being filled.
    at: usize,
    /// The next byte to ask for in it.
    cursor: u64,
    object_size: u64,
}

/// A [`RangedRead`], with its gaps as a sequence.
#[verifier::ext_equal]
pub struct RangedView {
    pub gaps: Seq<Range<u64>>,
    pub at: int,
    pub cursor: int,
    pub object_size: int,
}

impl View for RangedRead {
    type V = RangedView;

    closed spec fn view(&self) -> RangedView {
        RangedView {
            gaps: self.gaps@,
            at: self.at as int,
            cursor: self.cursor as int,
            object_size: self.object_size as int,
        }
    }
}

impl RangedView {
    /// Stands at the start of gap `i`.
    pub open spec fn at_gap(self, i: int) -> RangedView {
        RangedView {
            at: i,
            cursor: if 0 <= i < self.gaps.len() {
                self.gaps[i].start as int
            } else {
                0
            },
            ..self
        }
    }

    /// Where the next request is made: past the gaps that are filled.
    pub open spec fn settled(self) -> RangedView
        decreases self.gaps.len() - self.at,
    {
        if 0 <= self.at < self.gaps.len() && self.cursor >= self.gaps[self.at].end {
            self.at_gap(self.at + 1).settled()
        } else {
            self
        }
    }

    /// What is asked for next: at most a chunk of what is left of a gap.
    pub open spec fn next(self) -> Option<(int, int)> {
        let here = self.settled();
        if 0 <= here.at < here.gaps.len() {
            let left = here.gaps[here.at].end - here.cursor;
            Some(
                (
                    here.cursor,
                    if left < READ_CHUNK {
                        left
                    } else {
                        READ_CHUNK as int
                    },
                ),
            )
        } else {
            None
        }
    }

    /// How many of `len` bytes that arrived at the cursor belong to the object. A device may hand
    /// back more than it was asked for; what lies past the advertised size is dropped.
    pub open spec fn kept(self, len: int) -> int {
        let left = if self.cursor < self.object_size {
            self.object_size - self.cursor
        } else {
            0
        };
        if len < left {
            len
        } else {
            left
        }
    }

    /// The read after `len` bytes arrived. No bytes at all mean that the object is smaller than
    /// reported: the rest of the gap is given up.
    pub open spec fn received(self, len: int) -> RangedView {
        if len == 0 {
            if 0 <= self.at < self.gaps.len() {
                self.at_gap(self.at + 1)
            } else {
                self
            }
        } else {
            RangedView {
                cursor: if self.cursor + len <= u64::MAX {
                    self.cursor + len
                } else {
                    u64::MAX as int
                },
                ..self
            }
        }
    }
}

impl RangedRead {
    /// A read of the window of `size` bytes at `offset`.
    pub fn new(cache: &SharedSparseCache, offset: u64, size: u64, object_size: u64) -> (read: Self)
        ensures
            crate::sparse_cache::normal(read@.gaps),
            forall|p: int| #[trigger]
                crate::sparse_cache::covers(read@.gaps, p) <==> cache@.cache.missing(
                    offset as int,
                    size as int,
                    p,
                ),
            read@ == (RangedView {
                gaps: read@.gaps,
                at: 0,
                cursor: 0,
                object_size: object_size as int,
            }).at_gap(0),
    {
        let gaps = cache.missing_ranges(offset, size);
        let cursor: u64 = if gaps.len() > 0 {
            gaps[0].start
        } else {
            0
        };
        RangedRead { gaps, at: 0, cursor, object_size }
    }

    /// What to ask of the device next for the file `inode`, until every gap was asked for.
    pub fn next(&mut self, inode: u64) -> (request: Option<Request>)
        ensures
            final(self)@ == old(self)@.settled(),
            match old(self)@.next() {
                Some((offset, len)) => request matches Some(r) && r@ == (RequestView::ReadRange {
                    inode,
                    offset: offset as u64,
                    len: len as u32,
                }),
                None => request is None,
            },
    {
        while self.at < self.gaps.len() && self.cursor >= self.gaps[self.at].end
            invariant
                self@.settled() == old(self)@.settled(),
            decreases self.gaps.len() - self.at,
        {
            self.at += 1;
            self.cursor = if self.at < self.gaps.len() {
                self.gaps[self.at].start
            } else {
                0
            };
        }
        if self.at < self.gaps.len() {
            let left: u64 = self.gaps[self.at].end - self.cursor;
            let len: u64 = if left < READ_CHUNK {
                left
            } else {
                READ_CHUNK
            };
            Some(Request::ReadRange { inode, offset: self.cursor, len: len as u32 })
        } else {
            None
        }
    }

    /// Where the first bytes of an answer of `len` go in the backing file, and how many of them.
    pub fn due(&self, len: usize) -> (due: (u64, usize))
        ensures
            due == (self@.cursor as u64, self@.kept(len as int) as usize),
    {
        let left: u64 = self.object_size.saturating_sub(self.cursor);
        let n: usize = if (len as u64) < left {
            len
        } else {
            left as usize
        };
        (self.cursor, n)
    }

    /// Takes the bytes that the device answered, once those that belong to the object are in the
    /// backing file.
    pub fn receive(&mut self, cache: &mut SharedSparseCache, bytes: &[u8]) -> (taken: Result<
        (),
        Errno,
    >)
        ensures
            ({
                let n = old(self)@.kept(bytes@.len() as int);
                match old(cache)@.cache.write_error(old(self)@.cursor as u64, n as nat) {
                    Some(_) => {
                        &&& taken == Err::<(), _>(Errno::EIO)
                        &&& final(cache)@ == old(cache)@
                        &&& final(self)@ == old(self)@
                    },
                    None => {
                        &&& taken is Ok
                        &&& final(cache)@ == (SharedView {
                            cache: old(cache)@.cache.with_bytes(
                                old(self)@.cursor,
                                bytes@.take(n),
                            ),
                            ..old(cache)@
                        })
                        &&& final(self)@ == old(self)@.received(bytes@.len() as int)
                    },
                }
            }),
    {
        let (offset, n) = self.due(bytes.len());
        let part = vstd::slice::slice_subrange(bytes, 0, n);
        assert(part@ =~= bytes@.take(n as int));
        if cache.write_at(offset, part).is_err() {
            return Err(Errno::EIO);
        }
        if bytes.len() == 0 {
            if self.at < self.gaps.len() {
                self.at += 1;
                self.cursor = if self.at < self.gaps.len() {
                    self.gaps[self.at].start
                } else {
                    0
                };
            }
        } else {
            self.cursor = self.cursor.saturating_add(bytes.len() as u64);
        }
        Ok(())
    }
}

/// The end of a ranged read: the part of the backing file to answer with, or that the device came
/// to an end before the requested bytes arrived. A hole in the backing file is never answered as
/// data.
pub fn finish_ranged(cache: &SharedSparseCache, offset: u64, size: u64) -> (answer: Result<
    Range<u64>,
    Errno,
>)
    ensures
        if cache@.ready(offset as int, size as int) {
            &&& answer matches Ok(window)
            &&& window.start == offset
            &&& window.end == if offset >= cache@.cache.total_size {
                offset as int
            } else {
                window_end(offset as int, size as int, cache@.cache.total_size)
            }
        } else {
            answer == Err::<Range<u64>, _>(Errno::EIO)
        },
{
    let missing = cache.missing_ranges(offset, size);
    if missing.len() > 0 {
        proof {
            let p = missing@[0].start as int;
            assert(crate::sparse_cache::covers(missing@, p));
            assert(cache@.cache.missing(offset as int, size as int, p));
        }
        return Err(Errno::EIO);
    }
    assert forall|p: int| !#[trigger] cache@.cache.missing(offset as int, size as int, p) by {
        assert(!crate::sparse_cache::covers(missing@, p));
    }
    Ok(cache.read_at(offset, size))
}

/// What follows when a whole-object download failed a reader.
#[derive(Debug, Clone, Copy, PartialEq, Eq, Structural)]
pub enum FullReadStep {
    /// Bring the session back, then see whether the download may start over.
    Recover,
    /// Answer that the read failed.
    Fail,
}

/// A read that waits for a whole-object download.
#[derive(Debug, Clone, Copy, PartialEq, Eq, Structural)]
pub struct FullRead {
    /// How often a lost link may still be retried in a new session.
    pub link_retries: u8,
}

impl FullRead {
    pub fn new() -> (read: Self)
        ensures
            read == (FullRead { link_retries: 1 }),
    {
        FullRead { link_retries: 1 }
    }

    /// What follows when the download failed: only a lost link is worth another session, and only
    /// once.
    pub fn failed(&self, failure: &FillFailure) -> (step: FullReadStep)
        ensures
            step == if failure@.link_lost && self.link_retries > 0 {
                FullReadStep::Recover
            } else {
                FullReadStep::Fail
            },
    {
        if failure.is_link_lost() && self.link_retries > 0 {
            FullReadStep::Recover
        } else {
            FullReadStep::Fail
        }
    }

    /// Whether the download starts over after a recovery that succeeded or did not.
    pub fn recovered(&mut self, recovered: bool, cache: &mut SharedSparseCache) -> (again: bool)
        requires
            old(self).link_retries > 0,
        ensures
            again == (recovered && (old(cache)@.fill matches FillView::Failed(failure)
                && failure.link_lost)),
            final(self).link_retries == if again {
                old(self).link_retries - 1
            } else {
                old(self).link_retries as int
            },
            final(cache)@ == if again {
                SharedView { fill: FillView::Idle, ..old(cache)@ }
            } else {
                old(cache)@
            },
    {
        if recovered && cache.reset_after_link_loss() {
            self.link_retries -= 1;
            true
        } else {
            false
        }
    }
}

/// A ranged read and its cache after the device answered `n` requests as asked, out of an object
/// that holds `content`.
pub open spec fn answered(
    read: RangedView,
    cache: CacheView,
    content: Seq<u8>,
    n: nat,
) -> (RangedView, CacheView)
    decreases n,
{
    match read.next() {
        Some((offset, len)) if n > 0 => answered(
            read.settled().received(len),
            cache.with_bytes(offset, content.subrange(offset, offset + len)),
            content,
            (n - 1) as nat,
        ),
        _ => (read, cache),
    }
}

/// Whether position `p` is still to be asked for.
pub open spec fn pending(read: RangedView, p: int) -> bool {
    exists|i: int|
        read.at <= i < read.gaps.len() && (#[trigger] read.gaps[i]).start <= p < read.gaps[i].end
            && (i == read.at ==> read.cursor <= p)
}

/// Whether a read stands inside its gaps, and these inside an object of `len` bytes.
pub open spec fn in_place(read: RangedView, len: int) -> bool {
    &&& crate::sparse_cache::normal(read.gaps)
    &&& 0 <= read.at <= read.gaps.len()
    &&& len <= u64::MAX
    &&& forall|i: int| 0 <= i < read.gaps.len() ==> (#[trigger] read.gaps[i]).end <= len
    &&& read.at < read.gaps.len() ==> read.gaps[read.at].start <= read.cursor
}

/// A device that answers what it is asked is asked for every gap, and for nothing else: there is
/// a number of answers after which the read is done and every gap holds the object's bytes.
pub proof fn faithful_answers_fill_the_gaps(
    read: RangedView,
    cache: CacheView,
    content: Seq<u8>,
) -> (n: nat)
    requires
        in_place(read, content.len() as int),
    ensures
        answered(read, cache, content, n).0.next() is None,
        answered(read, cache, content, n).1.total_size == cache.total_size,
        forall|p: int|
            pending(read, p) ==> #[trigger] answered(read, cache, content, n).1.holds(
                p,
                content[p],
            ),
        forall|p: int|
            #![trigger answered(read, cache, content, n).1.populated(p)]
            !pending(read, p) ==> (answered(read, cache, content, n).1.populated(p)
                <==> cache.populated(p)) && (cache.populated(p) ==> answered(
                read,
                cache,
                content,
                n,
            ).1.bytes[p] == cache.bytes[p]),
    decreases read.gaps.len() - read.at, (if read.at < read.gaps.len() {
        read.gaps[read.at].end - read.cursor
    } else {
        0
    }),
{
    if read.at >= read.gaps.len() {
        0
    } else if read.cursor >= read.gaps[read.at].end {
        let next = read.at_gap(read.at + 1);
        assert(read.settled() == next.settled());
        let n = faithful_answers_fill_the_gaps(next, cache, content);
        assert(answered(read, cache, content, n).1 == answered(next, cache, content, n).1);
        assert(answered(read, cache, content, n).0.next() is None);
        assert forall|p: int| pending(read, p) <==> #[trigger] pending(next, p) by {
            if pending(read, p) {
                let i = choose|i: int|
                    read.at <= i < read.gaps.len() && (#[trigger] read.gaps[i]).start <= p
                        < read.gaps[i].end && (i == read.at ==> read.cursor <= p);
                assert(next.gaps[i].start <= p);
            }
            if pending(next, p) {
                let i = choose|i: int|
                    next.at <= i < next.gaps.len() && (#[trigger] next.gaps[i]).start <= p
                        < next.gaps[i].end && (i == next.at ==> next.cursor <= p);
                assert(read.gaps[i].start <= p);
            }
        }
        n
    } else {
        assert(read.settled() == read);
        let (offset, len) = read.next()->0;
        let part = content.subrange(offset, offset + len);
        let mid = cache.with_bytes(offset, part);
        let next = read.received(len);
        let k = faithful_answers_fill_the_gaps(next, mid, content);
        let n = k + 1;
        let after = answered(read, cache, content, n).1;
        assert(answered(read, cache, content, n) == answered(next, mid, content, k));
        assert forall|p: int| pending(read, p) <==> #[trigger] pending(next, p) || offset <= p < offset
            + len by {
            if pending(read, p) {
                let i = choose|i: int|
                    read.at <= i < read.gaps.len() && (#[trigger] read.gaps[i]).start <= p
                        < read.gaps[i].end && (i == read.at ==> read.cursor <= p);
                assert(next.gaps[i].start <= p);
                if i == read.at && p < offset + len {
                } else {
                    assert(pending(next, p)) by {
                        assert(next.gaps[i].start <= p < next.gaps[i].end);
                        if i == read.at {
                            assert(next.cursor <= p);
                        }
                    }
                }
            }
            if pending(next, p) {
                let i = choose|i: int|
                    next.at <= i < next.gaps.len() && (#[trigger] next.gaps[i]).start <= p
                        < next.gaps[i].end && (i == next.at ==> next.cursor <= p);
                assert(read.gaps[i].start <= p);
            }
            if offset <= p < offset + len {
                assert(read.gaps[read.at].start <= p < read.gaps[read.at].end);
            }
        }
        assert forall|p: int| pending(read, p) implies #[trigger] after.holds(p, content[p]) by {
            if !pending(next, p) {
                assert(after.populated(p) <==> mid.populated(p));
                assert(part[p - offset] == content[p]);
            }
        }
        assert forall|p: int|
            #![trigger after.populated(p)]
            !pending(read, p) implies (after.populated(p) <==> cache.populated(p)) && (cache.populated(p)
            ==> after.bytes[p] == cache.bytes[p]) by {
            assert(!pending(next, p));
            assert(after.populated(p) <==> mid.populated(p));
        }
        n
    }
}

/// A ranged read serves the object: out of a cache that holds nothing but the object's bytes, a
/// device that answers what it is asked leaves a window with nothing missing in which every byte
/// is the object's.
pub proof fn ranged_read_serves_the_object(
    cache: CacheView,
    gaps: Seq<Range<u64>>,
    offset: u64,
    size: u64,
    content: Seq<u8>,
) -> (n: nat)
    requires
        content.len() <= u64::MAX,
        cache.total_size == content.len(),
        forall|p: int| cache.populated(p) ==> #[trigger] cache.holds(p, content[p]),
        crate::sparse_cache::normal(gaps),
        forall|p: int| #[trigger]
            crate::sparse_cache::covers(gaps, p) <==> cache.missing(offset as int, size as int, p),
    ensures
        ({
            let read = (RangedView {
                gaps,
                at: 0,
                cursor: 0,
                object_size: content.len() as int,
            }).at_gap(0);
            let (done, after) = answered(read, cache, content, n);
            &&& done.next() is None
            &&& forall|p: int| !#[trigger] after.missing(offset as int, size as int, p)
            &&& forall|p: int|
                offset <= p < window_end(offset as int, size as int, content.len() as int)
                    ==> #[trigger] after.holds(p, content[p])
        }),
{
    let read = (RangedView { gaps, at: 0, cursor: 0, object_size: content.len() as int }).at_gap(0);
    assert forall|i: int| 0 <= i < gaps.len() implies (#[trigger] gaps[i]).end
        <= content.len() by {
        let last = gaps[i].end - 1;
        assert(gaps[i].start <= last < gaps[i].end);
        assert(crate::sparse_cache::covers(gaps, last));
    }
    let n = faithful_answers_fill_the_gaps(read, cache, content);
    let (done, after) = answered(read, cache, content, n);
    assert forall|p: int|
        offset <= p < window_end(offset as int, size as int, content.len() as int) implies
        #[trigger] after.holds(p, content[p]) by {
        if cache.populated(p) {
            assert(!crate::sparse_cache::covers(gaps, p));
            if pending(read, p) {
                let i = choose|i: int|
                    read.at <= i < read.gaps.len() && (#[trigger] read.gaps[i]).start <= p
                        < read.gaps[i].end && (i == read.at ==> read.cursor <= p);
                assert(gaps[i].start <= p < gaps[i].end);
            }
            assert(cache.holds(p, content[p]));
            assert(after.populated(p) <==> cache.populated(p));
        } else {
            assert(crate::sparse_cache::covers(gaps, p));
            let i = choose|i: int|
                0 <= i < gaps.len() && (#[trigger] gaps[i]).start <= p < gaps[i].end;
            assert(read.gaps[i].start <= p < read.gaps[i].end);
            assert(pending(read, p));
        }
    }
    assert forall|p: int| !#[trigger] after.missing(offset as int, size as int, p) by {
        if offset <= p < window_end(offset as int, size as int, content.len() as int) {
            assert(after.holds(p, content[p]));
        }
    }
    n
}

/// A window that is in the cache is read without asking the device.
pub proof fn cached_windows_ask_nothing(
    cache: CacheView,
    gaps: Seq<Range<u64>>,
    offset: int,
    size: int,
    object_size: int,
)
    requires
        forall|p: int| !#[trigger] cache.missing(offset, size, p),
        crate::sparse_cache::normal(gaps),
        forall|p: int| #[trigger]
            crate::sparse_cache::covers(gaps, p) <==> cache.missing(offset, size, p),
    ensures
        (RangedView { gaps, at: 0, cursor: 0, object_size }).at_gap(0).next() is None,
{
    if gaps.len() > 0 {
        let p = gaps[0].start as int;
        assert(gaps[0].start <= p < gaps[0].end);
        assert(crate::sparse_cache::covers(gaps, p));
        assert(cache.missing(offset, size, p));
    }
}

/// What is asked for next: the first byte that is still missing, and what follows it in the same gap,
/// at most a mebibyte and at least a byte. Nothing is asked exactly where nothing is missing.
pub proof fn ranges_start_at_the_first_missing_byte(read: RangedView, len: int, p: int)
    requires
        in_place(read, len),
    ensures
        match read.next() {
            Some((offset, size)) => {
                &&& pending(read, offset)
                &&& 0 < size <= 1048576
                &&& offset + size <= len
                &&& offset <= p < offset + size ==> pending(read, p)
                &&& pending(read, p) ==> offset <= p
                &&& read.settled().cursor == offset
                &&& size == 1048576 || !pending(read, offset + size)
            },
            None => !pending(read, p),
        },
    decreases read.gaps.len() - read.at,
{
    if 0 <= read.at < read.gaps.len() && read.cursor >= read.gaps[read.at].end {
        let next = read.at_gap(read.at + 1);
        ranges_start_at_the_first_missing_byte(next, len, p);
        lemma_pending_later(read, p);
        if let Some((offset, size)) = next.next() {
            lemma_pending_later(read, offset);
            lemma_pending_later(read, offset + size);
        }
        assert(read.next() == next.next());
    } else if read.at < read.gaps.len() {
        let gap = read.gaps[read.at];
        let (offset, size) = read.next()->0;
        assert(read.gaps[read.at].start <= offset < read.gaps[read.at].end);
        if offset <= p < offset + size {
            assert(read.gaps[read.at].start <= p < read.gaps[read.at].end);
        }
        if pending(read, p) {
            let i = choose|i: int|
                read.at <= i < read.gaps.len() && (#[trigger] read.gaps[i]).start <= p
                    < read.gaps[i].end && (i == read.at ==> read.cursor <= p);
            assert(i == read.at || read.gaps[read.at].end < read.gaps[i].start);
        }
        if size < 1048576 && pending(read, offset + size) {
            let i = choose|i: int|
                read.at <= i < read.gaps.len() && (#[trigger] read.gaps[i]).start <= offset + size
                    < read.gaps[i].end && (i == read.at ==> read.cursor <= offset + size);
            assert(i == read.at || read.gaps[read.at].end < read.gaps[i].start);
        }
    }
}

proof fn lemma_pending_later(read: RangedView, p: int)
    requires
        0 <= read.at < read.gaps.len(),
        read.cursor >= read.gaps[read.at].end,
        crate::sparse_cache::normal(read.gaps),
    ensures
        pending(read, p) <==> pending(read.at_gap(read.at + 1), p),
{
    let next = read.at_gap(read.at + 1);
    if pending(read, p) {
        let i = choose|i: int|
            read.at <= i < read.gaps.len() && (#[trigger] read.gaps[i]).start <= p
                < read.gaps[i].end && (i == read.at ==> read.cursor <= p);
        assert(next.gaps[i].start <= p);
    }
    if pending(next, p) {
        let i = choose|i: int|
            next.at <= i < next.gaps.len() && (#[trigger] next.gaps[i]).start <= p
                < next.gaps[i].end && (i == next.at ==> next.cursor <= p);
        assert(read.gaps[i].start <= p);
    }
}

/// What an answer moves: the next byte to ask for is behind all that came, or in the next gap where
/// nothing came. What of it belongs to the object is as much as the object still has.
pub proof fn answers_move_the_read_on(read: RangedView, len: int)
    requires
        0 <= len,
        0 <= read.cursor,
        read.cursor + len <= u64::MAX,
        0 <= read.at < read.gaps.len(),
    ensures
        len > 0 ==> read.received(len) == (RangedView { cursor: read.cursor + len, ..read }),
        read.received(0).at == read.at + 1,
        read.at + 1 < read.gaps.len() ==> read.received(0).cursor == read.gaps[read.at + 1].start,
        read.received(0).gaps == read.gaps,
        read.received(0).object_size == read.object_size,
        read.cursor + len <= read.object_size ==> read.kept(len) == len,
        read.cursor <= read.object_size < read.cursor + len ==> read.kept(len) == read.object_size
            - read.cursor,
        read.object_size < read.cursor ==> read.kept(len) == 0,
{
}

} // verus!
