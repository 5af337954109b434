//! Sparse byte-range cache for on-demand partial file downloads.
use crate::text::{decimal, push_decimal};
use std::ops::Range;
use vstd::prelude::*;

pub mod fill;
pub mod laws;
pub mod shared;

verus! {

/// Whether some range of `ranges` holds position `p`.
pub open spec fn covers(ranges: Seq<Range<u64>>, p: int) -> bool {
    exists|i: int| 0 <= i < ranges.len() && (#[trigger] ranges[i]).start <= p < ranges[i].end
}

/// Whether `ranges` are non-empty, sorted, and neither overlap nor touch.
pub open spec fn normal(ranges: Seq<Range<u64>>) -> bool {
    &&& forall|i: int| 0 <= i < ranges.len() ==> (#[trigger] ranges[i]).start < ranges[i].end
    &&& forall|i: int, j: int|
        0 <= i < j < ranges.len() ==> (#[trigger] ranges[i]).end < (#[trigger] ranges[j]).start
}

proof fn lemma_covers_push(ranges: Seq<Range<u64>>, r: Range<u64>)
    ensures
        forall|p: int| #[trigger]
            covers(ranges.push(r), p) <==> covers(ranges, p) || r.start <= p < r.end,
{
    let longer = ranges.push(r);
    assert forall|p: int| #[trigger] covers(longer, p) <==> covers(ranges, p) || r.start <= p
        < r.end by {
        if covers(ranges, p) {
            let i = choose|i: int|
                0 <= i < ranges.len() && (#[trigger] ranges[i]).start <= p < ranges[i].end;
            assert(longer[i] == ranges[i]);
        }
        if r.start <= p < r.end {
            assert(longer[ranges.len() as int] == r);
        }
        if covers(longer, p) {
            let i = choose|i: int|
                0 <= i < longer.len() && (#[trigger] longer[i]).start <= p < longer[i].end;
            if i < ranges.len() {
                assert(ranges[i] == longer[i]);
            }
        }
    }
}

proof fn lemma_covers_concat(a: Seq<Range<u64>>, b: Seq<Range<u64>>)
    ensures
        forall|p: int| #[trigger] covers(a + b, p) <==> covers(a, p) || covers(b, p),
{
    let both = a + b;
    assert forall|p: int| #[trigger] covers(both, p) <==> covers(a, p) || covers(b, p) by {
        if covers(a, p) {
            let i = choose|i: int| 0 <= i < a.len() && (#[trigger] a[i]).start <= p < a[i].end;
            assert(both[i] == a[i]);
        }
        if covers(b, p) {
            let i = choose|i: int| 0 <= i < b.len() && (#[trigger] b[i]).start <= p < b[i].end;
            assert(both[a.len() + i] == b[i]);
        }
        if covers(both, p) {
            let i = choose|i: int|
                0 <= i < both.len() && (#[trigger] both[i]).start <= p < both[i].end;
            if i < a.len() {
                assert(a[i] == both[i]);
            } else {
                assert(b[i - a.len()] == both[i]);
            }
        }
    }
}

/// A write that the cache refuses.
#[derive(Debug, Clone, Copy, PartialEq, Eq, Structural)]
pub enum CacheError {
    /// The end of the range does not fit in 64 bits.
    RangeOverflow,
    /// The range ends past the object.
    PastEnd { offset: u64, end: u64, total_size: u64 },
    /// No sequential fill is running.
    NotRunning,
}

impl CacheError {
    pub open spec fn text(self) -> Seq<char> {
        match self {
            CacheError::RangeOverflow => "cache range overflow"@,
            CacheError::PastEnd { offset, end, total_size } => "cache write ["@ + decimal(
                offset as nat,
            ) + ", "@ + decimal(end as nat) + ") exceeds the object size "@ + decimal(
                total_size as nat,
            ),
            CacheError::NotRunning => "sequential fill is not running"@,
        }
    }

    pub fn message(&self) -> (s: String)
        ensures
            s@ == self.text(),
    {
        match self {
            CacheError::RangeOverflow => "cache range overflow".to_string(),
            CacheError::PastEnd { offset, end, total_size } => {
                let mut s = "cache write [".to_string();
                push_decimal(&mut s, *offset);
                s.append(", ");
                push_decimal(&mut s, *end);
                s.append(") exceeds the object size ");
                push_decimal(&mut s, *total_size);
                s
            },
            CacheError::NotRunning => "sequential fill is not running".to_string(),
        }
    }
}

/// The bytes of an object that have arrived, and the object's size.
#[verifier::ext_equal]
pub struct CacheView {
    pub total_size: int,
    pub bytes: Map<int, u8>,
}

/// The end of the window of `size` bytes at `offset`, clipped to the object.
pub open spec fn window_end(offset: int, size: int, total_size: int) -> int {
    if offset + size < total_size {
        offset + size
    } else {
        total_size
    }
}

impl CacheView {
    /// Whether the byte at `p` has arrived.
    pub open spec fn populated(self, p: int) -> bool {
        self.bytes.contains_key(p)
    }

    /// Whether the byte at `p` has arrived, and is `b`.
    pub open spec fn holds(self, p: int, b: u8) -> bool {
        self.populated(p) && self.bytes[p] == b
    }

    /// The cache after `data` arrived at `offset`.
    pub open spec fn with_bytes(self, offset: int, data: Seq<u8>) -> CacheView {
        CacheView {
            bytes: self.bytes.union_prefer_right(
                Map::new(
                    |p: int| offset <= p < offset + data.len(),
                    |p: int| data[p - offset],
                ),
            ),
            ..self
        }
    }

    /// What a write of `len` bytes at `offset` answers.
    pub open spec fn write_error(self, offset: u64, len: nat) -> Option<CacheError> {
        if len == 0 {
            None
        } else if offset + len > u64::MAX {
            Some(CacheError::RangeOverflow)
        } else if offset + len > self.total_size {
            Some(
                CacheError::PastEnd {
                    offset,
                    end: (offset + len) as u64,
                    total_size: self.total_size as u64,
                },
            )
        } else {
            None
        }
    }

    /// Whether the byte at `p` is asked for by a window and has not arrived.
    pub open spec fn missing(self, offset: int, size: int, p: int) -> bool {
        offset <= p < window_end(offset, size, self.total_size) && !self.populated(p)
    }
}

/// A ledger of which bytes of an object have been written to its backing file.
pub struct SparseCache {
    /// Sorted, non-overlapping, non-adjacent byte ranges that have been written.
    ranges: Vec<Range<u64>>,
    total_size: u64,
    /// What was written there.
    bytes: Ghost<Map<int, u8>>,
}

impl View for SparseCache {
    type V = CacheView;

    closed spec fn view(&self) -> CacheView {
        CacheView { total_size: self.total_size as int, bytes: self.bytes@ }
    }
}

impl SparseCache {
    #[verifier::type_invariant]
    spec fn well_formed(&self) -> bool {
        &&& normal(self.ranges@)
        &&& forall|i: int|
            0 <= i < self.ranges@.len() ==> (#[trigger] self.ranges@[i]).end <= self.total_size
        &&& forall|p: int| #[trigger] self.bytes@.contains_key(p) <==> covers(self.ranges@, p)
    }

    /// Create a new sparse cache for a file of the given total size.
    pub fn new(total_size: u64) -> (cache: Self)
        ensures
            cache@ == (CacheView { total_size: total_size as int, bytes: Map::empty() }),
    {
        SparseCache { ranges: Vec::new(), total_size, bytes: Ghost(Map::empty()) }
    }

    /// The size of the object.
    pub fn total_size(&self) -> (size: u64)
        ensures
            size == self@.total_size,
    {
        self.total_size
    }

    /// The byte ranges that have been written, sorted and merged.
    pub fn populated_ranges(&self) -> (ranges: &[Range<u64>])
        ensures
            normal(ranges@),
            forall|p: int| #[trigger] covers(ranges@, p) <==> self@.populated(p),
            forall|i: int|
                0 <= i < ranges@.len() ==> (#[trigger] ranges@[i]).end <= self@.total_size,
            forall|p: int| #[trigger] self@.populated(p) ==> 0 <= p < self@.total_size,
    {
        proof {
            use_type_invariant(self);
            assert forall|p: int| #[trigger] self@.populated(p) implies 0 <= p
                < self@.total_size by {
                assert(covers(self.ranges@, p));
            }
        }
        self.ranges.as_slice()
    }

    /// Returns the byte ranges within `[offset, offset+size)` that are NOT yet populated.
    ///
    /// The returned ranges are sorted and clipped to `[0, total_size)`. If the entire requested
    /// range is already populated, returns an empty `Vec`.
    pub fn missing_ranges(&self, offset: u64, size: u64) -> (missing: Vec<Range<u64>>)
        ensures
            normal(missing@),
            forall|p: int| #[trigger]
                covers(missing@, p) <==> self@.missing(offset as int, size as int, p),
    {
        proof {
            use_type_invariant(self);
        }
        let mut end: u64 = offset.saturating_add(size);
        if self.total_size < end {
            end = self.total_size;
        }
        let mut missing: Vec<Range<u64>> = Vec::new();
        if offset >= end {
            return missing;
        }
        let ghost ranges = self.ranges@;
        let mut cursor: u64 = offset;
        let mut i: usize = 0;
        while i < self.ranges.len() && cursor < end && self.ranges[i].start < end
            invariant
                i <= self.ranges.len(),
                ranges == self.ranges@,
                normal(ranges),
                offset <= cursor,
                offset < end,
                normal(missing@),
                forall|k: int| 0 <= k < missing@.len() ==> (#[trigger] missing@[k]).end < cursor,
                forall|k: int| 0 <= k < i ==> (#[trigger] ranges[k]).end <= cursor,
                forall|p: int| #[trigger]
                    covers(missing@, p) <==> offset <= p < end && p < cursor && !covers(ranges, p),
            decreases self.ranges.len() - i,
        {
            let start: u64 = self.ranges[i].start;
            let stop: u64 = self.ranges[i].end;
            if stop > cursor {
                let ghost before = missing@;
                if start > cursor {
                    missing.push(cursor..start);
                    proof {
                        lemma_covers_push(before, cursor..start);
                    }
                }
                assert forall|p: int| #[trigger] covers(missing@, p) <==> offset <= p < end && p
                    < stop && !covers(ranges, p) by {
                    if start <= p < stop {
                        assert(ranges[i as int].start <= p < ranges[i as int].end);
                    }
                    if cursor <= p < start && covers(ranges, p) {
                        let k = choose|k: int|
                            0 <= k < ranges.len() && (#[trigger] ranges[k]).start <= p
                                < ranges[k].end;
                        assert(k < i || k == i || i < k);
                    }
                }
                cursor = stop;
            }
            i += 1;
        }
        proof {
            assert forall|p: int| cursor <= p < end implies !#[trigger] covers(ranges, p) by {
                if covers(ranges, p) {
                    let k = choose|k: int|
                        0 <= k < ranges.len() && (#[trigger] ranges[k]).start <= p < ranges[k].end;
                    assert(k >= i);
                    assert(k == i || ranges[i as int].start < ranges[k].start);
                }
            }
        }
        if cursor < end {
            proof {
                lemma_covers_push(missing@, cursor..end);
            }
            missing.push(cursor..end);
        }
        missing
    }

    /// What a write of `len` bytes at `offset` would answer; nothing is recorded.
    pub fn check_write(&self, offset: u64, len: usize) -> (checked: Result<(), CacheError>)
        ensures
            match self@.write_error(offset, len as nat) {
                Some(error) => checked == Err::<(), _>(error),
                None => checked is Ok,
            },
    {
        if len == 0 {
            return Ok(());
        }
        match offset.checked_add(len as u64) {
            None => Err(CacheError::RangeOverflow),
            Some(end) => if end > self.total_size {
                Err(CacheError::PastEnd { offset, end, total_size: self.total_size })
            } else {
                Ok(())
            },
        }
    }

    /// Record that `data` was written at `offset` and mark `[offset, offset+data.len())` as
    /// populated. A refused write records nothing.
    pub fn write_at(&mut self, offset: u64, data: &[u8]) -> (written: Result<(), CacheError>)
        ensures
            match old(self)@.write_error(offset, data@.len()) {
                Some(error) => written == Err::<(), _>(error) && final(self)@ == old(self)@,
                None => written is Ok && final(self)@ == old(self)@.with_bytes(
                    offset as int,
                    data@,
                ),
            },
    {
        match self.check_write(offset, data.len()) {
            Err(error) => Err(error),
            Ok(()) => {
                if data.len() == 0 {
                    assert(self@ =~= self@.with_bytes(offset as int, data@));
                } else {
                    self.insert_range(offset..offset + data.len() as u64, Ghost(data@));
                }
                Ok(())
            },
        }
    }

    /// Insert a new range, merging it with any overlapping or adjacent ranges.
    fn insert_range(&mut self, new: Range<u64>, data: Ghost<Seq<u8>>)
        requires
            new.start < new.end <= old(self)@.total_size,
            data@.len() == new.end - new.start,
        ensures
            final(self)@ == old(self)@.with_bytes(new.start as int, data@),
    {
        proof {
            use_type_invariant(&*self);
        }
        let ghost ranges = self.ranges@;
        let total_size: u64 = self.total_size;
        let mut start: u64 = new.start;
        let mut end: u64 = new.end;
        let mut merged: Vec<Range<u64>> = Vec::new();
        let mut i: usize = 0;
        // What lies before the new range and does not touch it.
        while i < self.ranges.len() && self.ranges[i].end < start
            invariant
                i <= self.ranges.len(),
                self.ranges@ == ranges,
                normal(ranges),
                merged@ == ranges.take(i as int),
                forall|k: int| 0 <= k < i ==> (#[trigger] ranges[k]).end < start,
            decreases self.ranges.len() - i,
        {
            merged.push(self.ranges[i].start..self.ranges[i].end);
            i += 1;
            assert(merged@ =~= ranges.take(i as int));
        }
        let ghost lo = i as int;
        // What overlaps or touches it.
        while i < self.ranges.len() && self.ranges[i].start <= end
            invariant
                0 <= lo <= i <= self.ranges.len(),
                self.ranges@ == ranges,
                normal(ranges),
                forall|k: int|
                    0 <= k < ranges.len() ==> (#[trigger] ranges[k]).end <= total_size,
                start <= new.start < new.end <= end <= total_size,
                forall|k: int| 0 <= k < lo ==> (#[trigger] ranges[k]).end < start,
                forall|k: int| lo <= k < ranges.len() ==> start <= (#[trigger] ranges[k]).end,
                forall|p: int|
                    #![trigger covers(ranges.subrange(lo, i as int), p)]
                    start <= p < end <==> new.start <= p < new.end || covers(
                        ranges.subrange(lo, i as int),
                        p,
                    ),
            decreases self.ranges.len() - i,
        {
            let ghost before = ranges.subrange(lo, i as int);
            let ghost (s0, e0) = (start, end);
            if self.ranges[i].start < start {
                start = self.ranges[i].start;
            }
            if self.ranges[i].end > end {
                end = self.ranges[i].end;
            }
            proof {
                let r = ranges[i as int];
                lemma_covers_push(before, r);
                assert(ranges.subrange(lo, i + 1) =~= before.push(r));
                assert forall|p: int|
                    #![trigger covers(ranges.subrange(lo, i + 1), p)]
                    start <= p < end <==> new.start <= p < new.end || covers(
                    ranges.subrange(lo, i + 1),
                    p,
                ) by {
                    assert(covers(before, p) || !covers(before, p));
                }
            }
            i += 1;
        }
        let ghost hi = i as int;
        merged.push(start..end);
        // What lies after it.
        while i < self.ranges.len()
            invariant
                0 <= lo <= hi <= i <= self.ranges.len(),
                self.ranges@ == ranges,
                merged@ == ranges.take(lo).push(start..end) + ranges.subrange(hi, i as int),
            decreases self.ranges.len() - i,
        {
            merged.push(self.ranges[i].start..self.ranges[i].end);
            i += 1;
            assert(merged@ =~= ranges.take(lo).push(start..end) + ranges.subrange(hi, i as int));
        }
        let ghost after = old(self)@.with_bytes(new.start as int, data@);
        proof {
            let head = ranges.take(lo);
            let mid = ranges.subrange(lo, hi);
            let tail = ranges.subrange(hi, ranges.len() as int);
            lemma_covers_push(head, start..end);
            lemma_covers_concat(head.push(start..end), tail);
            lemma_covers_concat(head, mid);
            lemma_covers_concat(head + mid, tail);
            assert(ranges =~= head + mid + tail);
            assert forall|p: int| #[trigger] after.bytes.contains_key(p) <==> covers(
                merged@,
                p,
            ) by {
                assert(covers(mid, p) || !covers(mid, p));
            }
        }
        *self = SparseCache { ranges: merged, total_size, bytes: Ghost(after.bytes) };
    }

    /// The part of `[offset, offset+size)` that a read at `offset` returns from the backing file:
    /// nothing where it starts past the end, otherwise clipped to the object.
    pub fn read_at(&self, offset: u64, size: u64) -> (window: Range<u64>)
        ensures
            window.start == offset,
            window.end == if offset >= self@.total_size {
                offset as int
            } else {
                window_end(offset as int, size as int, self@.total_size)
            },
    {
        if offset >= self.total_size {
            return offset..offset;
        }
        let left: u64 = self.total_size - offset;
        if size < left {
            offset..offset + size
        } else {
            offset..self.total_size
        }
    }
}

} // verus!
