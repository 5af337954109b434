//! What the sparse cache promises of its ranges and its bytes.
use crate::sparse_cache::{covers, normal, window_end, CacheError, CacheView};
use std::ops::Range;
use vstd::prelude::*;

verus! {

/// Two lists of sorted, merged ranges that hold the same positions are the same list. So a list
/// that is said to be sorted and merged is pinned down by the positions it holds.
pub proof fn normal_ranges_are_unique(a: Seq<Range<u64>>, b: Seq<Range<u64>>)
    requires
        normal(a),
        normal(b),
        forall|p: int| #[trigger] covers(a, p) <==> covers(b, p),
    ensures
        a == b,
    decreases a.len(),
{
    if a.len() == 0 {
        if b.len() > 0 {
            assert(covers(b, b[0].start as int));
            assert(covers(a, b[0].start as int));
        }
    } else {
        assert(covers(a, a[0].start as int));
        assert(covers(b, a[0].start as int));
        assert(b.len() > 0);
        assert(covers(b, b[0].start as int));
        assert(covers(a, b[0].start as int));
        lemma_first_is_least(a, b[0].start as int);
        lemma_first_is_least(b, a[0].start as int);
        lemma_first_end_is_free(a);
        lemma_first_end_is_free(b);
        if a[0].end < b[0].end {
            assert(b[0].start <= a[0].end < b[0].end);
            assert(covers(b, a[0].end as int));
            assert(covers(a, a[0].end as int));
        }
        if b[0].end < a[0].end {
            assert(a[0].start <= b[0].end < a[0].end);
            assert(covers(a, b[0].end as int));
            assert(covers(b, b[0].end as int));
        }
        assert(a[0] == b[0]);
        let ta = a.drop_first();
        let tb = b.drop_first();
        assert forall|p: int| #[trigger] covers(ta, p) <==> covers(tb, p) by {
            lemma_tail_covers(a, p);
            lemma_tail_covers(b, p);
            assert(covers(a, p) <==> covers(b, p));
        }
        normal_ranges_are_unique(ta, tb);
        assert(a =~= seq![a[0]] + ta);
        assert(b =~= seq![b[0]] + tb);
    }
}

proof fn lemma_first_is_least(a: Seq<Range<u64>>, p: int)
    requires
        normal(a),
        covers(a, p),
    ensures
        a[0].start <= p,
{
    let i = choose|i: int| 0 <= i < a.len() && (#[trigger] a[i]).start <= p < a[i].end;
    assert(i == 0 || a[0].end < a[i].start);
}

proof fn lemma_first_end_is_free(a: Seq<Range<u64>>)
    requires
        normal(a),
        a.len() > 0,
    ensures
        !covers(a, a[0].end as int),
{
    let p = a[0].end as int;
    if covers(a, p) {
        let i = choose|i: int| 0 <= i < a.len() && (#[trigger] a[i]).start <= p < a[i].end;
        assert(i == 0 || a[0].end < a[i].start);
    }
}

proof fn lemma_tail_covers(a: Seq<Range<u64>>, p: int)
    requires
        normal(a),
        a.len() > 0,
    ensures
        covers(a.drop_first(), p) <==> covers(a, p) && !(a[0].start <= p < a[0].end),
{
    let t = a.drop_first();
    if covers(t, p) {
        let i = choose|i: int| 0 <= i < t.len() && (#[trigger] t[i]).start <= p < t[i].end;
        assert(a[i + 1] == t[i]);
        assert(a[0].end < a[i + 1].start);
    }
    if covers(a, p) && !(a[0].start <= p < a[0].end) {
        let i = choose|i: int| 0 <= i < a.len() && (#[trigger] a[i]).start <= p < a[i].end;
        assert(t[i - 1] == a[i]);
    }
}

/// What was written is what a later read finds, and a write changes nothing outside its range.
pub proof fn write_then_read(cache: CacheView, offset: u64, data: Seq<u8>)
    requires
        cache.write_error(offset, data.len()) is None,
    ensures
        forall|p: int|
            offset <= p < offset + data.len() ==> #[trigger] cache.with_bytes(
                offset as int,
                data,
            ).holds(p, data[p - offset]),
        forall|p: int|
            !(offset <= p < offset + data.len()) ==> (#[trigger] cache.with_bytes(
                offset as int,
                data,
            ).populated(p) <==> cache.populated(p)),
        forall|p: int|
            !(offset <= p < offset + data.len()) && cache.populated(p) ==> #[trigger] cache.with_bytes(
                offset as int,
                data,
            ).bytes[p] == cache.bytes[p],
{
}

/// The ranges that a write leaves hold exactly what they held before and what was written, and end
/// within the object. Being sorted and merged, they are the only such list: a write that overlaps,
/// touches or bridges ranges leaves them merged.
pub proof fn ranges_grow_by_the_write(
    cache: CacheView,
    offset: u64,
    data: Seq<u8>,
    before: Seq<Range<u64>>,
    after: Seq<Range<u64>>,
)
    requires
        cache.write_error(offset, data.len()) is None,
        0 <= cache.total_size,
        normal(before),
        forall|p: int| #[trigger] covers(before, p) <==> cache.populated(p),
        forall|i: int| 0 <= i < before.len() ==> (#[trigger] before[i]).end <= cache.total_size,
        normal(after),
        forall|p: int| #[trigger]
            covers(after, p) <==> cache.with_bytes(offset as int, data).populated(p),
    ensures
        forall|p: int| #[trigger]
            covers(after, p) <==> covers(before, p) || offset <= p < offset + data.len(),
        forall|i: int| 0 <= i < after.len() ==> (#[trigger] after[i]).end <= cache.total_size,
        forall|i: int|
            0 <= i < after.len() - 1 ==> (#[trigger] after[i]).end < after[i + 1].start,
        data.len() == 0 ==> after == before,
{
    let later = cache.with_bytes(offset as int, data);
    assert forall|p: int| #[trigger] covers(after, p) <==> covers(before, p) || offset <= p < offset
        + data.len() by {
        assert(covers(after, p) <==> later.populated(p));
        assert(covers(before, p) <==> cache.populated(p));
    }
    assert forall|i: int| 0 <= i < after.len() implies (#[trigger] after[i]).end
        <= cache.total_size by {
        let last = after[i].end - 1;
        assert(after[i].start <= last < after[i].end);
        assert(covers(after, last));
        if covers(before, last) {
            let k = choose|k: int|
                0 <= k < before.len() && (#[trigger] before[k]).start <= last < before[k].end;
            assert(before[k].end <= cache.total_size);
        }
    }
    if data.len() == 0 {
        normal_ranges_are_unique(after, before);
    }
}

/// What a window misses: every position in it, within the object, whose byte has not arrived.
pub proof fn windows_miss_what_has_not_arrived(cache: CacheView, offset: int, size: int, p: int)
    ensures
        cache.missing(offset, size, p) <==> offset <= p && p < offset + size && p < cache.total_size
            && !cache.bytes.contains_key(p),
        cache.populated(p) <==> cache.bytes.contains_key(p),
{
}

/// Which writes are taken: those that end within the object, and those of nothing. Any other is
/// refused, with where it would have ended where that can be said.
pub proof fn writes_end_within_the_object(cache: CacheView, offset: u64, len: nat)
    requires
        0 <= cache.total_size <= u64::MAX,
    ensures
        cache.write_error(offset, len) is None <==> len == 0 || offset + len <= cache.total_size,
        len > 0 && offset + len > u64::MAX ==> cache.write_error(offset, len) == Some(
            CacheError::RangeOverflow,
        ),
        len > 0 && cache.total_size < offset + len <= u64::MAX ==> cache.write_error(offset, len)
            == Some(
            CacheError::PastEnd {
                offset,
                end: (offset + len) as u64,
                total_size: cache.total_size as u64,
            },
        ),
{
}

/// What arrives at a place is there, byte by byte, and nothing else changes.
pub proof fn bytes_arrive_where_they_belong(cache: CacheView, offset: int, data: Seq<u8>, p: int)
    ensures
        ({
            let after = cache.with_bytes(offset, data);
            &&& after.total_size == cache.total_size
            &&& offset <= p < offset + data.len() ==> after.bytes.contains_key(p) && after.bytes[p]
                == data[p - offset]
            &&& !(offset <= p < offset + data.len()) ==> after.bytes.contains_key(p)
                == cache.bytes.contains_key(p) && (cache.bytes.contains_key(p) ==> after.bytes[p]
                == cache.bytes[p])
        }),
{
}

/// What ranges hold: each position from its start up to, but not with, its end. Ranges that are sorted
/// and merged are not empty, and there is room between each two.
pub proof fn ranges_hold_their_positions(
    a: Seq<Range<u64>>,
    b: Seq<Range<u64>>,
    range: Range<u64>,
    p: int,
)
    ensures
        !covers(Seq::empty(), p),
        covers(seq![range], p) <==> range.start <= p && p < range.end,
        covers(a + b, p) <==> covers(a, p) || covers(b, p),
        normal(a) && a.len() > 0 ==> a[0].start < a[0].end,
        normal(a) && a.len() > 1 ==> a[0].end < a[1].start,
        normal(seq![range]) <==> range.start < range.end,
{
    if range.start <= p < range.end {
        assert(seq![range][0].start <= p);
    }
    let both = a + b;
    if covers(a, p) {
        let i = choose|i: int| 0 <= i < a.len() && (#[trigger] a[i]).start <= p < a[i].end;
        assert(both[i] == a[i]);
    }
    if covers(b, p) {
        let i = choose|i: int| 0 <= i < b.len() && (#[trigger] b[i]).start <= p < b[i].end;
        assert(both[a.len() + i] == b[i]);
    }
    if covers(both, p) {
        let i = choose|i: int| 0 <= i < both.len() && (#[trigger] both[i]).start <= p < both[i].end;
        if i < a.len() {
            assert(a[i] == both[i]);
        } else {
            assert(b[i - a.len()] == both[i]);
        }
    }
    if normal(seq![range]) {
        assert(seq![range][0].start < seq![range][0].end);
    }
}

/// Where a window ends: after its size, or with the object where that is shorter.
pub proof fn windows_end_with_the_object(offset: int, size: int, total_size: int)
    ensures
        window_end(offset, size, total_size) <= offset + size,
        window_end(offset, size, total_size) <= total_size,
        window_end(offset, size, total_size) == offset + size || window_end(
            offset,
            size,
            total_size,
        ) == total_size,
{
}

} // verus!
