//! Cutting `[0, total_size)` into one contiguous interval per worker.

use vstd::prelude::*;

verus! {

/// An inclusive byte range `(start, end)` of the resource. A pair whose
/// `start` is `end + 1` holds no byte.
pub type Interval = (u64, u64);

/// The ordinal of the worker that fetches an interval: `1` for the first
/// interval, `2` for the second, and so on.
pub type WorkerId = u16;

/// The largest number of workers: as many as there are ids.
pub const MAX_WORKERS: usize = 65535;

/// The number of bytes that every interval but the last one spans.
pub open spec fn base_span(total_size: u64, worker_count: u64) -> int {
    (total_size + 1) / (worker_count as int)
}

/// The last byte of the resource. A resource without bytes is treated as
/// the single point `0`, so that one interval can still be named.
pub open spec fn last_byte(total_size: u64) -> int {
    if total_size == 0 {
        0
    } else {
        total_size - 1
    }
}

/// Where the interval of index `i` begins.
pub open spec fn interval_start(total_size: u64, worker_count: u64, i: int) -> int {
    i * base_span(total_size, worker_count)
}

/// Where the interval of index `i` ends: the last one takes whatever is left.
pub open spec fn interval_end(total_size: u64, worker_count: u64, i: int) -> int {
    if i == worker_count - 1 {
        last_byte(total_size)
    } else {
        (i + 1) * base_span(total_size, worker_count) - 1
    }
}

/// `intervals` is the partition of `total_size` bytes among `worker_count`
/// workers.
pub open spec fn is_partition(
    intervals: Seq<Interval>,
    total_size: u64,
    worker_count: u64,
) -> bool {
    &&& intervals.len() == worker_count
    &&& forall|i: int|
        0 <= i < intervals.len() ==> {
            &&& (#[trigger] intervals[i]).0 == interval_start(total_size, worker_count, i)
            &&& intervals[i].1 == interval_end(total_size, worker_count, i)
        }
}

/// The number of bytes in an interval.
pub open spec fn span(interval: Interval) -> int {
    interval.1 - interval.0 + 1
}

/// `intervals` lie end to end from byte `0` to the last byte of a resource of
/// `total_size` bytes: none is inverted, each begins right after the one
/// before it, the first begins at `0` and the last ends at `total_size - 1`.
pub open spec fn tiles(intervals: Seq<Interval>, total_size: u64) -> bool {
    &&& intervals.len() >= 1
    &&& intervals[0].0 == 0
    &&& intervals[intervals.len() - 1].1 + 1 == total_size
    &&& forall|i: int|
        0 <= i < intervals.len() ==> (#[trigger] intervals[i]).0 <= intervals[i].1 + 1
    &&& forall|i: int|
        0 <= i < intervals.len() - 1 ==> (#[trigger] intervals[i]).1 + 1 == intervals[i + 1].0
}

/// Byte `b` lies in `interval`.
pub open spec fn holds_byte(interval: Interval, b: int) -> bool {
    interval.0 <= b <= interval.1
}

/// Byte `b` lies in one of `intervals`.
pub open spec fn covered(intervals: Seq<Interval>, b: int) -> bool {
    exists|i: int| 0 <= i < intervals.len() && #[trigger] holds_byte(intervals[i], b)
}

/// What the base span times the worker count can reach.
pub proof fn lemma_base_span_bounds(total_size: u64, worker_count: u64)
    requires
        1 <= worker_count <= total_size + 1,
    ensures
        1 <= base_span(total_size, worker_count),
        worker_count * base_span(total_size, worker_count) <= total_size + 1,
        (worker_count - 1) * base_span(total_size, worker_count) <= total_size,
{
    let n: int = total_size + 1;
    let k: int = worker_count as int;
    let b: int = n / k;
    assert(b == base_span(total_size, worker_count));
    assert(1 <= b && k * b <= n && (k - 1) * b <= n - 1) by (nonlinear_arith)
        requires
            1 <= k <= n,
            b == n / k,
    ;
}

/// Starts grow with the index.
pub proof fn lemma_starts_grow(total_size: u64, worker_count: u64, i: int, j: int)
    requires
        1 <= worker_count <= total_size + 1,
        0 <= i <= j,
    ensures
        interval_start(total_size, worker_count, i) <= interval_start(total_size, worker_count, j),
        i < j ==> interval_start(total_size, worker_count, i) + base_span(total_size, worker_count)
            <= interval_start(total_size, worker_count, j),
{
    lemma_base_span_bounds(total_size, worker_count);
    let b: int = base_span(total_size, worker_count);
    assert(i * b <= j * b && (i < j ==> i * b + b <= j * b)) by (nonlinear_arith)
        requires
            0 <= i <= j,
            1 <= b,
    ;
}

/// Splits `total_size` bytes among `worker_count` workers.
///
/// Every interval but the last spans `(total_size + 1) / worker_count`
/// bytes; the last one reaches to the last byte of the resource. With no
/// more workers than `total_size + 1` nothing is left out and nothing is
/// covered twice. A resource without bytes yields the single point `(0, 0)`.
pub fn into_intervals(total_size: u64, worker_count: u64) -> (intervals: Vec<Interval>)
    requires
        1 <= worker_count <= total_size + 1,
    ensures
        is_partition(intervals@, total_size, worker_count),
        total_size >= 1 ==> tiles(intervals@, total_size),
{
    let last: u64 = if total_size == 0 {
        0
    } else {
        total_size - 1
    };
    let mut intervals: Vec<Interval> = Vec::new();
    if worker_count == 1 {
        intervals.push((0, last));
        proof {
            assert(0 * base_span(total_size, worker_count) == 0) by (nonlinear_arith);
            if total_size >= 1 {
                lemma_partition_tiles(intervals@, total_size, worker_count);
            }
        }
        return intervals;
    }
    let wide: u128 = (total_size as u128 + 1) / (worker_count as u128);
    proof {
        lemma_base_span_bounds(total_size, worker_count);
        assert(wide == base_span(total_size, worker_count));
        assert(wide <= u64::MAX) by (nonlinear_arith)
            requires
                wide == (total_size + 1) / (worker_count as int),
                2 <= worker_count,
                total_size <= u64::MAX,
        ;
    }
    let base: u64 = wide as u64;
    let mut current_start: u64 = 0;
    let mut i: u64 = 0;
    while i < worker_count
        invariant
            2 <= worker_count <= total_size + 1,
            i <= worker_count,
            base == base_span(total_size, worker_count),
            last == last_byte(total_size),
            i < worker_count ==> current_start == interval_start(
                total_size,
                worker_count,
                i as int,
            ),
            intervals@.len() == i,
            forall|j: int|
                0 <= j < i ==> {
                    &&& (#[trigger] intervals@[j]).0 == interval_start(total_size, worker_count, j)
                    &&& intervals@[j].1 == interval_end(total_size, worker_count, j)
                },
        decreases worker_count - i,
    {
        proof {
            lemma_base_span_bounds(total_size, worker_count);
            lemma_starts_grow(total_size, worker_count, i as int, worker_count - 1);
            if i < worker_count - 1 {
                lemma_starts_grow(total_size, worker_count, i as int + 1, worker_count - 1);
            }
            assert((i + 1) * base_span(total_size, worker_count) == i * base_span(
                total_size,
                worker_count,
            ) + base_span(total_size, worker_count)) by (nonlinear_arith);
        }
        let current_end: u64 = if i == worker_count - 1 {
            last
        } else {
            current_start + base - 1
        };
        intervals.push((current_start, current_end));
        if i < worker_count - 1 {
            current_start = current_end + 1;
        }
        i = i + 1;
    }
    proof {
        if total_size >= 1 {
            lemma_partition_tiles(intervals@, total_size, worker_count);
        }
    }
    intervals
}

/// A partition among no more workers than `total_size + 1` tiles the
/// resource.
pub proof fn lemma_partition_tiles(intervals: Seq<Interval>, total_size: u64, worker_count: u64)
    requires
        1 <= total_size,
        1 <= worker_count <= total_size + 1,
        is_partition(intervals, total_size, worker_count),
    ensures
        tiles(intervals, total_size),
{
    lemma_base_span_bounds(total_size, worker_count);
    let b: int = base_span(total_size, worker_count);
    assert forall|i: int| 0 <= i < intervals.len() implies (#[trigger] intervals[i]).0
        <= intervals[i].1 + 1 by {
        lemma_starts_grow(total_size, worker_count, i, worker_count - 1);
        assert((i + 1) * b == i * b + b) by (nonlinear_arith);
    }
    assert forall|i: int| 0 <= i < intervals.len() - 1 implies (#[trigger] intervals[i]).1 + 1
        == intervals[i + 1].0 by {
        assert(intervals[i + 1].0 == interval_start(total_size, worker_count, i + 1));
    }
    assert(0 * b == 0) by (nonlinear_arith);
}

/// Two partitions of the same size among the same number of workers are the
/// same sequence: the intervals depend on nothing else.
pub proof fn lemma_partition_unique(
    first: Seq<Interval>,
    second: Seq<Interval>,
    total_size: u64,
    worker_count: u64,
)
    requires
        is_partition(first, total_size, worker_count),
        is_partition(second, total_size, worker_count),
    ensures
        first == second,
{
    assert forall|i: int| 0 <= i < first.len() implies first[i] == second[i] by {
        assert(first[i].0 == second[i].0);
        assert(first[i].1 == second[i].1);
    }
    assert(first =~= second);
}

/// In a tiling a later interval begins after every earlier one has ended.
pub proof fn lemma_tiles_in_order(intervals: Seq<Interval>, total_size: u64, i: int, j: int)
    requires
        tiles(intervals, total_size),
        0 <= i < j < intervals.len(),
    ensures
        intervals[i].1 < intervals[j].0,
        intervals[i].0 <= intervals[j].0,
    decreases j - i,
{
    if i + 1 < j {
        lemma_tiles_in_order(intervals, total_size, i, j - 1);
        assert(intervals[j - 1].1 + 1 == intervals[j].0);
        assert(intervals[j - 1].0 <= intervals[j - 1].1 + 1);
    } else {
        assert(intervals[i].1 + 1 == intervals[i + 1].0);
        assert(intervals[i].0 <= intervals[i].1 + 1);
    }
}

/// No interval of a tiling reaches past the last byte of the resource.
pub proof fn lemma_tiles_within(intervals: Seq<Interval>, total_size: u64, i: int)
    requires
        tiles(intervals, total_size),
        0 <= i < intervals.len(),
    ensures
        intervals[i].0 <= intervals[i].1 + 1 <= total_size,
{
    let last: int = intervals.len() - 1;
    if i < last {
        lemma_tiles_in_order(intervals, total_size, i, last);
        assert(intervals[last].0 <= intervals[last].1 + 1);
    }
}

/// Every byte of the resource lies in some interval of a tiling: the result
/// is the index of one at or below `upto` that holds `b`.
pub proof fn lemma_tiles_holder(intervals: Seq<Interval>, total_size: u64, b: int, upto: int) -> (i:
    int)
    requires
        tiles(intervals, total_size),
        0 <= b < total_size,
        0 <= upto < intervals.len(),
        upto == intervals.len() - 1 || b < intervals[upto + 1].0,
    ensures
        0 <= i <= upto,
        holds_byte(intervals[i], b),
    decreases upto,
{
    if intervals[upto].0 <= b {
        if upto < intervals.len() - 1 {
            assert(intervals[upto].1 + 1 == intervals[upto + 1].0);
        }
        upto
    } else {
        lemma_tiles_holder(intervals, total_size, b, upto - 1)
    }
}

/// The intervals of a tiling are pairwise disjoint and their union is exactly
/// `[0, total_size - 1]`.
pub proof fn lemma_tiles_cover_exactly(intervals: Seq<Interval>, total_size: u64)
    requires
        tiles(intervals, total_size),
    ensures
        forall|i: int, j: int, b: int|
            0 <= i < j < intervals.len() && #[trigger] holds_byte(intervals[i], b)
                ==> !#[trigger] holds_byte(intervals[j], b),
        forall|b: int| #[trigger] covered(intervals, b) <==> 0 <= b < total_size,
{
    assert forall|i: int, j: int, b: int|
        0 <= i < j < intervals.len() && #[trigger] holds_byte(
            intervals[i],
            b,
        ) implies !#[trigger] holds_byte(intervals[j], b) by {
        lemma_tiles_in_order(intervals, total_size, i, j);
    }
    assert forall|b: int| #[trigger] covered(intervals, b) <==> 0 <= b < total_size by {
        if 0 <= b < total_size {
            let i = lemma_tiles_holder(intervals, total_size, b, intervals.len() - 1);
            assert(holds_byte(intervals[i], b));
        }
        if covered(intervals, b) {
            let i = choose|i: int| 0 <= i < intervals.len() && #[trigger] holds_byte(
                intervals[i],
                b,
            );
            lemma_tiles_within(intervals, total_size, i);
        }
    }
}

/// The partition of a resource of at least one byte among no more workers
/// than `total_size + 1`: its intervals lie end to end, no two of them share
/// a byte, and together they hold the bytes `0` to `total_size - 1` and no
/// other.
pub proof fn lemma_partition_covers(intervals: Seq<Interval>, total_size: u64, worker_count: u64)
    requires
        1 <= total_size,
        1 <= worker_count <= total_size + 1,
        is_partition(intervals, total_size, worker_count),
    ensures
        tiles(intervals, total_size),
        forall|i: int, j: int, b: int|
            0 <= i < j < intervals.len() && #[trigger] holds_byte(intervals[i], b)
                ==> !#[trigger] holds_byte(intervals[j], b),
        forall|b: int| #[trigger] covered(intervals, b) <==> 0 <= b < total_size,
{
    lemma_partition_tiles(intervals, total_size, worker_count);
    lemma_tiles_cover_exactly(intervals, total_size);
}

/// With no more workers than bytes, every worker gets at least one byte.
pub proof fn lemma_partition_nonempty(total_size: u64, worker_count: u64, i: int)
    requires
        1 <= worker_count <= total_size,
        0 <= i < worker_count,
    ensures
        interval_start(total_size, worker_count, i) <= interval_end(total_size, worker_count, i),
{
    let n: int = total_size + 1;
    let k: int = worker_count as int;
    let b: int = base_span(total_size, worker_count);
    lemma_base_span_bounds(total_size, worker_count);
    if i == k - 1 {
        assert((k - 1) * b <= n - 2) by (nonlinear_arith)
            requires
                1 <= k <= n - 1,
                b == n / k,
        ;
    } else {
        assert((i + 1) * b == i * b + b) by (nonlinear_arith);
    }
}

} // verus!
