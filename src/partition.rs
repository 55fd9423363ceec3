//! Division of an id interval into contiguous, near-equal ranges, one per worker.

use vstd::prelude::*;

verus! {

/// Whether some range of `ranges` contains the id `x`.
pub open spec fn covers(ranges: Seq<(i64, i64)>, x: int) -> bool {
    exists|k: int| 0 <= k < ranges.len() && #[trigger] ranges[k].0 <= x <= ranges[k].1
}

/// Number of ranges that `partition(lo, hi, workers)` produces.
pub open spec fn range_count(lo: int, hi: int, workers: int) -> int {
    if lo >= hi {
        0
    } else if hi - lo <= workers {
        hi - lo + 1
    } else {
        workers
    }
}

/// Inclusive bounds of the `k`-th range of `partition(lo, hi, workers)`.
///
/// When the interval is no wider than the worker count every id gets a range
/// of its own; otherwise each range spans `(hi - lo) / workers` ids and the
/// last one also takes the remainder.
pub open spec fn range_bounds(lo: int, hi: int, workers: int, k: int) -> (int, int) {
    if hi - lo <= workers {
        (lo + k, lo + k)
    } else {
        let step = (hi - lo) / workers;
        if k == workers - 1 {
            (lo + k * step, hi)
        } else {
            (lo + k * step, lo + (k + 1) * step - 1)
        }
    }
}

/// The ranges, in order, that `partition(lo, hi, workers)` returns.
pub open spec fn partition_spec(lo: i64, hi: i64, workers: usize) -> Seq<(i64, i64)> {
    Seq::new(
        range_count(lo as int, hi as int, workers as int) as nat,
        |k: int|
            (
                range_bounds(lo as int, hi as int, workers as int, k).0 as i64,
                range_bounds(lo as int, hi as int, workers as int, k).1 as i64,
            ),
    )
}

proof fn lemma_step_bounds(span: int, workers: int, k: int)
    requires
        0 < workers < span,
        0 <= k < workers,
    ensures
        span / workers >= 1,
        0 <= k * (span / workers),
        k * (span / workers) + span / workers <= span,
        workers * (span / workers) <= span,
        span < workers * (span / workers) + workers,
{
    let step = span / workers;
    assert(span == workers * step + span % workers) by {
        vstd::arithmetic::div_mod::lemma_fundamental_div_mod(span, workers);
    }
    assert(0 <= span % workers < workers) by {
        vstd::arithmetic::div_mod::lemma_mod_bound(span, workers);
    }
    assert(step >= 1) by (nonlinear_arith)
        requires
            span == workers * step + span % workers,
            0 <= span % workers < workers,
            workers < span,
            0 < workers,
    ;
    assert(0 <= k * step) by (nonlinear_arith)
        requires
            0 <= k,
            step >= 1,
    ;
    assert(k * step + step <= workers * step) by (nonlinear_arith)
        requires
            k + 1 <= workers,
            step >= 1,
    ;
}

/// Bounds of every range lie inside the interval and each range is non-empty.
proof fn lemma_bounds_in_interval(lo: int, hi: int, workers: int, k: int)
    requires
        lo < hi,
        workers > 0,
        0 <= k < range_count(lo, hi, workers),
    ensures
        lo <= range_bounds(lo, hi, workers, k).0 <= range_bounds(lo, hi, workers, k).1 <= hi,
        k == 0 ==> range_bounds(lo, hi, workers, k).0 == lo,
        k == range_count(lo, hi, workers) - 1 ==> range_bounds(lo, hi, workers, k).1 == hi,
        k + 1 < range_count(lo, hi, workers) ==> range_bounds(lo, hi, workers, k).1 + 1
            == range_bounds(lo, hi, workers, k + 1).0,
{
    if hi - lo > workers {
        lemma_step_bounds(hi - lo, workers, k);
        let step = (hi - lo) / workers;
        assert((k + 1) * step == k * step + step) by (nonlinear_arith);
        assert(k == 0 ==> k * step == 0) by (nonlinear_arith);
        if k + 1 < workers {
            lemma_step_bounds(hi - lo, workers, k + 1);
        }
    }
}

/// Divides `[min_id, max_id]` into ranges for `workers` concurrent workers.
///
/// An empty or inverted interval (`min_id >= max_id`) gives no ranges. An
/// interval no wider than `workers` gives one single-id range per id.
/// Otherwise there are exactly `workers` ranges of `(max_id - min_id) / workers`
/// ids each, the last one stretched to end at `max_id`.
pub fn partition(min_id: i64, max_id: i64, workers: usize) -> (ranges: Vec<(i64, i64)>)
    requires
        workers > 0 || min_id >= max_id,
    ensures
        ranges@ == partition_spec(min_id, max_id, workers),
{
    let mut ranges: Vec<(i64, i64)> = Vec::new();
    if min_id >= max_id {
        assert(ranges@ =~= partition_spec(min_id, max_id, workers));
        return ranges;
    }
    let lo: i128 = min_id as i128;
    let span: i128 = max_id as i128 - lo;
    let w: i128 = workers as i128;
    let ghost count = range_count(min_id as int, max_id as int, workers as int);
    if span <= w {
        let mut k: i128 = 0;
        while k <= span
            invariant
                lo == min_id,
                span == max_id - min_id,
                0 < span <= w,
                w == workers,
                count == span + 1,
                0 <= k <= span + 1,
                ranges@.len() == k,
                forall|j: int|
                    0 <= j < k ==> #[trigger] ranges@[j] == partition_spec(
                        min_id,
                        max_id,
                        workers,
                    )[j],
            decreases span + 1 - k,
        {
            let id: i64 = (lo + k) as i64;
            ranges.push((id, id));
            k = k + 1;
        }
    } else {
        let step: i128 = span / w;
        let mut k: i128 = 0;
        while k < w
            invariant
                lo == min_id,
                span == max_id - min_id,
                0 < w < span,
                w == workers,
                step == span / w,
                count == w,
                0 <= k <= w,
                ranges@.len() == k,
                forall|j: int|
                    0 <= j < k ==> #[trigger] ranges@[j] == partition_spec(
                        min_id,
                        max_id,
                        workers,
                    )[j],
            decreases w - k,
        {
            proof {
                lemma_step_bounds(span as int, w as int, k as int);
                assert((k + 1) * step == k * step + step) by (nonlinear_arith);
            }
            let start: i128 = lo + k * step;
            let end: i128 = if k == w - 1 {
                max_id as i128
            } else {
                lo + (k + 1) * step - 1
            };
            ranges.push((start as i64, end as i64));
            k = k + 1;
        }
    }
    assert(ranges@ =~= partition_spec(min_id, max_id, workers));
    ranges
}

/// Laws of the partition: the ranges are non-empty, in increasing order,
/// pairwise disjoint and contiguous, and together they cover exactly
/// `[lo, hi]`; an empty or inverted interval yields no range, and an interval
/// no wider than the worker count yields `hi - lo + 1` single-id ranges.
pub proof fn lemma_partition_tiles_interval(lo: i64, hi: i64, workers: usize)
    requires
        workers > 0 || lo >= hi,
    ensures
        ({
            let r = partition_spec(lo, hi, workers);
            &&& lo >= hi ==> r.len() == 0
            &&& lo < hi && hi - lo <= workers ==> {
                &&& r.len() == hi - lo + 1
                &&& forall|k: int| 0 <= k < r.len() ==> #[trigger] r[k].0 == r[k].1
            }
            &&& forall|k: int| 0 <= k < r.len() ==> #[trigger] r[k].0 <= r[k].1
            &&& forall|k: int|
                0 <= k && k + 1 < r.len() ==> #[trigger] r[k].1 + 1 == r[k + 1].0
            &&& forall|i: int, j: int|
                0 <= i < j < r.len() ==> #[trigger] r[i].1 < #[trigger] r[j].0
            &&& r.len() > 0 ==> r[0].0 == lo && r[r.len() - 1].1 == hi
            &&& forall|x: int| #[trigger] covers(r, x) <==> (lo < hi && lo <= x <= hi)
        }),
{
    let r = partition_spec(lo, hi, workers);
    let (l, h, w) = (lo as int, hi as int, workers as int);
    if lo >= hi {
        return;
    }
    assert forall|k: int| 0 <= k < r.len() implies r[k].0 == range_bounds(l, h, w, k).0 && r[k].1
        == range_bounds(l, h, w, k).1 && lo <= r[k].0 <= r[k].1 <= hi by {
        lemma_bounds_in_interval(l, h, w, k);
    }
    assert forall|k: int| 0 <= k && k + 1 < r.len() implies #[trigger] r[k].1 + 1 == r[k + 1].0 by {
        lemma_bounds_in_interval(l, h, w, k);
        lemma_bounds_in_interval(l, h, w, k + 1);
    }
    assert(r[0].0 == lo && r[r.len() - 1].1 == hi) by {
        lemma_bounds_in_interval(l, h, w, 0);
        lemma_bounds_in_interval(l, h, w, r.len() - 1);
    }
    assert forall|i: int, j: int| 0 <= i < j < r.len() implies #[trigger] r[i].1 < #[trigger] r[j].0 by {
        lemma_bounds_in_interval(l, h, w, i);
        lemma_bounds_in_interval(l, h, w, j);
        if h - l > w {
            let step = (h - l) / w;
            lemma_step_bounds(h - l, w, i);
            assert((i + 1) * step <= j * step) by (nonlinear_arith)
                requires
                    i + 1 <= j,
                    step >= 1,
            ;
        }
    }
    assert forall|x: int| lo <= x <= hi implies covers(r, x) by {
        if h - l <= w {
            assert(r[x - l].0 <= x <= r[x - l].1);
        } else {
            let step = (h - l) / w;
            lemma_step_bounds(h - l, w, 0);
            let q = (x - l) / step;
            assert(q * step <= x - l < q * step + step) by {
                vstd::arithmetic::div_mod::lemma_fundamental_div_mod(x - l, step);
                vstd::arithmetic::div_mod::lemma_mod_bound(x - l, step);
            }
            assert(q >= 0) by {
                vstd::arithmetic::div_mod::lemma_div_pos_is_pos(x - l, step);
            }
            let k = if q < w - 1 { q } else { w - 1 };
            lemma_step_bounds(h - l, w, k);
            assert(k * step <= q * step) by (nonlinear_arith)
                requires
                    k <= q,
                    step >= 1,
            ;
            assert((k + 1) * step == k * step + step) by (nonlinear_arith);
            assert(r[k].0 <= x <= r[k].1);
        }
    }
}

} // verus!
