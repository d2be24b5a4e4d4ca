//! Time buckets: how a time range is cut into intervals, and how a timestamp
//! finds its bucket.
//!
//! A bucket is named by its first second, a multiple of the interval. The
//! buckets of a window `[start, end]` are one for every interval that begins
//! at `start + i * interval` up to `end`, and one more past `end`: with that
//! extra bucket the bucket of `end` itself is always among them.

use vstd::prelude::*;
use vstd::arithmetic::div_mod::{
    lemma_div_is_ordered,
    lemma_fundamental_div_mod,
    lemma_fundamental_div_mod_converse,
    lemma_mod_bound,
};

verus! {

/// The most buckets that one store may hold.
pub const MAX_BUCKETS: usize = 4096;

/// The bucket of `timestamp`: the largest multiple of `interval` that is not
/// after it.
pub open spec fn bucket_of(timestamp: int, interval: int) -> int {
    timestamp - timestamp % interval
}

/// How many buckets the window `[start, end]` has: none where `start` lies
/// more than one interval past `end`.
pub open spec fn bucket_count(start: int, end: int, interval: int) -> int {
    if start <= end + interval {
        (end + interval - start) / interval + 1
    } else {
        0
    }
}

/// The `i`-th bucket of a row of buckets that begins at `first`.
pub open spec fn nth_bucket(first: int, interval: int, i: int) -> int {
    first + i * interval
}

/// Whether `bucket` is one of the `count` buckets that begin at `first`.
pub open spec fn in_span(first: int, count: int, interval: int, bucket: int) -> bool {
    &&& first <= bucket <= nth_bucket(first, interval, count - 1)
    &&& (bucket - first) % interval == 0
}

/// Whether the window `[start, end]` has a bucket for `timestamp`.
pub open spec fn covered(start: int, end: int, interval: int, timestamp: int) -> bool {
    in_span(
        bucket_of(start, interval),
        bucket_count(start, end, interval),
        interval,
        bucket_of(timestamp, interval),
    )
}

/// The last bucket of the window `[start, end]`, where it has one.
pub open spec fn last_bucket(start: int, end: int, interval: int) -> int {
    nth_bucket(bucket_of(start, interval), interval, bucket_count(start, end, interval) - 1)
}

/// Whether a store can be made for the window: the interval is positive, the
/// buckets are no more than [`MAX_BUCKETS`], and each is a 64-bit timestamp.
pub open spec fn valid_window(start: int, end: int, interval: int) -> bool {
    &&& interval > 0
    &&& bucket_count(start, end, interval) <= MAX_BUCKETS
    &&& bucket_count(start, end, interval) > 0 ==> i64::MIN <= bucket_of(start, interval)
        && last_bucket(start, end, interval) <= i64::MAX
}

/// The bucket of `timestamp`, or `None` where the interval is not positive or
/// the bucket lies before the first 64-bit timestamp.
pub fn resolve(timestamp: i64, interval: i64) -> (r: Option<i64>)
    ensures
        match r {
            Some(bucket) => interval > 0 && bucket == bucket_of(timestamp as int, interval as int),
            None => interval <= 0 || bucket_of(timestamp as int, interval as int) < i64::MIN,
        },
{
    if interval <= 0 {
        return None;
    }
    proof {
        lemma_mod_bound(timestamp as int, interval as int);
    }
    match timestamp.checked_rem_euclid(interval) {
        Some(rest) => timestamp.checked_sub(rest),
        None => None,
    }
}

/// A bucket is a multiple of the interval, and holds its timestamp: it is not
/// after the timestamp and less than one interval before it.
pub proof fn lemma_bucket_bounds(timestamp: int, interval: int)
    requires
        interval > 0,
    ensures
        bucket_of(timestamp, interval) == interval * (timestamp / interval),
        bucket_of(timestamp, interval) % interval == 0,
        bucket_of(timestamp, interval) <= timestamp < bucket_of(timestamp, interval) + interval,
{
    lemma_fundamental_div_mod(timestamp, interval);
    lemma_mod_bound(timestamp, interval);
    lemma_multiple(timestamp / interval, interval);
}

/// `q * interval` is a multiple of `interval`, and dividing gives `q` back.
proof fn lemma_multiple(q: int, interval: int)
    requires
        interval > 0,
    ensures
        (q * interval) % interval == 0,
        (q * interval) / interval == q,
        (interval * q) % interval == 0,
        (interval * q) / interval == q,
{
    lemma_fundamental_div_mod_converse(q * interval, interval, q, 0);
    assert(interval * q == q * interval) by (nonlinear_arith);
}

/// Multiplying by a positive interval keeps the order, both ways.
proof fn lemma_scale_order(a: int, b: int, interval: int)
    requires
        interval > 0,
    ensures
        a <= b <==> a * interval <= b * interval,
        a < b <==> a * interval < b * interval,
        a == b <==> a * interval == b * interval,
{
    assert(a <= b ==> a * interval <= b * interval) by (nonlinear_arith)
        requires
            interval > 0,
    ;
    assert(a > b ==> a * interval > b * interval) by (nonlinear_arith)
        requires
            interval > 0,
    ;
    assert(a < b ==> a * interval < b * interval) by (nonlinear_arith)
        requires
            interval > 0,
    ;
    assert(a >= b ==> a * interval >= b * interval) by (nonlinear_arith)
        requires
            interval > 0,
    ;
}

/// Moving a timestamp by whole intervals moves its bucket by as much: the
/// offset within the bucket repeats with the interval.
pub proof fn lemma_bucket_shift(timestamp: int, k: int, interval: int)
    requires
        interval > 0,
    ensures
        bucket_of(timestamp + k * interval, interval) == bucket_of(timestamp, interval) + k
            * interval,
{
    lemma_fundamental_div_mod(timestamp, interval);
    lemma_mod_bound(timestamp, interval);
    let q = timestamp / interval;
    let r = timestamp % interval;
    assert(timestamp + k * interval == (q + k) * interval + r) by (nonlinear_arith)
        requires
            timestamp == interval * q + r,
    ;
    lemma_fundamental_div_mod_converse(timestamp + k * interval, interval, q + k, r);
}

/// Two timestamps that lie whole intervals apart have the same bucket only
/// where they are the same timestamp: the bucket moves with the timestamp.
pub proof fn lemma_bucket_shift_same(timestamp: int, k: int, interval: int)
    requires
        interval > 0,
    ensures
        bucket_of(timestamp + k * interval, interval) == bucket_of(timestamp, interval) <==> k
            == 0,
{
    lemma_bucket_shift(timestamp, k, interval);
    lemma_scale_order(k, 0, interval);
}

/// A later timestamp never has an earlier bucket.
pub proof fn lemma_bucket_monotonic(earlier: int, later: int, interval: int)
    requires
        interval > 0,
        earlier <= later,
    ensures
        bucket_of(earlier, interval) <= bucket_of(later, interval),
{
    lemma_bucket_bounds(earlier, interval);
    lemma_bucket_bounds(later, interval);
    lemma_div_is_ordered(earlier, later, interval);
    lemma_scale_order(earlier / interval, later / interval, interval);
    assert(interval * (earlier / interval) == (earlier / interval) * interval)
        by (nonlinear_arith);
    assert(interval * (later / interval) == (later / interval) * interval) by (nonlinear_arith);
}

/// The buckets of a row are its multiples: `bucket` is in the span exactly
/// when it is the `i`-th bucket for some `i` below `count`, and that `i` is
/// `(bucket - first) / interval`.
pub proof fn lemma_span_index(first: int, count: int, interval: int, bucket: int)
    requires
        interval > 0,
    ensures
        in_span(first, count, interval, bucket) <==> 0 <= (bucket - first) / interval < count
            && bucket == nth_bucket(first, interval, (bucket - first) / interval),
{
    let d = bucket - first;
    let i = d / interval;
    lemma_fundamental_div_mod(d, interval);
    lemma_mod_bound(d, interval);
    assert(interval * i == i * interval) by (nonlinear_arith);
    lemma_scale_order(i, count - 1, interval);
    lemma_scale_order(0, i, interval);
    if in_span(first, count, interval, bucket) {
        assert(d == i * interval);
    }
    if 0 <= i < count && bucket == nth_bucket(first, interval, i) {
        lemma_multiple(i, interval);
    }
}

/// The `i`-th bucket of a row is in its span, for every `i` below `count`.
pub proof fn lemma_nth_in_span(first: int, count: int, interval: int, i: int)
    requires
        interval > 0,
        0 <= i < count,
    ensures
        in_span(first, count, interval, nth_bucket(first, interval, i)),
        (nth_bucket(first, interval, i) - first) / interval == i,
{
    lemma_multiple(i, interval);
    lemma_scale_order(i, count - 1, interval);
    lemma_scale_order(0, i, interval);
}

/// Which timestamps a window covers: those from its first bucket up to the
/// end of its last one.
pub proof fn lemma_covered_range(start: int, end: int, interval: int, timestamp: int)
    requires
        interval > 0,
        bucket_count(start, end, interval) > 0,
    ensures
        covered(start, end, interval, timestamp) <==> bucket_of(start, interval) <= timestamp
            < last_bucket(start, end, interval) + interval,
{
    let first = bucket_of(start, interval);
    let count = bucket_count(start, end, interval);
    let last = last_bucket(start, end, interval);
    let b = bucket_of(timestamp, interval);
    lemma_bucket_bounds(start, interval);
    lemma_bucket_bounds(timestamp, interval);
    let f = start / interval;
    let q = timestamp / interval;
    assert(interval * f == f * interval) by (nonlinear_arith);
    assert(interval * q == q * interval) by (nonlinear_arith);
    assert(b - first == (q - f) * interval) by (nonlinear_arith)
        requires
            b == q * interval,
            first == f * interval,
    ;
    lemma_multiple(q - f, interval);
    assert(last == (f + count - 1) * interval) by (nonlinear_arith)
        requires
            last == first + (count - 1) * interval,
            first == f * interval,
    ;
    lemma_scale_order(f, q, interval);
    lemma_scale_order(q, f + count - 1, interval);
    lemma_scale_order(f, q + 1, interval);
    lemma_scale_order(q, f + count, interval);
    assert((q + 1) * interval == q * interval + interval) by (nonlinear_arith);
    assert((f + count) * interval == (f + count - 1) * interval + interval) by (nonlinear_arith);
}

/// The first bucket of a window is the bucket of `start`: a timestamp at
/// `start` is covered, and no bucket of the window lies before its bucket.
pub proof fn lemma_start_is_first(start: int, end: int, interval: int)
    requires
        interval > 0,
        bucket_count(start, end, interval) > 0,
    ensures
        covered(start, end, interval, start),
        forall|bucket: int|
            in_span(
                bucket_of(start, interval),
                bucket_count(start, end, interval),
                interval,
                bucket,
            ) ==> bucket_of(start, interval) <= bucket,
{
    lemma_bucket_bounds(start, interval);
    lemma_covered_range(start, end, interval, start);
    let count = bucket_count(start, end, interval);
    lemma_scale_order(0, count - 1, interval);
}

/// A window that does not end before it starts has at least two buckets:
/// `(end - start) / interval + 2` of them.
pub proof fn lemma_count_from_two(start: int, end: int, interval: int)
    requires
        interval > 0,
        start <= end,
    ensures
        bucket_count(start, end, interval) == (end - start) / interval + 2,
        bucket_count(start, end, interval) >= 2,
{
    let d = end - start;
    lemma_fundamental_div_mod(d, interval);
    lemma_mod_bound(d, interval);
    let q = d / interval;
    let r = d % interval;
    assert(d + interval == (q + 1) * interval + r) by (nonlinear_arith)
        requires
            d == interval * q + r,
    ;
    lemma_fundamental_div_mod_converse(d + interval, interval, q + 1, r);
    lemma_div_is_ordered(0, d, interval);
    lemma_multiple(0, interval);
}

/// A timestamp at `end` is covered: its bucket is among those of the window.
pub proof fn lemma_end_is_covered(start: int, end: int, interval: int)
    requires
        interval > 0,
        start <= end,
    ensures
        covered(start, end, interval, end),
{
    lemma_count_from_two(start, end, interval);
    lemma_covered_range(start, end, interval, end);
    lemma_bucket_bounds(start, interval);
    let d = end - start;
    let q = d / interval;
    lemma_fundamental_div_mod(d, interval);
    lemma_mod_bound(d, interval);
    let first = bucket_of(start, interval);
    let last = last_bucket(start, end, interval);
    assert(last == first + (q + 1) * interval);
    assert((q + 1) * interval == interval * q + interval) by (nonlinear_arith);
}

/// A timestamp before the first bucket of a window, or at or after the end of
/// its last bucket, is not covered.
pub proof fn lemma_outside_is_not_covered(start: int, end: int, interval: int, timestamp: int)
    requires
        interval > 0,
        bucket_count(start, end, interval) > 0,
        timestamp < bucket_of(start, interval) || timestamp >= last_bucket(start, end, interval)
            + interval,
    ensures
        !covered(start, end, interval, timestamp),
{
    lemma_covered_range(start, end, interval, timestamp);
}

/// A row without buckets has nothing in its span.
pub proof fn lemma_empty_span(first: int, count: int, interval: int, bucket: int)
    requires
        interval > 0,
        count <= 0,
    ensures
        !in_span(first, count, interval, bucket),
{
    lemma_scale_order(count - 1, -1, interval);
}

/// A window without buckets covers nothing.
pub proof fn lemma_empty_window(start: int, end: int, interval: int, timestamp: int)
    requires
        interval > 0,
        bucket_count(start, end, interval) <= 0,
    ensures
        !covered(start, end, interval, timestamp),
{
    let count = bucket_count(start, end, interval);
    lemma_scale_order(count - 1, -1, interval);
}

} // verus!
