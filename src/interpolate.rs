//! Times for every stop of the dense path between a trip's first and last
//! anchors, interpolated in proportion to the number of path steps.

use crate::clock::SECONDS_PER_DAY;
use vstd::arithmetic::div_mod::lemma_div_is_ordered;
use vstd::arithmetic::mul::lemma_mul_inequality;
use vstd::prelude::*;

verus! {

/// Whole minutes elapsed from time of day `from` to time of day `to` (seconds),
/// going forward, across midnight when `to` is the earlier clock time.
pub open spec fn minutes_between(from: int, to: int) -> int {
    if to >= from {
        (to - from) / 60
    } else {
        (to + SECONDS_PER_DAY - from) / 60
    }
}

/// Minutes after a segment's start at step `j` of `n` over a segment of `d`
/// minutes: `d * j / n`, rounded down; 0 when `n == 0`.
pub open spec fn step_minutes(d: int, j: int, n: int) -> int {
    if n == 0 {
        0
    } else {
        d * j / n
    }
}

/// Time of day (seconds) at step `j` of `n` of a segment from time `t0` to time
/// `t1`; the clock wraps at midnight.
pub open spec fn segment_time(t0: int, t1: int, j: int, n: int) -> int {
    (t0 + 60 * step_minutes(minutes_between(t0, t1), j, n)) % (SECONDS_PER_DAY as int)
}

/// The anchors never decrease.
pub open spec fn non_decreasing(anchors: Seq<usize>) -> bool {
    forall|x: int, y: int| 0 <= x <= y < anchors.len() ==> #[trigger] anchors[x] <= #[trigger] anchors[y]
}

/// The segment that emits path position `p`: the last of segments `0..=last`
/// whose starting anchor lies at or before `p`. A segment's end is emitted by the
/// segment after it, and only the trip's last segment emits its own end.
pub open spec fn segment_of(anchors: Seq<usize>, p: int, last: int) -> int
    decreases last,
{
    if last <= 0 {
        0
    } else if anchors[last] <= p {
        last
    } else {
        segment_of(anchors, p, last - 1)
    }
}

/// The segment of a trip with these anchors that emits path position `p`.
pub open spec fn emitting_segment(anchors: Seq<usize>, p: int) -> int {
    segment_of(anchors, p, anchors.len() - 2)
}

/// Time (seconds) of path position `p`.
pub open spec fn stop_seconds(anchors: Seq<usize>, times: Seq<u32>, p: int) -> int {
    let i = emitting_segment(anchors, p);
    segment_time(times[i] as int, times[i + 1] as int, p - anchors[i], anchors[i + 1] - anchors[i])
}

/// Path position `p` is the first or last stop of the segment that emits it.
pub open spec fn stop_is_timepoint(anchors: Seq<usize>, p: int) -> bool {
    let i = emitting_segment(anchors, p);
    p == anchors[i] || p == anchors[i + 1]
}

/// Number of stops emitted for a trip: every path position from the first
/// anchor to the last, stopping at the end of the path; none with fewer than two
/// anchors.
pub open spec fn emitted_count(anchors: Seq<usize>, path_len: int) -> int {
    if anchors.len() < 2 {
        0
    } else if anchors.last() < path_len {
        anchors.last() + 1 - anchors[0]
    } else {
        path_len - anchors[0]
    }
}

/// A stop of the dense path with its time.
#[derive(Clone, Copy, Debug, PartialEq, Eq, Structural)]
pub struct TimedStop {
    /// Position on the dense path.
    pub index: usize,
    /// Seconds after midnight.
    pub seconds: u32,
    /// The stop is a scheduled timepoint rather than an interpolated one.
    pub timepoint: bool,
}

/// The stop at path position `p` of a trip with these anchors and times.
pub open spec fn timed_stop(anchors: Seq<usize>, times: Seq<u32>, p: int) -> TimedStop {
    TimedStop {
        index: p as usize,
        seconds: stop_seconds(anchors, times, p) as u32,
        timepoint: stop_is_timepoint(anchors, p),
    }
}

/// `segment_of` picks segment `i` when `p` lies at or after its start and before
/// the start of every later segment up to `last`.
proof fn lemma_segment_of_is(anchors: Seq<usize>, p: int, i: int, last: int)
    requires
        0 <= i <= last < anchors.len(),
        anchors[i] <= p,
        forall|m: int| i < m <= last ==> p < #[trigger] anchors[m],
    ensures
        segment_of(anchors, p, last) == i,
    decreases last,
{
    if last > i {
        lemma_segment_of_is(anchors, p, i, last - 1);
    }
}

/// What `segment_of` picks: a segment that starts at or before `p`, while every
/// later one starts after it.
proof fn lemma_segment_of_bounds(anchors: Seq<usize>, p: int, last: int)
    requires
        0 <= last < anchors.len(),
        anchors[0] <= p,
    ensures
        0 <= segment_of(anchors, p, last) <= last,
        anchors[segment_of(anchors, p, last)] <= p,
        forall|m: int| segment_of(anchors, p, last) < m <= last ==> p < #[trigger] anchors[m],
    decreases last,
{
    if last > 0 && anchors[last] > p {
        lemma_segment_of_bounds(anchors, p, last - 1);
    }
}

/// Seconds at step `j` of `n` of a segment from `t0` to `t1`.
fn segment_seconds(t0: u32, t1: u32, j: usize, n: usize) -> (r: u32)
    requires
        t0 < SECONDS_PER_DAY,
        t1 < SECONDS_PER_DAY,
        j <= n,
    ensures
        r == segment_time(t0 as int, t1 as int, j as int, n as int),
        r < SECONDS_PER_DAY,
{
    if n == 0 {
        return t0;
    }
    let elapsed: u32 = if t1 >= t0 {
        t1 - t0
    } else {
        t1 + SECONDS_PER_DAY - t0
    };
    let d: u32 = elapsed / 60;
    assert((d as int) * (j as int) < 0x1_0000_0000_0000_0000_0000) by (nonlinear_arith)
        requires
            0 <= d < 1440,
            0 <= j <= 0xffff_ffff_ffff_ffff,
    ;
    let product: u128 = (d as u128) * (j as u128);
    let m: u128 = product / (n as u128);
    assert(m <= d) by (nonlinear_arith)
        requires
            product == (d as int) * (j as int),
            m == (product as int) / (n as int),
            0 <= j <= n,
            n > 0,
            d >= 0,
    ;
    (t0 + 60 * (m as u32)) % SECONDS_PER_DAY
}

/// One timed stop for every path position from the first anchor to the last
/// (those before `path_len` only), in path order. Position `p` is emitted by the
/// segment `(anchors[i], anchors[i + 1])` that holds it, counting a segment's end
/// with the next segment except at the trip's last anchor; its time lies
/// `floor(d * j / n)` whole minutes after `times[i]`, where `d` is the whole
/// minutes elapsed from `times[i]` to `times[i + 1]` (across midnight if need
/// be), `n` the segment's number of path steps and `j = p - anchors[i]`.
/// A segment's first and last stops are timepoints.
pub fn interpolate(anchors: &Vec<usize>, times: &Vec<u32>, path_len: usize) -> (r: Vec<TimedStop>)
    requires
        anchors.len() == times.len(),
        non_decreasing(anchors@),
        forall|i: int| 0 <= i < anchors.len() ==> #[trigger] anchors@[i] <= path_len,
        forall|i: int| 0 <= i < times.len() ==> #[trigger] times@[i] < SECONDS_PER_DAY,
    ensures
        r.len() == emitted_count(anchors@, path_len as int),
        forall|q: int| 0 <= q < r.len() ==> #[trigger] r@[q] == timed_stop(anchors@, times@, anchors@[0] + q),
{
    let k = anchors.len();
    let mut out: Vec<TimedStop> = Vec::new();
    if k < 2 {
        return out;
    }
    let first = anchors[0];
    let ghost a = anchors@;
    let ghost t = times@;
    let mut i: usize = 0;
    while i + 1 < k
        invariant
            k == anchors.len(),
            k >= 2,
            a == anchors@,
            t == times@,
            anchors.len() == times.len(),
            first == a[0],
            non_decreasing(a),
            forall|x: int| 0 <= x < k ==> #[trigger] a[x] <= path_len,
            forall|x: int| 0 <= x < k ==> #[trigger] t[x] < SECONDS_PER_DAY,
            i + 1 <= k,
            i + 1 < k ==> out.len() == a[i as int] - first,
            i + 1 == k ==> out.len() == emitted_count(a, path_len as int),
            forall|q: int| 0 <= q < out.len() ==> #[trigger] out@[q] == timed_stop(a, t, first + q),
        decreases k - i,
    {
        let start = anchors[i];
        let end = anchors[i + 1];
        let last = i + 2 == k;
        let t0 = times[i];
        let t1 = times[i + 1];
        let stop = if end < path_len {
            if last {
                end + 1
            } else {
                end
            }
        } else {
            path_len
        };
        assert(start <= stop);
        let mut p: usize = start;
        while p < stop
            invariant
                k == anchors.len(),
                k >= 2,
                a == anchors@,
                t == times@,
                i + 1 < k,
                last == (i + 2 == k),
                start == a[i as int],
                end == a[i + 1],
                t0 == t[i as int],
                t1 == t[i + 1],
                t0 < SECONDS_PER_DAY,
                t1 < SECONDS_PER_DAY,
                first == a[0],
                non_decreasing(a),
                start <= end,
                stop <= path_len,
                stop <= end + 1,
                !last ==> stop <= end,
                start <= p <= stop,
                out.len() == p - first,
                forall|q: int| 0 <= q < out.len() ==> #[trigger] out@[q] == timed_stop(a, t, first + q),
            decreases stop - p,
        {
            proof {
                assert forall|m: int| i < m <= k - 2 implies p < #[trigger] a[m] by {
                    assert(a[i + 1] <= a[m]);
                }
                lemma_segment_of_is(a, p as int, i as int, k - 2);
            }
            let seconds = segment_seconds(t0, t1, p - start, end - start);
            out.push(TimedStop { index: p, seconds, timepoint: p == start || p == end });
            p = p + 1;
        }
        i = i + 1;
    }
    out
}

/// Every step of a segment is a time of day; when the segment does not pass
/// midnight, a step lies between the segment's two times, no later than the
/// whole minutes of the segment allow.
pub proof fn lemma_segment_time_bounds(t0: int, t1: int, j: int, n: int)
    requires
        0 <= t0 < SECONDS_PER_DAY,
        0 <= t1 < SECONDS_PER_DAY,
        0 <= j <= n,
    ensures
        t0 <= t1 ==> t0 <= segment_time(t0, t1, j, n) <= t0 + 60 * minutes_between(t0, t1) <= t1,
        0 <= segment_time(t0, t1, j, n) < SECONDS_PER_DAY,
{
    let d = minutes_between(t0, t1);
    if n > 0 {
        assert(0 <= d * j / n <= d) by (nonlinear_arith)
            requires
                0 <= j <= n,
                n > 0,
                d >= 0,
        ;
    }
    if t0 <= t1 {
        let x = t0 + 60 * step_minutes(d, j, n);
        assert(0 <= x < SECONDS_PER_DAY);
        vstd::arithmetic::div_mod::lemma_small_mod(x as nat, SECONDS_PER_DAY as nat);
    }
}

/// Along a segment that does not pass midnight, a later step is no earlier.
pub proof fn lemma_segment_time_monotone(t0: int, t1: int, j1: int, j2: int, n: int)
    requires
        0 <= t0 <= t1 < SECONDS_PER_DAY,
        0 <= j1 <= j2 <= n,
    ensures
        segment_time(t0, t1, j1, n) <= segment_time(t0, t1, j2, n),
{
    lemma_segment_time_bounds(t0, t1, j1, n);
    lemma_segment_time_bounds(t0, t1, j2, n);
    if n > 0 {
        let d = (t1 - t0) / 60;
        lemma_mul_inequality(j1, j2, d);
        assert(j1 * d == d * j1 && j2 * d == d * j2) by (nonlinear_arith);
        lemma_div_is_ordered(d * j1, d * j2, n);
        let x1 = t0 + 60 * (d * j1 / n);
        let x2 = t0 + 60 * (d * j2 / n);
        assert(x1 <= x2);
        assert(0 <= d * j1 / n && d * j2 / n <= d) by (nonlinear_arith)
            requires
                0 <= j1 <= j2 <= n,
                n > 0,
                d >= 0,
        ;
        assert(60 * d <= t1 - t0);
        assert(0 <= x2 < SECONDS_PER_DAY);
        vstd::arithmetic::div_mod::lemma_small_mod(x1 as nat, SECONDS_PER_DAY as nat);
        vstd::arithmetic::div_mod::lemma_small_mod(x2 as nat, SECONDS_PER_DAY as nat);
    }
}

/// Stop times never decrease along the emitted positions of a trip whose
/// timepoint times never decrease.
pub proof fn lemma_stop_seconds_monotone(anchors: Seq<usize>, times: Seq<u32>, p1: int, p2: int)
    requires
        anchors.len() == times.len(),
        anchors.len() >= 2,
        non_decreasing(anchors),
        forall|x: int| 0 <= x < times.len() ==> #[trigger] times[x] < SECONDS_PER_DAY,
        forall|x: int, y: int| 0 <= x <= y < times.len() ==> #[trigger] times[x] <= #[trigger] times[y],
        anchors[0] <= p1 <= p2 <= anchors.last(),
    ensures
        stop_seconds(anchors, times, p1) <= stop_seconds(anchors, times, p2),
    decreases p2 - p1,
{
    if p1 < p2 {
        lemma_stop_seconds_monotone(anchors, times, p1, p2 - 1);
        lemma_stop_seconds_step(anchors, times, p2 - 1);
    }
}

proof fn lemma_stop_seconds_step(anchors: Seq<usize>, times: Seq<u32>, p: int)
    requires
        anchors.len() == times.len(),
        anchors.len() >= 2,
        non_decreasing(anchors),
        forall|x: int| 0 <= x < times.len() ==> #[trigger] times[x] < SECONDS_PER_DAY,
        forall|x: int, y: int| 0 <= x <= y < times.len() ==> #[trigger] times[x] <= #[trigger] times[y],
        anchors[0] <= p < anchors.last(),
    ensures
        stop_seconds(anchors, times, p) <= stop_seconds(anchors, times, p + 1),
{
    let k = anchors.len() as int;
    let last = k - 2;
    lemma_segment_of_bounds(anchors, p, last);
    lemma_segment_of_bounds(anchors, p + 1, last);
    let i = segment_of(anchors, p, last);
    let i2 = segment_of(anchors, p + 1, last);
    assert(anchors[k - 1] == anchors.last());
    if i2 < i {
        assert(p + 1 < anchors[i]);
    }
    assert(i <= i2);
    assert(p < anchors[i + 1]) by {
        if i + 1 <= last {
            assert(p < anchors[i + 1]);
        } else {
            assert(p < anchors[k - 1]);
        }
    }
    let t0 = times[i] as int;
    let t1 = times[i + 1] as int;
    assert(t0 <= t1);
    if i2 == i {
        assert(p + 1 <= anchors[i + 1]) by {
            if i + 1 <= last {
                assert(p + 1 < anchors[i + 1]);
            }
        }
        lemma_segment_time_monotone(t0, t1, p - anchors[i], p + 1 - anchors[i], anchors[i + 1] - anchors[i]);
    } else {
        assert(anchors[i + 1] <= anchors[i2]);
        let u0 = times[i2] as int;
        let u1 = times[i2 + 1] as int;
        assert(t1 <= u0);
        assert(u0 <= u1);
        lemma_segment_time_bounds(t0, t1, p - anchors[i], anchors[i + 1] - anchors[i]);
        assert(p + 1 - anchors[i2] == 0);
        lemma_segment_time_bounds(u0, u1, 0, anchors[i2 + 1] - anchors[i2]);
    }
}

/// The time of every emitted position lies within the day.
pub proof fn lemma_stop_seconds_in_day(anchors: Seq<usize>, times: Seq<u32>, p: int)
    requires
        anchors.len() == times.len(),
        anchors.len() >= 2,
        forall|x: int| 0 <= x < times.len() ==> #[trigger] times[x] < SECONDS_PER_DAY,
        anchors[0] <= p <= anchors.last(),
    ensures
        0 <= stop_seconds(anchors, times, p) < SECONDS_PER_DAY,
{
    let k = anchors.len() as int;
    lemma_segment_of_bounds(anchors, p, k - 2);
    let i = segment_of(anchors, p, k - 2);
    assert(anchors[k - 1] == anchors.last());
    assert(p <= anchors[i + 1]);
    lemma_segment_time_bounds(times[i] as int, times[i + 1] as int, p - anchors[i], anchors[i + 1] - anchors[i]);
}

} // verus!
