//! Placing a trip's timepoints on the dense stop path: each timepoint takes the
//! first stop with its station id at or after a cursor that moves past every
//! stop taken.

use vstd::prelude::*;

verus! {

/// The texts held by a sequence of strings.
pub open spec fn texts(v: Seq<String>) -> Seq<Seq<char>> {
    v.map_values(|s: String| s@)
}

/// The first position at or after `from` where `path` holds `station`.
pub open spec fn first_match_from(path: Seq<Seq<char>>, station: Seq<char>, from: int) -> Option<int>
    decreases path.len() - from,
{
    if 0 <= from < path.len() {
        if path[from] == station {
            Some(from)
        } else {
            first_match_from(path, station, from + 1)
        }
    } else {
        None
    }
}

/// The cursor once the first `n` timepoints of `stations` are placed on `path`:
/// one past the stop that the last matched timepoint took, 0 at the start.
pub open spec fn cursor_after(stations: Seq<Seq<char>>, path: Seq<Seq<char>>, n: int) -> int
    decreases n,
{
    if n <= 0 {
        0
    } else {
        let c = cursor_after(stations, path, n - 1);
        match first_match_from(path, stations[n - 1], c) {
            Some(k) => k + 1,
            None => c,
        }
    }
}

/// Timepoint `i` finds no stop of its station at or after the cursor.
pub open spec fn is_unmatched(stations: Seq<Seq<char>>, path: Seq<Seq<char>>, i: int) -> bool {
    first_match_from(path, stations[i], cursor_after(stations, path, i)) is None
}

/// The path position of timepoint `i`: the stop it matches, or the cursor itself
/// when it matches none.
pub open spec fn anchor(stations: Seq<Seq<char>>, path: Seq<Seq<char>>, i: int) -> int {
    let c = cursor_after(stations, path, i);
    match first_match_from(path, stations[i], c) {
        Some(k) => k,
        None => c,
    }
}

/// The positions of all timepoints of `stations` on `path`.
pub open spec fn anchors_of(stations: Seq<Seq<char>>, path: Seq<Seq<char>>) -> Seq<usize> {
    Seq::new(stations.len(), |i: int| anchor(stations, path, i) as usize)
}

/// The unmatched timepoints among the first `n`, in order, each with the
/// cursor at which its search began.
pub open spec fn unmatched_upto(stations: Seq<Seq<char>>, path: Seq<Seq<char>>, n: int) -> Seq<(int, int)>
    decreases n,
{
    if n <= 0 {
        seq![]
    } else {
        let before = unmatched_upto(stations, path, n - 1);
        if is_unmatched(stations, path, n - 1) {
            before.push((n - 1, cursor_after(stations, path, n - 1)))
        } else {
            before
        }
    }
}

/// A timepoint whose station was not found on the path at or after `cursor`.
#[derive(Debug)]
pub struct AlignmentError {
    /// Position of the timepoint within its trip.
    pub timepoint: usize,
    /// Its station id.
    pub station: String,
    /// Path position where the search began.
    pub cursor: usize,
}

/// The path positions of a trip's timepoints, with one error for each timepoint
/// that was not found.
pub struct Alignment {
    pub anchors: Vec<usize>,
    pub errors: Vec<AlignmentError>,
}

/// `errors` reports exactly the unmatched timepoints of `stations` on `path`, in order.
pub open spec fn reports_unmatched(errors: Seq<AlignmentError>, stations: Seq<Seq<char>>, path: Seq<Seq<char>>) -> bool {
    let expected = unmatched_upto(stations, path, stations.len() as int);
    &&& errors.len() == expected.len()
    &&& forall|q: int|
        0 <= q < errors.len() ==> {
            let e = #[trigger] errors[q];
            &&& e.timepoint == expected[q].0
            &&& e.cursor == expected[q].1
            &&& e.station@ == stations[expected[q].0]
        }
}

proof fn lemma_first_match_bounds(path: Seq<Seq<char>>, station: Seq<char>, from: int)
    requires
        0 <= from,
    ensures
        first_match_from(path, station, from) matches Some(k) ==> from <= k < path.len() && path[k] == station,
    decreases path.len() - from,
{
    if 0 <= from < path.len() && path[from] != station {
        lemma_first_match_bounds(path, station, from + 1);
    }
}

proof fn lemma_cursor_bounds(stations: Seq<Seq<char>>, path: Seq<Seq<char>>, n: int)
    requires
        0 <= n <= stations.len(),
    ensures
        0 <= cursor_after(stations, path, n) <= path.len(),
    decreases n,
{
    if n > 0 {
        lemma_cursor_bounds(stations, path, n - 1);
        lemma_first_match_bounds(path, stations[n - 1], cursor_after(stations, path, n - 1));
    }
}

/// The first position at or after `from` where `path` holds `station`.
fn find_from(path: &Vec<String>, station: &String, from: usize) -> (r: Option<usize>)
    requires
        from <= path.len(),
    ensures
        match r {
            Some(k) => first_match_from(texts(path@), station@, from as int) == Some(k as int),
            None => first_match_from(texts(path@), station@, from as int) is None,
        },
{
    let ghost pv = texts(path@);
    let mut k: usize = from;
    while k < path.len()
        invariant
            from <= k <= path.len(),
            pv == texts(path@),
            first_match_from(pv, station@, from as int) == first_match_from(pv, station@, k as int),
        decreases path.len() - k,
    {
        if path[k] == *station {
            return Some(k);
        }
        k = k + 1;
    }
    None
}

/// Places each timepoint of `stations`, in order, on the first stop of `path`
/// with its station id at or after the cursor, then moves the cursor one past
/// that stop. A timepoint that finds none is placed at the cursor, which stays,
/// and is reported.
pub fn align(stations: &Vec<String>, path: &Vec<String>) -> (r: Alignment)
    ensures
        r.anchors@ == anchors_of(texts(stations@), texts(path@)),
        reports_unmatched(r.errors@, texts(stations@), texts(path@)),
{
    let ghost sv = texts(stations@);
    let ghost pv = texts(path@);
    let mut anchors: Vec<usize> = Vec::new();
    let mut errors: Vec<AlignmentError> = Vec::new();
    let mut cursor: usize = 0;
    let mut i: usize = 0;
    while i < stations.len()
        invariant
            i <= stations.len(),
            sv == texts(stations@),
            pv == texts(path@),
            cursor == cursor_after(sv, pv, i as int),
            cursor <= path.len(),
            anchors.len() == i,
            forall|j: int| 0 <= j < i ==> #[trigger] anchors@[j] == anchor(sv, pv, j),
            errors.len() == unmatched_upto(sv, pv, i as int).len(),
            forall|q: int|
                0 <= q < errors.len() ==> {
                    let e = #[trigger] errors@[q];
                    let expected = unmatched_upto(sv, pv, i as int);
                    &&& e.timepoint == expected[q].0
                    &&& e.cursor == expected[q].1
                    &&& 0 <= expected[q].0 < i
                    &&& e.station@ == sv[expected[q].0]
                },
        decreases stations.len() - i,
    {
        let ghost before = unmatched_upto(sv, pv, i as int);
        proof {
            lemma_first_match_bounds(pv, sv[i as int], cursor as int);
        }
        match find_from(path, &stations[i], cursor) {
            Some(k) => {
                anchors.push(k);
                cursor = k + 1;
            },
            None => {
                errors.push(AlignmentError { timepoint: i, station: stations[i].clone(), cursor });
                anchors.push(cursor);
            },
        }
        assert(unmatched_upto(sv, pv, i + 1).subrange(0, before.len() as int) == before);
        i = i + 1;
    }
    assert(anchors@ =~= anchors_of(sv, pv));
    Alignment { anchors, errors }
}

proof fn lemma_anchor_step(stations: Seq<Seq<char>>, path: Seq<Seq<char>>, i: int)
    requires
        0 <= i < stations.len(),
    ensures
        cursor_after(stations, path, i) <= anchor(stations, path, i) <= cursor_after(stations, path, i + 1),
        !is_unmatched(stations, path, i) ==> anchor(stations, path, i) < cursor_after(stations, path, i + 1),
        !is_unmatched(stations, path, i) ==> anchor(stations, path, i) < path.len(),
{
    lemma_cursor_bounds(stations, path, i);
    lemma_first_match_bounds(path, stations[i], cursor_after(stations, path, i));
}

proof fn lemma_cursor_monotone(stations: Seq<Seq<char>>, path: Seq<Seq<char>>, i: int, j: int)
    requires
        0 <= i <= j <= stations.len(),
    ensures
        cursor_after(stations, path, i) <= cursor_after(stations, path, j),
    decreases j - i,
{
    if i < j {
        lemma_cursor_monotone(stations, path, i, j - 1);
        lemma_anchor_step(stations, path, j - 1);
    }
}

/// Anchors never decrease along a trip and never lie past the end of the path.
pub proof fn lemma_anchors_non_decreasing(stations: Seq<Seq<char>>, path: Seq<Seq<char>>)
    requires
        path.len() <= usize::MAX,
    ensures
        forall|i: int, j: int|
            0 <= i <= j < stations.len() ==> #[trigger] anchors_of(stations, path)[i] <= #[trigger] anchors_of(
                stations,
                path,
            )[j],
        forall|i: int| 0 <= i < stations.len() ==> #[trigger] anchors_of(stations, path)[i] <= path.len(),
{
    assert forall|i: int| 0 <= i < stations.len() implies #[trigger] anchors_of(stations, path)[i]
        <= path.len() && anchors_of(stations, path)[i] == anchor(stations, path, i) by {
        lemma_anchor_step(stations, path, i);
        lemma_cursor_bounds(stations, path, i + 1);
    }
    assert forall|i: int, j: int| 0 <= i <= j < stations.len() implies #[trigger] anchors_of(stations, path)[i]
        <= #[trigger] anchors_of(stations, path)[j] by {
        lemma_anchor_step(stations, path, i);
        lemma_anchor_step(stations, path, j);
        lemma_cursor_bounds(stations, path, i + 1);
        lemma_cursor_bounds(stations, path, j + 1);
        if i < j {
            lemma_cursor_monotone(stations, path, i + 1, j);
        }
    }
}

/// When every timepoint of a trip finds its station on the path, the anchors
/// strictly increase: a station that occurs twice on the path is taken first at
/// its earlier occurrence, and a later timepoint only after it.
pub proof fn lemma_anchors_increase(stations: Seq<Seq<char>>, path: Seq<Seq<char>>)
    requires
        path.len() <= usize::MAX,
        forall|i: int| 0 <= i < stations.len() ==> !#[trigger] is_unmatched(stations, path, i),
    ensures
        forall|i: int, j: int|
            0 <= i < j < stations.len() ==> #[trigger] anchors_of(stations, path)[i] < #[trigger] anchors_of(
                stations,
                path,
            )[j],
{
    assert forall|i: int, j: int| 0 <= i < j < stations.len() implies #[trigger] anchors_of(stations, path)[i]
        < #[trigger] anchors_of(stations, path)[j] by {
        assert(!is_unmatched(stations, path, i));
        lemma_anchor_step(stations, path, i);
        lemma_anchor_step(stations, path, j);
        lemma_cursor_bounds(stations, path, i + 1);
        lemma_cursor_bounds(stations, path, j + 1);
        lemma_cursor_monotone(stations, path, i + 1, j);
    }
}

proof fn lemma_unmatched_upto_entries(stations: Seq<Seq<char>>, path: Seq<Seq<char>>, n: int)
    requires
        0 <= n <= stations.len(),
    ensures
        forall|q: int|
            0 <= q < unmatched_upto(stations, path, n).len() ==> {
                let e = #[trigger] unmatched_upto(stations, path, n)[q];
                &&& 0 <= e.0 < n
                &&& is_unmatched(stations, path, e.0)
                &&& e.1 == cursor_after(stations, path, e.0)
            },
        forall|q1: int, q2: int|
            0 <= q1 < q2 < unmatched_upto(stations, path, n).len() ==> (#[trigger] unmatched_upto(
                stations,
                path,
                n,
            )[q1]).0 < (#[trigger] unmatched_upto(stations, path, n)[q2]).0,
        forall|i: int|
            0 <= i < n && #[trigger] is_unmatched(stations, path, i) ==> exists|q: int|
                0 <= q < unmatched_upto(stations, path, n).len() && (#[trigger] unmatched_upto(
                    stations,
                    path,
                    n,
                )[q]).0 == i,
    decreases n,
{
    if n > 0 {
        lemma_unmatched_upto_entries(stations, path, n - 1);
        let before = unmatched_upto(stations, path, n - 1);
        let now = unmatched_upto(stations, path, n);
        assert forall|i: int| 0 <= i < n && #[trigger] is_unmatched(stations, path, i) implies exists|q: int|
            0 <= q < now.len() && (#[trigger] now[q]).0 == i by {
            if i < n - 1 {
                let q = choose|q: int| 0 <= q < before.len() && (#[trigger] before[q]).0 == i;
                assert(now[q] == before[q]);
            } else {
                assert(now[before.len() as int].0 == i);
            }
        }
    }
}

/// Each timepoint that finds no stop of its station is reported exactly once,
/// with the cursor at which its search began.
pub proof fn lemma_unmatched_reported_once(
    errors: Seq<AlignmentError>,
    stations: Seq<Seq<char>>,
    path: Seq<Seq<char>>,
    i: int,
)
    requires
        reports_unmatched(errors, stations, path),
        0 <= i < stations.len(),
        is_unmatched(stations, path, i),
    ensures
        exists|q: int| 0 <= q < errors.len() && (#[trigger] errors[q]).timepoint == i,
        forall|q: int|
            0 <= q < errors.len() && (#[trigger] errors[q]).timepoint == i ==> {
                &&& errors[q].cursor == cursor_after(stations, path, i)
                &&& errors[q].station@ == stations[i]
                &&& forall|q2: int| 0 <= q2 < errors.len() && #[trigger] errors[q2].timepoint == i ==> q2 == q
            },
{
    let n = stations.len() as int;
    lemma_unmatched_upto_entries(stations, path, n);
    let expected = unmatched_upto(stations, path, n);
    let q = choose|q: int| 0 <= q < expected.len() && (#[trigger] expected[q]).0 == i;
    assert(errors[q].timepoint == i);
    assert forall|q1: int| 0 <= q1 < errors.len() && (#[trigger] errors[q1]).timepoint == i implies {
        &&& errors[q1].cursor == cursor_after(stations, path, i)
        &&& errors[q1].station@ == stations[i]
        &&& forall|q2: int| 0 <= q2 < errors.len() && #[trigger] errors[q2].timepoint == i ==> q2 == q1
    } by {
        assert(expected[q1].0 == i);
        assert forall|q2: int| 0 <= q2 < errors.len() && #[trigger] errors[q2].timepoint == i implies q2 == q1 by {
            assert(expected[q2].0 == i);
            if q2 < q1 {
                assert(expected[q2].0 < expected[q1].0);
            } else if q1 < q2 {
                assert(expected[q1].0 < expected[q2].0);
            }
        }
    }
}

} // verus!
