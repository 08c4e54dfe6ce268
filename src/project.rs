//! One trip, end to end: its timepoints aligned on the dense path, a time for
//! every stop between its first and last anchors, and a headsign for each.

use crate::align::{
    align, anchors_of, cursor_after, is_unmatched, lemma_anchors_non_decreasing, lemma_unmatched_reported_once,
    reports_unmatched, texts, AlignmentError,
};
use crate::clock::{
    clock_text, format_time_of_day, hh_mm_ss_seconds, parse_time_of_day, parsed_time, SECONDS_PER_DAY,
};
use crate::data::{has_clock_times, times_non_decreasing, written_seconds, FormatError, TripInput};
use crate::headsign::{assign_headsign, ends_at_short_turn, headsign_at, Headsign, SHORT_TURN_STATION};
use crate::interpolate::{
    emitted_count, interpolate, lemma_stop_seconds_in_day, lemma_stop_seconds_monotone, stop_seconds, timed_stop,
};
use crate::text::{decimal, decimal_text};
use vstd::prelude::*;

verus! {

/// One row of the stop-time table: a stop of a trip with its time.
pub struct StopTimeRecord {
    pub trip_id: String,
    /// Position on the dense path plus one.
    pub sequence: usize,
    /// Station id, as the dense path writes it.
    pub station: String,
    /// Arrival and departure time, in seconds after midnight.
    pub seconds: u32,
    /// The same time as `HH:MM:SS`.
    pub time: String,
    pub headsign: Headsign,
    /// A scheduled timepoint rather than an interpolated stop.
    pub timepoint: bool,
}

/// The stop-time rows of one trip, and the timepoints that could not be placed.
pub struct TripProjection {
    pub records: Vec<StopTimeRecord>,
    pub errors: Vec<AlignmentError>,
}

/// Station ids of timepoints as the text that the dense path holds.
pub open spec fn station_ids(stations: Seq<u32>) -> Seq<Seq<char>> {
    stations.map_values(|s: u32| decimal(s as nat))
}

/// The path positions of a trip's timepoints.
pub open spec fn trip_anchors(stations: Seq<u32>, path: Seq<String>) -> Seq<usize> {
    anchors_of(station_ids(stations), texts(path))
}

/// `r` is the row for path position `p` of the trip `trip_id` whose timepoints
/// have these stations and times.
pub open spec fn is_record_at(
    r: StopTimeRecord,
    trip_id: Seq<char>,
    stations: Seq<u32>,
    times: Seq<u32>,
    path: Seq<String>,
    p: int,
) -> bool {
    let stop = timed_stop(trip_anchors(stations, path), times, p);
    &&& r.trip_id@ == trip_id
    &&& r.sequence == p + 1
    &&& r.station@ == path[p]@
    &&& r.seconds == stop.seconds
    &&& r.time@ == clock_text(stop.seconds as int)
    &&& r.timepoint == stop.timepoint
    &&& r.headsign == headsign_at(ends_at_short_turn(stations), p)
}

/// `r` is the projection of trip `trip_id`, whose timepoints have these stations
/// and times, onto `path`: a row for every path position from the first anchor
/// to the last (up to the end of the path), in order, and a report of every
/// timepoint that found no stop.
pub open spec fn is_projection(
    r: TripProjection,
    trip_id: Seq<char>,
    stations: Seq<u32>,
    times: Seq<u32>,
    path: Seq<String>,
) -> bool {
    let a = trip_anchors(stations, path);
    &&& r.records.len() == emitted_count(a, path.len() as int)
    &&& forall|q: int|
        0 <= q < r.records.len() ==> is_record_at(#[trigger] r.records@[q], trip_id, stations, times, path, a[0] + q)
    &&& reports_unmatched(r.errors@, station_ids(stations), texts(path))
}

/// Projects the trip `trip_id`, whose timepoints have stations `stations` and
/// times `times` (seconds after midnight), onto the dense path `path`.
pub fn project_timepoints(
    trip_id: &String,
    stations: &Vec<u32>,
    times: &Vec<u32>,
    path: &Vec<String>,
) -> (r: TripProjection)
    requires
        stations.len() == times.len(),
        forall|i: int| 0 <= i < times.len() ==> #[trigger] times@[i] < SECONDS_PER_DAY,
    ensures
        is_projection(r, trip_id@, stations@, times@, path@),
{
    let mut ids: Vec<String> = Vec::new();
    let mut i: usize = 0;
    while i < stations.len()
        invariant
            i <= stations.len(),
            ids.len() == i,
            forall|j: int| 0 <= j < i ==> (#[trigger] ids@[j])@ == decimal(stations@[j] as nat),
        decreases stations.len() - i,
    {
        ids.push(decimal_text(stations[i] as u64));
        i = i + 1;
    }
    assert(texts(ids@) =~= station_ids(stations@));
    let alignment = align(&ids, path);
    let ghost a = trip_anchors(stations@, path@);
    proof {
        assert(texts(path@).len() == path.len());
        lemma_anchors_non_decreasing(station_ids(stations@), texts(path@));
    }
    let timed = interpolate(&alignment.anchors, times, path.len());
    let short_turn = stations.len() > 0 && stations[stations.len() - 1] == SHORT_TURN_STATION;
    let mut records: Vec<StopTimeRecord> = Vec::new();
    let mut q: usize = 0;
    while q < timed.len()
        invariant
            q <= timed.len(),
            a == trip_anchors(stations@, path@),
            a == alignment.anchors@,
            a.len() == times.len(),
            times.len() == stations.len(),
            forall|x: int| 0 <= x < times.len() ==> #[trigger] times@[x] < SECONDS_PER_DAY,
            forall|x: int| 0 <= x < a.len() ==> #[trigger] a[x] <= path.len(),
            forall|x: int, y: int| 0 <= x <= y < a.len() ==> #[trigger] a[x] <= #[trigger] a[y],
            short_turn == ends_at_short_turn(stations@),
            timed.len() == emitted_count(a, path.len() as int),
            forall|x: int| 0 <= x < timed.len() ==> #[trigger] timed@[x] == timed_stop(a, times@, a[0] + x),
            records.len() == q,
            forall|x: int|
                0 <= x < q ==> is_record_at(#[trigger] records@[x], trip_id@, stations@, times@, path@, a[0] + x),
        decreases timed.len() - q,
    {
        let stop = timed[q];
        let ghost p = a[0] + q;
        proof {
            assert(a[a.len() - 1] == a.last());
            lemma_stop_seconds_in_day(a, times@, p);
        }
        let record = StopTimeRecord {
            trip_id: trip_id.clone(),
            sequence: stop.index + 1,
            station: path[stop.index].clone(),
            seconds: stop.seconds,
            time: format_time_of_day(stop.seconds),
            headsign: assign_headsign(short_turn, stop.index),
            timepoint: stop.timepoint,
        };
        assert(is_record_at(record, trip_id@, stations@, times@, path@, p));
        records.push(record);
        q = q + 1;
    }
    TripProjection { records, errors: alignment.errors }
}

/// Station ids of a trip's timepoints.
pub open spec fn trip_stations(trip: TripInput) -> Seq<u32> {
    trip.stops@.map_values(|s: (u32, Option<String>)| s.0)
}

/// The time of day that chrono reads (format `%H:%M:%S`) from the text of
/// timepoint `k` of `trip`; `None` when it has no text or chrono rejects it.
pub open spec fn stop_time_read(trip: TripInput, k: int) -> Option<int> {
    match trip.stops@[k].1 {
        Some(text) => parsed_time(text@, "%H:%M:%S"@),
        None => None,
    }
}

/// Timepoint `k` of `trip`, when its text is exactly `HH:MM:SS`, is read as the
/// time that text writes.
pub open spec fn reads_written_time(trip: TripInput, k: int) -> bool {
    match trip.stops@[k].1 {
        Some(text) => match hh_mm_ss_seconds(text@) {
            Some(v) => stop_time_read(trip, k) == Some(v),
            None => true,
        },
        None => true,
    }
}

/// Every timepoint of `trip` has a time that chrono reads.
pub open spec fn all_times_read(trip: TripInput) -> bool {
    forall|k: int| 0 <= k < trip.stops.len() ==> #[trigger] stop_time_read(trip, k) is Some
}

/// The times of day read from the timepoints of `trip`.
pub open spec fn times_read(trip: TripInput) -> Seq<u32> {
    Seq::new(trip.stops@.len(), |k: int| stop_time_read(trip, k).unwrap() as u32)
}

/// `r` is the projection of `trip` onto `path` for the times of day that its
/// timepoints' texts are read as.
pub open spec fn projects_trip(r: TripProjection, trip: TripInput, path: Seq<String>) -> bool {
    is_projection(r, trip.trip_id@, trip_stations(trip), times_read(trip), path)
}

/// Projects `trip` onto the dense path `path`, reading each timepoint's time as
/// `HH:MM:SS`; an error names the first timepoint without a readable time.
pub fn project_trip(trip: &TripInput, path: &Vec<String>) -> (r: Result<TripProjection, FormatError>)
    ensures
        r is Ok <==> all_times_read(*trip),
        has_clock_times(*trip) ==> r is Ok,
        r is Ok ==> forall|k: int| 0 <= k < trip.stops.len() ==> #[trigger] reads_written_time(*trip, k),
        r matches Ok(p) ==> projects_trip(p, *trip, path@),
        r matches Err(e) ==> e matches FormatError::StopTime { position } && position < trip.stops.len()
            && stop_time_read(*trip, position as int) is None,
{
    let mut stations: Vec<u32> = Vec::new();
    let mut times: Vec<u32> = Vec::new();
    let mut k: usize = 0;
    while k < trip.stops.len()
        invariant
            k <= trip.stops.len(),
            stations.len() == k,
            times.len() == k,
            forall|j: int| 0 <= j < k ==> #[trigger] stations@[j] == trip.stops@[j].0,
            forall|j: int|
                0 <= j < k ==> stop_time_read(*trip, j) == Some(#[trigger] times@[j] as int) && times@[j]
                    < SECONDS_PER_DAY && reads_written_time(*trip, j),
        decreases trip.stops.len() - k,
    {
        let seconds = match &trip.stops[k].1 {
            Some(text) => parse_time_of_day(text.as_str(), "%H:%M:%S"),
            None => None,
        };
        match seconds {
            Some(t) => {
                stations.push(trip.stops[k].0);
                times.push(t);
            },
            None => {
                proof {
                    if has_clock_times(*trip) {
                        assert(trip.stops@[k as int].1 is Some);
                    }
                }
                return Err(FormatError::StopTime { position: k });
            },
        }
        k = k + 1;
    }
    assert(stations@ =~= trip_stations(*trip));
    assert forall|j: int| 0 <= j < trip.stops.len() implies #[trigger] reads_written_time(*trip, j) by {
        assert(stop_time_read(*trip, j) == Some(times@[j] as int));
    }
    assert forall|j: int| 0 <= j < trip.stops.len() implies #[trigger] stop_time_read(*trip, j) is Some by {
        assert(stop_time_read(*trip, j) == Some(times@[j] as int));
    }
    assert(all_times_read(*trip));
    assert(times@ =~= times_read(*trip));
    Ok(project_timepoints(&trip.trip_id, &stations, &times, path))
}

/// Projects every trip of `trips` onto `path`, in order; the first trip with a
/// timepoint time that cannot be read fails the whole run.
pub fn project_all(trips: &Vec<TripInput>, path: &Vec<String>) -> (r: Result<Vec<TripProjection>, FormatError>)
    ensures
        r is Ok <==> forall|i: int| 0 <= i < trips.len() ==> all_times_read(#[trigger] trips@[i]),
        (forall|i: int| 0 <= i < trips.len() ==> has_clock_times(#[trigger] trips@[i])) ==> r is Ok,
        r matches Ok(out) ==> {
            &&& out.len() == trips.len()
            &&& forall|i: int| 0 <= i < trips.len() ==> projects_trip(#[trigger] out@[i], trips@[i], path@)
        },
        r matches Err(e) ==> e is StopTime,
{
    let mut out: Vec<TripProjection> = Vec::new();
    let mut i: usize = 0;
    while i < trips.len()
        invariant
            i <= trips.len(),
            out.len() == i,
            forall|j: int| 0 <= j < i ==> projects_trip(#[trigger] out@[j], trips@[j], path@),
            forall|j: int| 0 <= j < i ==> all_times_read(#[trigger] trips@[j]),
        decreases trips.len() - i,
    {
        match project_trip(&trips[i], path) {
            Ok(p) => {
                let ghost before = out@;
                out.push(p);
                assert forall|j: int| 0 <= j < i + 1 implies projects_trip(#[trigger] out@[j], trips@[j], path@) by {
                    if j < i {
                        assert(out@[j] == before[j]);
                    }
                }
            },
            Err(e) => {
                assert(!all_times_read(trips@[i as int]));
                assert(!has_clock_times(trips@[i as int]));
                return Err(e);
            },
        }
        i = i + 1;
    }
    Ok(out)
}

/// The rows of a projection carry consecutive sequence numbers.
pub proof fn lemma_sequence_consecutive(
    r: TripProjection,
    trip_id: Seq<char>,
    stations: Seq<u32>,
    times: Seq<u32>,
    path: Seq<String>,
)
    requires
        is_projection(r, trip_id, stations, times, path),
    ensures
        forall|q: int| 0 <= q < r.records.len() ==> #[trigger] r.records@[q].sequence == r.records@[0].sequence + q,
{
    assert forall|q: int| 0 <= q < r.records.len() implies #[trigger] r.records@[q].sequence == r.records@[0].sequence
        + q by {
        assert(is_record_at(r.records@[0], trip_id, stations, times, path, trip_anchors(stations, path)[0] + 0));
    }
}

/// When the dense path begins at the trip's first timepoint, the rows are
/// numbered 1, 2, 3, ... with no gap.
pub proof fn lemma_sequence_from_one(
    r: TripProjection,
    trip_id: Seq<char>,
    stations: Seq<u32>,
    times: Seq<u32>,
    path: Seq<String>,
)
    requires
        is_projection(r, trip_id, stations, times, path),
        path.len() <= usize::MAX,
        stations.len() >= 2,
        path.len() > 0,
        path[0]@ == decimal(stations[0] as nat),
    ensures
        r.records.len() > 0,
        forall|q: int| 0 <= q < r.records.len() ==> #[trigger] r.records@[q].sequence == q + 1,
{
    let ids = station_ids(stations);
    let pv = texts(path);
    assert(cursor_after(ids, pv, 0) == 0);
    assert(pv[0] == ids[0]);
    let a = trip_anchors(stations, path);
    assert(a[0] == 0);
    assert(a[a.len() - 1] == a.last());
    assert forall|q: int| 0 <= q < r.records.len() implies #[trigger] r.records@[q].sequence == q + 1 by {
        assert(is_record_at(r.records@[q], trip_id, stations, times, path, a[0] + q));
    }
}

/// Every path position from the first anchor through the last, up to the end of
/// the path, has exactly one row; in particular a segment of zero steps, whose
/// two anchors coincide, yields one row at that position, never two.
pub proof fn lemma_every_position_once(
    r: TripProjection,
    trip_id: Seq<char>,
    stations: Seq<u32>,
    times: Seq<u32>,
    path: Seq<String>,
    p: int,
)
    requires
        is_projection(r, trip_id, stations, times, path),
        path.len() <= usize::MAX,
        stations.len() >= 2,
        trip_anchors(stations, path)[0] <= p <= trip_anchors(stations, path).last(),
        p < path.len(),
    ensures
        exists|q: int| 0 <= q < r.records.len() && #[trigger] r.records@[q].sequence == p + 1,
        forall|q1: int, q2: int|
            0 <= q1 < r.records.len() && 0 <= q2 < r.records.len() && #[trigger] r.records@[q1].sequence == p + 1
                && #[trigger] r.records@[q2].sequence == p + 1 ==> q1 == q2,
{
    let a = trip_anchors(stations, path);
    let q = p - a[0];
    assert(a[a.len() - 1] == a.last());
    assert(is_record_at(r.records@[q], trip_id, stations, times, path, a[0] + q));
    assert forall|q1: int, q2: int|
        0 <= q1 < r.records.len() && 0 <= q2 < r.records.len() && #[trigger] r.records@[q1].sequence == p + 1
            && #[trigger] r.records@[q2].sequence == p + 1 implies q1 == q2 by {
        assert(is_record_at(r.records@[q1], trip_id, stations, times, path, a[0] + q1));
        assert(is_record_at(r.records@[q2], trip_id, stations, times, path, a[0] + q2));
    }
}

/// A segment of zero path steps, whose two anchors coincide, yields exactly one
/// row at that position.
pub proof fn lemma_zero_step_segment_once(
    r: TripProjection,
    trip_id: Seq<char>,
    stations: Seq<u32>,
    times: Seq<u32>,
    path: Seq<String>,
    i: int,
)
    requires
        is_projection(r, trip_id, stations, times, path),
        path.len() <= usize::MAX,
        0 <= i && i + 1 < stations.len(),
        trip_anchors(stations, path)[i] == trip_anchors(stations, path)[i + 1],
        trip_anchors(stations, path)[i] < path.len(),
    ensures
        exists|q: int| 0 <= q < r.records.len() && #[trigger] r.records@[q].sequence == trip_anchors(stations, path)[i] + 1,
        forall|q1: int, q2: int|
            0 <= q1 < r.records.len() && 0 <= q2 < r.records.len() && #[trigger] r.records@[q1].sequence
                == trip_anchors(stations, path)[i] + 1 && #[trigger] r.records@[q2].sequence == trip_anchors(
                stations,
                path,
            )[i] + 1 ==> q1 == q2,
{
    let a = trip_anchors(stations, path);
    lemma_anchors_non_decreasing(station_ids(stations), texts(path));
    assert(a[0] <= a[i]);
    assert(a[i] <= a[a.len() - 1]);
    lemma_every_position_once(r, trip_id, stations, times, path, a[i] as int);
}

/// Along a trip whose timepoint times never decrease (it does not run past
/// midnight), the rows' times never decrease as the sequence number grows.
pub proof fn lemma_times_non_decreasing(
    r: TripProjection,
    trip_id: Seq<char>,
    stations: Seq<u32>,
    times: Seq<u32>,
    path: Seq<String>,
)
    requires
        is_projection(r, trip_id, stations, times, path),
        path.len() <= usize::MAX,
        stations.len() == times.len(),
        forall|x: int| 0 <= x < times.len() ==> #[trigger] times[x] < SECONDS_PER_DAY,
        forall|x: int, y: int| 0 <= x <= y < times.len() ==> #[trigger] times[x] <= #[trigger] times[y],
    ensures
        forall|q1: int, q2: int|
            0 <= q1 <= q2 < r.records.len() ==> #[trigger] r.records@[q1].seconds <= #[trigger] r.records@[q2].seconds,
{
    let a = trip_anchors(stations, path);
    lemma_anchors_non_decreasing(station_ids(stations), texts(path));
    assert forall|q1: int, q2: int| 0 <= q1 <= q2 < r.records.len() implies #[trigger] r.records@[q1].seconds
        <= #[trigger] r.records@[q2].seconds by {
        assert(a[a.len() - 1] == a.last());
        let p1 = a[0] + q1;
        let p2 = a[0] + q2;
        assert(is_record_at(r.records@[q1], trip_id, stations, times, path, p1));
        assert(is_record_at(r.records@[q2], trip_id, stations, times, path, p2));
        lemma_stop_seconds_in_day(a, times, p1);
        lemma_stop_seconds_in_day(a, times, p2);
        lemma_stop_seconds_monotone(a, times, p1, p2);
    }
}

/// A timepoint whose station is not on the path at or after the cursor does not
/// stop the trip: it is reported exactly once, with the cursor where its search
/// began, and the trip still has one row for every path position from its first
/// anchor through its last (up to the end of the path).
pub proof fn lemma_unmatched_timepoint(
    r: TripProjection,
    trip_id: Seq<char>,
    stations: Seq<u32>,
    times: Seq<u32>,
    path: Seq<String>,
    i: int,
)
    requires
        is_projection(r, trip_id, stations, times, path),
        path.len() <= usize::MAX,
        0 <= i < stations.len(),
        is_unmatched(station_ids(stations), texts(path), i),
    ensures
        exists|e: int| 0 <= e < r.errors.len() && (#[trigger] r.errors@[e]).timepoint == i,
        forall|e: int|
            0 <= e < r.errors.len() && (#[trigger] r.errors@[e]).timepoint == i ==> {
                &&& r.errors@[e].cursor == cursor_after(station_ids(stations), texts(path), i)
                &&& forall|e2: int| 0 <= e2 < r.errors.len() && #[trigger] r.errors@[e2].timepoint == i ==> e2 == e
            },
        r.records.len() == emitted_count(trip_anchors(stations, path), path.len() as int),
        forall|q: int|
            0 <= q < r.records.len() ==> #[trigger] r.records@[q].sequence == trip_anchors(stations, path)[0] + q + 1,
{
    lemma_unmatched_reported_once(r.errors@, station_ids(stations), texts(path), i);
    assert forall|q: int| 0 <= q < r.records.len() implies #[trigger] r.records@[q].sequence == trip_anchors(
        stations,
        path,
    )[0] + q + 1 by {
        assert(is_record_at(r.records@[q], trip_id, stations, times, path, trip_anchors(stations, path)[0] + q));
    }
}

/// The rows projected from a trip whose timepoint times never decrease, as those
/// of every trip of the built-in timetable, have times that never decrease.
pub proof fn lemma_trip_records_non_decreasing(r: TripProjection, trip: TripInput, path: Seq<String>)
    requires
        projects_trip(r, trip, path),
        path.len() <= usize::MAX,
        has_clock_times(trip),
        times_non_decreasing(trip),
        forall|k: int| 0 <= k < trip.stops.len() ==> #[trigger] reads_written_time(trip, k),
    ensures
        forall|q1: int, q2: int|
            0 <= q1 <= q2 < r.records.len() ==> #[trigger] r.records@[q1].seconds <= #[trigger] r.records@[q2].seconds,
{
    let times = times_read(trip);
    assert forall|k: int| 0 <= k < times.len() implies #[trigger] times[k] == written_seconds(trip, k) by {
        assert(reads_written_time(trip, k));
        assert(trip.stops@[k].1 matches Some(text) && hh_mm_ss_seconds(text@) is Some);
        assert(0 <= written_seconds(trip, k) < SECONDS_PER_DAY);
    }
    assert forall|x: int, y: int| 0 <= x <= y < times.len() implies #[trigger] times[x] <= #[trigger] times[y] by {
        assert(written_seconds(trip, x) <= written_seconds(trip, y));
    }
    assert forall|x: int| 0 <= x < times.len() implies #[trigger] times[x] < SECONDS_PER_DAY by {
        assert(0 <= written_seconds(trip, x) < SECONDS_PER_DAY);
    }
    assert(trip_stations(trip).len() == times.len());
    lemma_times_non_decreasing(r, trip.trip_id@, trip_stations(trip), times, path);
}

} // verus!
