//! The compact schedule: trip patterns, the control-point table, and the
//! expansion of compact trips into timed control points.

use crate::clock::{
    clock_text, format_time_of_day, hh_mm_seconds, hh_mm_ss_seconds, lemma_clock_text_round_trip, parsed_time,
    parse_time_of_day, SECONDS_PER_DAY,
};
use crate::text::{lower_of, lowercase, trip_label, trip_label_text};
use vstd::prelude::*;

verus! {

/// Which part of the loop a trip runs.
#[derive(Clone, Copy, Debug, PartialEq, Eq, Structural)]
pub enum Pattern {
    /// To Sand Canyon, then back to Dock 4 (control points 0 to 7).
    Full,
    /// To Yale/Irvine, where the bus turns back (control points 0 to 4).
    ShortYale,
    /// From Yale/Irvine to Dock 4, entering service mid-loop (control points 4 to 7).
    StartYale,
}

impl Pattern {
    /// First control point that a trip of this pattern serves.
    pub open spec fn first_index(self) -> int {
        match self {
            Pattern::Full => 0,
            Pattern::ShortYale => 0,
            Pattern::StartYale => 4,
        }
    }

    /// Last control point that a trip of this pattern serves.
    pub open spec fn last_index(self) -> int {
        match self {
            Pattern::Full => 7,
            Pattern::ShortYale => 4,
            Pattern::StartYale => 7,
        }
    }

    /// The inclusive range of control points that the pattern serves.
    pub fn range(&self) -> (r: (usize, usize))
        ensures
            r.0 == self.first_index(),
            r.1 == self.last_index(),
    {
        match self {
            Pattern::Full => (0, 7),
            Pattern::ShortYale => (0, 4),
            Pattern::StartYale => (4, 7),
        }
    }
}

/// Number of entries of the control-point table; the last closes the loop.
pub const CONTROL_POINTS: usize = 8;

/// Stop id of each distinct timepoint station of the loop.
pub open spec fn timepoint_station(i: int) -> u32 {
    if i == 0 {
        157583  // Dock 4
    } else if i == 1 {
        157593  // Alton/Hoag
    } else if i == 2 {
        157601  // Lake/Barranca
    } else if i == 3 {
        198349  // Yale/Bryan
    } else if i == 4 {
        157625  // Yale/Irvine
    } else if i == 5 {
        157667  // Yale/Deerfield
    } else {
        157641  // Sand Canyon/Hoag
    }
}

/// Stop id of control point `i`; the loop-closing point is the first station again.
pub open spec fn control_station(i: int) -> u32 {
    if i == 7 {
        timepoint_station(0)
    } else {
        timepoint_station(i)
    }
}

/// Scheduled minutes of control point `i` after control point 0.
pub open spec fn control_offset(i: int) -> int {
    if i == 0 {
        0  // Dock 4
    } else if i == 1 {
        15  // Alton/Hoag
    } else if i == 2 {
        30  // Lake/Barranca
    } else if i == 3 {
        45  // Yale/Bryan
    } else if i == 4 {
        65  // Yale/Irvine
    } else if i == 5 {
        75  // Yale/Deerfield
    } else if i == 6 {
        95  // Sand Canyon/Hoag
    } else {
        110  // Dock 4 (return, estimated 15 minutes from Sand Canyon)
    }
}

fn timepoint_station_at(i: usize) -> (r: u32)
    requires
        i < 7,
    ensures
        r == timepoint_station(i as int),
{
    match i {
        0 => 157583,
        1 => 157593,
        2 => 157601,
        3 => 198349,
        4 => 157625,
        5 => 157667,
        _ => 157641,
    }
}

/// Stop id of control point `i`.
pub fn control_station_at(i: usize) -> (r: u32)
    requires
        i < CONTROL_POINTS,
    ensures
        r == control_station(i as int),
{
    if i == 7 {
        timepoint_station_at(0)
    } else {
        timepoint_station_at(i)
    }
}

/// Minutes of control point `i` after control point 0.
pub fn control_offset_at(i: usize) -> (r: u32)
    requires
        i < CONTROL_POINTS,
    ensures
        r == control_offset(i as int),
{
    match i {
        0 => 0,
        1 => 15,
        2 => 30,
        3 => 45,
        4 => 65,
        5 => 75,
        6 => 95,
        _ => 110,
    }
}

/// A scheduled station and its time of day in seconds after midnight.
#[derive(Clone, Copy, Debug, PartialEq, Eq, Structural)]
pub struct ProjectedTimepoint {
    pub station: u32,
    pub seconds: u32,
}

/// Number of timepoints of a trip of `pattern`.
pub open spec fn timepoint_count(pattern: Pattern) -> int {
    pattern.last_index() - pattern.first_index() + 1
}

/// Time of control point `i` for a trip of `pattern` leaving its first control
/// point at `start`: offsets count from the pattern's own first control point, and
/// the clock wraps at midnight.
pub open spec fn control_time(start: int, pattern: Pattern, i: int) -> int {
    (start + 60 * (control_offset(i) - control_offset(pattern.first_index()))) % (SECONDS_PER_DAY as int)
}

/// The `k`-th timepoint of a trip of `pattern` that starts at `start`.
pub open spec fn projected(start: int, pattern: Pattern, k: int) -> ProjectedTimepoint {
    let i = pattern.first_index() + k;
    ProjectedTimepoint { station: control_station(i), seconds: control_time(start, pattern, i) as u32 }
}

/// The timepoints of a trip of `pattern` that starts at `start` (seconds after
/// midnight), one for each control point of the pattern, in order.
pub fn expand_pattern(start: u32, pattern: Pattern) -> (r: Vec<ProjectedTimepoint>)
    requires
        start < SECONDS_PER_DAY,
    ensures
        r.len() == timepoint_count(pattern),
        forall|k: int| 0 <= k < r.len() ==> #[trigger] r[k] == projected(start as int, pattern, k),
{
    let (lo, hi) = pattern.range();
    let base = control_offset_at(lo);
    let mut out: Vec<ProjectedTimepoint> = Vec::new();
    let mut idx: usize = lo;
    while idx <= hi
        invariant
            lo == pattern.first_index(),
            hi == pattern.last_index(),
            lo <= idx <= hi + 1,
            start < SECONDS_PER_DAY,
            base == control_offset(lo as int),
            out.len() == idx - lo,
            forall|k: int| 0 <= k < out.len() ==> #[trigger] out[k] == projected(start as int, pattern, k),
        decreases hi + 1 - idx,
    {
        let offset = control_offset_at(idx);
        let relative = offset - base;
        let seconds = (start + 60 * relative) % SECONDS_PER_DAY;
        out.push(ProjectedTimepoint { station: control_station_at(idx), seconds });
        idx = idx + 1;
    }
    out
}

/// One line of the compact timetable: a bus, its block, the time it leaves
/// its first control point (`HH:MM`) and the pattern it runs.
pub struct RawTrip {
    pub bus_id: u32,
    pub block_id: &'static str,
    pub start_time: &'static str,
    pub pattern: Pattern,
}

/// A trip with its timed control points: `stops` holds, in order, each control
/// point's stop id and its time as `HH:MM:SS`.
pub struct TripInput {
    pub trip_id: String,
    pub service_id: &'static str,
    pub block_id: &'static str,
    pub stops: Vec<(u32, Option<String>)>,
}

/// Schedule data that is not a valid time of day.
#[derive(Debug)]
pub enum FormatError {
    /// A compact trip's start time does not parse as `HH:MM`.
    StartTime { text: &'static str },
    /// The control point at `position` of a trip has no time, or one that does not
    /// parse as `HH:MM:SS`.
    StopTime { position: usize },
}

/// `t` is the trip that `raw` becomes as the `ordinal`-th trip of service
/// `service_id` (whose lower-case text is `service_lower`) when it starts at `start`.
pub open spec fn expands_to(
    t: TripInput,
    service_lower: Seq<char>,
    ordinal: int,
    service_id: &'static str,
    raw: RawTrip,
    start: int,
) -> bool {
    &&& t.trip_id@ == trip_label_text(service_lower, raw.bus_id as nat, ordinal as nat)
    &&& t.service_id == service_id
    &&& t.block_id == raw.block_id
    &&& t.stops.len() == timepoint_count(raw.pattern)
    &&& forall|k: int|
        0 <= k < t.stops.len() ==> {
            let p = projected(start, raw.pattern, k);
            &&& (#[trigger] t.stops@[k]).0 == p.station
            &&& t.stops@[k].1 matches Some(text) && text@ == clock_text(p.seconds as int)
        }
}

/// The start time of `raw` as chrono reads it with format `%H:%M`.
pub open spec fn start_seconds(raw: RawTrip) -> Option<int> {
    parsed_time(raw.start_time@, "%H:%M"@)
}

/// `t` is what `raw` becomes, starting at the time its start text is read as.
pub open spec fn expanded_from(
    t: TripInput,
    service_lower: Seq<char>,
    ordinal: int,
    service_id: &'static str,
    raw: RawTrip,
) -> bool {
    start_seconds(raw) matches Some(start) && expands_to(t, service_lower, ordinal, service_id, raw, start)
}

/// `t` serves the control points of `pattern`, in order.
pub open spec fn serves_pattern(t: TripInput, pattern: Pattern) -> bool {
    &&& t.stops.len() == timepoint_count(pattern)
    &&& forall|k: int|
        0 <= k < t.stops.len() ==> (#[trigger] t.stops@[k]).0 == control_station(pattern.first_index() + k)
}

/// `t` serves the control points of some pattern, each with an `HH:MM:SS` time.
pub open spec fn is_compact_trip(t: TripInput) -> bool {
    &&& has_clock_times(t)
    &&& exists|pattern: Pattern| #[trigger] serves_pattern(t, pattern)
}

/// Every control point of `t` carries a time written exactly as `HH:MM:SS`.
pub open spec fn has_clock_times(t: TripInput) -> bool {
    forall|k: int|
        0 <= k < t.stops.len() ==> ((#[trigger] t.stops@[k]).1 matches Some(text) && hh_mm_ss_seconds(text@) is Some)
}

/// The trip that `raw` becomes as the `ordinal`-th trip of service `service_id`,
/// whose lower-case text is `service_lower`, when it starts at `start`.
pub fn expand_trip_at(
    service_lower: &str,
    ordinal: usize,
    service_id: &'static str,
    raw: &RawTrip,
    start: u32,
) -> (r: TripInput)
    requires
        start < SECONDS_PER_DAY,
    ensures
        expands_to(r, service_lower@, ordinal as int, service_id, *raw, start as int),
        is_compact_trip(r),
{
    let timepoints = expand_pattern(start, raw.pattern);
    let mut stops: Vec<(u32, Option<String>)> = Vec::new();
    let mut k: usize = 0;
    while k < timepoints.len()
        invariant
            k <= timepoints.len(),
            timepoints.len() == timepoint_count(raw.pattern),
            forall|j: int| 0 <= j < timepoints.len() ==> #[trigger] timepoints[j] == projected(start as int, raw.pattern, j),
            stops.len() == k,
            forall|j: int|
                0 <= j < k ==> {
                    let p = projected(start as int, raw.pattern, j);
                    &&& (#[trigger] stops@[j]).0 == p.station
                    &&& stops@[j].1 matches Some(text) && text@ == clock_text(p.seconds as int)
                        && hh_mm_ss_seconds(text@) is Some
                },
        decreases timepoints.len() - k,
    {
        let tp = timepoints[k];
        let text = format_time_of_day(tp.seconds);
        proof {
            lemma_clock_text_round_trip(tp.seconds as int);
        }
        stops.push((tp.station, Some(text)));
        k = k + 1;
    }
    let r = TripInput {
        trip_id: trip_label(service_lower, raw.bus_id, ordinal),
        service_id,
        block_id: raw.block_id,
        stops,
    };
    assert(serves_pattern(r, raw.pattern));
    r
}

/// The trip that `raw` becomes as the `ordinal`-th trip of service `service_id`,
/// whose lower-case text is `service_lower`; an error when its start time is not
/// a time of day.
pub fn expand_trip(
    service_lower: &str,
    ordinal: usize,
    service_id: &'static str,
    raw: &RawTrip,
) -> (r: Result<TripInput, FormatError>)
    ensures
        r is Ok <==> start_seconds(*raw) is Some,
        hh_mm_seconds(raw.start_time@) matches Some(v) ==> start_seconds(*raw) == Some(v),
        r matches Ok(t) ==> expanded_from(t, service_lower@, ordinal as int, service_id, *raw)
            && is_compact_trip(t),
        r matches Err(e) ==> e == (FormatError::StartTime { text: raw.start_time }),
{
    match parse_time_of_day(raw.start_time, "%H:%M") {
        Some(start) => {
            let t = expand_trip_at(service_lower, ordinal, service_id, raw, start);
            assert(expands_to(t, service_lower@, ordinal as int, service_id, *raw, start as int));
            Ok(t)
        },
        None => Err(FormatError::StartTime { text: raw.start_time }),
    }
}

/// Every trip of `raws` has a start time written exactly as `HH:MM`.
pub open spec fn all_clock_starts(raws: Seq<RawTrip>) -> bool {
    forall|i: int| 0 <= i < raws.len() ==> hh_mm_seconds((#[trigger] raws[i]).start_time@) is Some
}

/// Every trip of `raws` has a start time that chrono reads.
pub open spec fn all_starts_read(raws: Seq<RawTrip>) -> bool {
    forall|i: int| 0 <= i < raws.len() ==> start_seconds(#[trigger] raws[i]) is Some
}

/// Appends to `trips` the expansion of each of `raw_trips` in order, the `i`-th
/// (from 1) labelled `<service_id in lower case>_<bus>_<i>`. A start time that is
/// not a time of day fails the whole call and leaves `trips` as it was.
pub fn process_trips(
    trips: &mut Vec<TripInput>,
    raw_trips: Vec<RawTrip>,
    service_id: &'static str,
) -> (r: Result<(), FormatError>)
    ensures
        r is Ok <==> all_starts_read(raw_trips@),
        all_clock_starts(raw_trips@) ==> r is Ok,
        r is Ok ==> {
            &&& final(trips).len() == old(trips).len() + raw_trips.len()
            &&& forall|i: int| 0 <= i < old(trips).len() ==> #[trigger] final(trips)@[i] == old(trips)@[i]
            &&& forall|i: int|
                0 <= i < raw_trips.len() ==> {
                    let t = #[trigger] final(trips)@[old(trips).len() + i];
                    &&& expanded_from(t, lower_of(service_id@), i + 1, service_id, raw_trips@[i])
                    &&& is_compact_trip(t)
                    &&& hh_mm_seconds(raw_trips@[i].start_time@) matches Some(v) ==> start_seconds(raw_trips@[i])
                        == Some(v)
                }
        },
        r matches Err(e) ==> {
            &&& final(trips)@ == old(trips)@
            &&& exists|i: int|
                0 <= i < raw_trips.len() && e == (FormatError::StartTime { text: #[trigger] raw_trips@[i].start_time })
                    && start_seconds(raw_trips@[i]) is None
        },
{
    let lower = lowercase(service_id);
    let mut made: Vec<TripInput> = Vec::new();
    let mut i: usize = 0;
    while i < raw_trips.len()
        invariant
            i <= raw_trips.len(),
            lower@ == lower_of(service_id@),
            made.len() == i,
            forall|j: int|
                0 <= j < i ==> {
                    let t = #[trigger] made@[j];
                    &&& expanded_from(t, lower_of(service_id@), j + 1, service_id, raw_trips@[j])
                    &&& is_compact_trip(t)
                    &&& start_seconds(raw_trips@[j]) is Some
                    &&& hh_mm_seconds(raw_trips@[j].start_time@) matches Some(v) ==> start_seconds(raw_trips@[j])
                        == Some(v)
                },
        decreases raw_trips.len() - i,
    {
        match expand_trip(lower.as_str(), i + 1, service_id, &raw_trips[i]) {
            Ok(t) => made.push(t),
            Err(e) => {
                assert(e == (FormatError::StartTime { text: raw_trips@[i as int].start_time }));
                assert(!all_starts_read(raw_trips@)) by {
                    assert(start_seconds(raw_trips@[i as int]) is None);
                }
                assert(!all_clock_starts(raw_trips@)) by {
                    if all_clock_starts(raw_trips@) {
                        assert(hh_mm_seconds(raw_trips@[i as int].start_time@) is Some);
                    }
                }
                return Err(e);
            },
        }
        i = i + 1;
    }
    let ghost before = trips@;
    let ghost added = made@;
    trips.append(&mut made);
    assert forall|j: int| 0 <= j < raw_trips.len() implies #[trigger] trips@[before.len() + j] == added[j] by {}
    assert(all_starts_read(raw_trips@)) by {
        assert forall|j: int| 0 <= j < raw_trips.len() implies start_seconds(#[trigger] raw_trips@[j]) is Some by {
            let t = added[j];
        }
    }
    Ok(())
}

/// The weekday (Monday to Friday) compact timetable, bus by bus.
pub open spec fn weekday_table() -> Seq<RawTrip> {
    seq![
        RawTrip { bus_id: 1, block_id: "0520", start_time: "06:00", pattern: Pattern::Full },
        RawTrip { bus_id: 1, block_id: "0520", start_time: "08:00", pattern: Pattern::Full },
        RawTrip { bus_id: 1, block_id: "0520", start_time: "09:50", pattern: Pattern::Full },
        RawTrip { bus_id: 1, block_id: "0520", start_time: "11:50", pattern: Pattern::Full },
        RawTrip { bus_id: 1, block_id: "0520", start_time: "13:55", pattern: Pattern::Full },
        RawTrip { bus_id: 1, block_id: "0520", start_time: "15:50", pattern: Pattern::Full },
        RawTrip { bus_id: 1, block_id: "0520", start_time: "17:55", pattern: Pattern::Full },
        RawTrip { bus_id: 2, block_id: "0535", start_time: "06:20", pattern: Pattern::Full },
        RawTrip { bus_id: 2, block_id: "0535", start_time: "08:20", pattern: Pattern::Full },
        RawTrip { bus_id: 2, block_id: "0535", start_time: "10:10", pattern: Pattern::Full },
        RawTrip { bus_id: 2, block_id: "0535", start_time: "12:10", pattern: Pattern::Full },
        RawTrip { bus_id: 2, block_id: "0535", start_time: "14:15", pattern: Pattern::Full },
        RawTrip { bus_id: 2, block_id: "0535", start_time: "16:10", pattern: Pattern::Full },
        RawTrip { bus_id: 2, block_id: "0535", start_time: "18:15", pattern: Pattern::Full },
        RawTrip { bus_id: 3, block_id: "0600", start_time: "06:40", pattern: Pattern::Full },
        RawTrip { bus_id: 3, block_id: "0600", start_time: "08:40", pattern: Pattern::Full },
        RawTrip { bus_id: 3, block_id: "0600", start_time: "10:30", pattern: Pattern::Full },
        RawTrip { bus_id: 3, block_id: "0600", start_time: "12:30", pattern: Pattern::Full },
        RawTrip { bus_id: 3, block_id: "0600", start_time: "14:35", pattern: Pattern::Full },
        RawTrip { bus_id: 3, block_id: "0600", start_time: "16:30", pattern: Pattern::Full },
        RawTrip { bus_id: 3, block_id: "0600", start_time: "18:35", pattern: Pattern::ShortYale },
        RawTrip { bus_id: 4, block_id: "0520", start_time: "06:00", pattern: Pattern::StartYale },
        RawTrip { bus_id: 4, block_id: "0520", start_time: "07:00", pattern: Pattern::Full },
        RawTrip { bus_id: 4, block_id: "0520", start_time: "08:55", pattern: Pattern::Full },
        RawTrip { bus_id: 4, block_id: "0520", start_time: "10:50", pattern: Pattern::Full },
        RawTrip { bus_id: 4, block_id: "0520", start_time: "12:50", pattern: Pattern::Full },
        RawTrip { bus_id: 4, block_id: "0520", start_time: "14:55", pattern: Pattern::Full },
        RawTrip { bus_id: 4, block_id: "0520", start_time: "16:50", pattern: Pattern::Full },
        RawTrip { bus_id: 4, block_id: "0520", start_time: "18:55", pattern: Pattern::ShortYale },
        RawTrip { bus_id: 5, block_id: "0535", start_time: "06:20", pattern: Pattern::StartYale },
        RawTrip { bus_id: 5, block_id: "0535", start_time: "07:20", pattern: Pattern::Full },
        RawTrip { bus_id: 5, block_id: "0535", start_time: "09:15", pattern: Pattern::Full },
        RawTrip { bus_id: 5, block_id: "0535", start_time: "11:20", pattern: Pattern::Full },
        RawTrip { bus_id: 5, block_id: "0535", start_time: "13:10", pattern: Pattern::Full },
        RawTrip { bus_id: 5, block_id: "0535", start_time: "15:10", pattern: Pattern::Full },
        RawTrip { bus_id: 5, block_id: "0535", start_time: "17:10", pattern: Pattern::Full },
        RawTrip { bus_id: 5, block_id: "0535", start_time: "19:15", pattern: Pattern::ShortYale },
        RawTrip { bus_id: 6, block_id: "0550", start_time: "06:40", pattern: Pattern::StartYale },
        RawTrip { bus_id: 6, block_id: "0550", start_time: "07:40", pattern: Pattern::Full },
        RawTrip { bus_id: 6, block_id: "0550", start_time: "09:35", pattern: Pattern::Full },
        RawTrip { bus_id: 6, block_id: "0550", start_time: "11:40", pattern: Pattern::Full },
        RawTrip { bus_id: 6, block_id: "0550", start_time: "13:30", pattern: Pattern::Full },
        RawTrip { bus_id: 6, block_id: "0550", start_time: "15:30", pattern: Pattern::Full },
        RawTrip { bus_id: 6, block_id: "0550", start_time: "17:30", pattern: Pattern::Full },
        RawTrip { bus_id: 6, block_id: "0550", start_time: "19:35", pattern: Pattern::ShortYale },
    ]
}

/// The weekend (Saturday and Sunday) compact timetable, bus by bus.
pub open spec fn weekend_table() -> Seq<RawTrip> {
    seq![
        RawTrip { bus_id: 1, block_id: "0720", start_time: "08:00", pattern: Pattern::Full },
        RawTrip { bus_id: 1, block_id: "0720", start_time: "10:00", pattern: Pattern::Full },
        RawTrip { bus_id: 1, block_id: "0720", start_time: "11:50", pattern: Pattern::Full },
        RawTrip { bus_id: 1, block_id: "0720", start_time: "13:50", pattern: Pattern::Full },
        RawTrip { bus_id: 1, block_id: "0720", start_time: "15:55", pattern: Pattern::Full },
        RawTrip { bus_id: 1, block_id: "0720", start_time: "17:50", pattern: Pattern::Full },
        RawTrip { bus_id: 1, block_id: "0720", start_time: "19:55", pattern: Pattern::Full },
        RawTrip { bus_id: 2, block_id: "0735", start_time: "08:20", pattern: Pattern::Full },
        RawTrip { bus_id: 2, block_id: "0735", start_time: "10:20", pattern: Pattern::Full },
        RawTrip { bus_id: 2, block_id: "0735", start_time: "12:10", pattern: Pattern::Full },
        RawTrip { bus_id: 2, block_id: "0735", start_time: "14:10", pattern: Pattern::Full },
        RawTrip { bus_id: 2, block_id: "0735", start_time: "16:15", pattern: Pattern::Full },
        RawTrip { bus_id: 2, block_id: "0735", start_time: "18:15", pattern: Pattern::Full },
        RawTrip { bus_id: 2, block_id: "0735", start_time: "20:15", pattern: Pattern::Full },
        RawTrip { bus_id: 3, block_id: "0800", start_time: "08:40", pattern: Pattern::Full },
        RawTrip { bus_id: 3, block_id: "0800", start_time: "10:40", pattern: Pattern::Full },
        RawTrip { bus_id: 3, block_id: "0800", start_time: "12:30", pattern: Pattern::Full },
        RawTrip { bus_id: 3, block_id: "0800", start_time: "14:30", pattern: Pattern::Full },
        RawTrip { bus_id: 3, block_id: "0800", start_time: "16:30", pattern: Pattern::Full },
        RawTrip { bus_id: 3, block_id: "0800", start_time: "18:30", pattern: Pattern::Full },
        RawTrip { bus_id: 3, block_id: "0800", start_time: "20:35", pattern: Pattern::ShortYale },
        RawTrip { bus_id: 4, block_id: "0720", start_time: "09:00", pattern: Pattern::Full },
        RawTrip { bus_id: 4, block_id: "0720", start_time: "10:55", pattern: Pattern::Full },
        RawTrip { bus_id: 4, block_id: "0720", start_time: "12:50", pattern: Pattern::Full },
        RawTrip { bus_id: 4, block_id: "0720", start_time: "14:50", pattern: Pattern::Full },
        RawTrip { bus_id: 4, block_id: "0720", start_time: "16:55", pattern: Pattern::Full },
        RawTrip { bus_id: 4, block_id: "0720", start_time: "18:50", pattern: Pattern::Full },
        RawTrip { bus_id: 4, block_id: "0720", start_time: "20:55", pattern: Pattern::ShortYale },
        RawTrip { bus_id: 5, block_id: "0735", start_time: "09:20", pattern: Pattern::Full },
        RawTrip { bus_id: 5, block_id: "0735", start_time: "11:15", pattern: Pattern::Full },
        RawTrip { bus_id: 5, block_id: "0735", start_time: "13:20", pattern: Pattern::Full },
        RawTrip { bus_id: 5, block_id: "0735", start_time: "15:15", pattern: Pattern::Full },
        RawTrip { bus_id: 5, block_id: "0735", start_time: "17:15", pattern: Pattern::Full },
        RawTrip { bus_id: 5, block_id: "0735", start_time: "19:10", pattern: Pattern::Full },
        RawTrip { bus_id: 5, block_id: "0735", start_time: "21:15", pattern: Pattern::ShortYale },
        RawTrip { bus_id: 6, block_id: "0750", start_time: "09:40", pattern: Pattern::Full },
        RawTrip { bus_id: 6, block_id: "0750", start_time: "11:35", pattern: Pattern::Full },
        RawTrip { bus_id: 6, block_id: "0750", start_time: "13:40", pattern: Pattern::Full },
        RawTrip { bus_id: 6, block_id: "0750", start_time: "15:40", pattern: Pattern::Full },
        RawTrip { bus_id: 6, block_id: "0750", start_time: "17:35", pattern: Pattern::Full },
        RawTrip { bus_id: 6, block_id: "0750", start_time: "19:35", pattern: Pattern::Full },
        RawTrip { bus_id: 6, block_id: "0750", start_time: "21:35", pattern: Pattern::ShortYale },
    ]
}

fn add_trip(v: &mut Vec<RawTrip>, bus_id: u32, block_id: &'static str, start_time: &'static str, pattern: Pattern)
    requires
        all_clock_starts(old(v)@),
        hh_mm_seconds(start_time@) is Some,
    ensures
        all_clock_starts(final(v)@),
        final(v)@ == old(v)@.push(RawTrip { bus_id, block_id, start_time, pattern }),
{
    v.push(RawTrip { bus_id, block_id, start_time, pattern });
}

/// The weekday timetable as values.
fn weekday_schedule() -> (r: Vec<RawTrip>)
    ensures
        r@ == weekday_table(),
        all_clock_starts(r@),
{
    let mut v: Vec<RawTrip> = Vec::new();
    // Bus 1 (0520)
    proof { reveal_strlit("06:00"); }
    add_trip(&mut v, 1, "0520", "06:00", Pattern::Full);
    proof { reveal_strlit("08:00"); }
    add_trip(&mut v, 1, "0520", "08:00", Pattern::Full);
    proof { reveal_strlit("09:50"); }
    add_trip(&mut v, 1, "0520", "09:50", Pattern::Full);
    proof { reveal_strlit("11:50"); }
    add_trip(&mut v, 1, "0520", "11:50", Pattern::Full);
    proof { reveal_strlit("13:55"); }
    add_trip(&mut v, 1, "0520", "13:55", Pattern::Full);
    proof { reveal_strlit("15:50"); }
    add_trip(&mut v, 1, "0520", "15:50", Pattern::Full);
    proof { reveal_strlit("17:55"); }
    add_trip(&mut v, 1, "0520", "17:55", Pattern::Full);

    // Bus 2 (0535)
    proof { reveal_strlit("06:20"); }
    add_trip(&mut v, 2, "0535", "06:20", Pattern::Full);
    proof { reveal_strlit("08:20"); }
    add_trip(&mut v, 2, "0535", "08:20", Pattern::Full);
    proof { reveal_strlit("10:10"); }
    add_trip(&mut v, 2, "0535", "10:10", Pattern::Full);
    proof { reveal_strlit("12:10"); }
    add_trip(&mut v, 2, "0535", "12:10", Pattern::Full);
    proof { reveal_strlit("14:15"); }
    add_trip(&mut v, 2, "0535", "14:15", Pattern::Full);
    proof { reveal_strlit("16:10"); }
    add_trip(&mut v, 2, "0535", "16:10", Pattern::Full);
    proof { reveal_strlit("18:15"); }
    add_trip(&mut v, 2, "0535", "18:15", Pattern::Full);

    // Bus 3 (0600)
    proof { reveal_strlit("06:40"); }
    add_trip(&mut v, 3, "0600", "06:40", Pattern::Full);
    proof { reveal_strlit("08:40"); }
    add_trip(&mut v, 3, "0600", "08:40", Pattern::Full);
    proof { reveal_strlit("10:30"); }
    add_trip(&mut v, 3, "0600", "10:30", Pattern::Full);
    proof { reveal_strlit("12:30"); }
    add_trip(&mut v, 3, "0600", "12:30", Pattern::Full);
    proof { reveal_strlit("14:35"); }
    add_trip(&mut v, 3, "0600", "14:35", Pattern::Full);
    proof { reveal_strlit("16:30"); }
    add_trip(&mut v, 3, "0600", "16:30", Pattern::Full);
    proof { reveal_strlit("18:35"); }
    add_trip(&mut v, 3, "0600", "18:35", Pattern::ShortYale); // Ends 19:40

    // Bus 4 (0520)
    proof { reveal_strlit("06:00"); }
    add_trip(&mut v, 4, "0520", "06:00", Pattern::StartYale);
    proof { reveal_strlit("07:00"); }
    add_trip(&mut v, 4, "0520", "07:00", Pattern::Full);
    proof { reveal_strlit("08:55"); }
    add_trip(&mut v, 4, "0520", "08:55", Pattern::Full);
    proof { reveal_strlit("10:50"); }
    add_trip(&mut v, 4, "0520", "10:50", Pattern::Full);
    proof { reveal_strlit("12:50"); }
    add_trip(&mut v, 4, "0520", "12:50", Pattern::Full);
    proof { reveal_strlit("14:55"); }
    add_trip(&mut v, 4, "0520", "14:55", Pattern::Full);
    proof { reveal_strlit("16:50"); }
    add_trip(&mut v, 4, "0520", "16:50", Pattern::Full);
    proof { reveal_strlit("18:55"); }
    add_trip(&mut v, 4, "0520", "18:55", Pattern::ShortYale); // Ends 20:00

    // Bus 5 (0535)
    proof { reveal_strlit("06:20"); }
    add_trip(&mut v, 5, "0535", "06:20", Pattern::StartYale);
    proof { reveal_strlit("07:20"); }
    add_trip(&mut v, 5, "0535", "07:20", Pattern::Full);
    proof { reveal_strlit("09:15"); }
    add_trip(&mut v, 5, "0535", "09:15", Pattern::Full);
    proof { reveal_strlit("11:20"); }
    add_trip(&mut v, 5, "0535", "11:20", Pattern::Full);
    proof { reveal_strlit("13:10"); }
    add_trip(&mut v, 5, "0535", "13:10", Pattern::Full);
    proof { reveal_strlit("15:10"); }
    add_trip(&mut v, 5, "0535", "15:10", Pattern::Full);
    proof { reveal_strlit("17:10"); }
    add_trip(&mut v, 5, "0535", "17:10", Pattern::Full);
    proof { reveal_strlit("19:15"); }
    add_trip(&mut v, 5, "0535", "19:15", Pattern::ShortYale); // Ends 20:20

    // Bus 6 (0550)
    proof { reveal_strlit("06:40"); }
    add_trip(&mut v, 6, "0550", "06:40", Pattern::StartYale);
    proof { reveal_strlit("07:40"); }
    add_trip(&mut v, 6, "0550", "07:40", Pattern::Full);
    proof { reveal_strlit("09:35"); }
    add_trip(&mut v, 6, "0550", "09:35", Pattern::Full);
    proof { reveal_strlit("11:40"); }
    add_trip(&mut v, 6, "0550", "11:40", Pattern::Full);
    proof { reveal_strlit("13:30"); }
    add_trip(&mut v, 6, "0550", "13:30", Pattern::Full);
    proof { reveal_strlit("15:30"); }
    add_trip(&mut v, 6, "0550", "15:30", Pattern::Full);
    proof { reveal_strlit("17:30"); }
    add_trip(&mut v, 6, "0550", "17:30", Pattern::Full);
    // Bus 6 last trip inferred
    proof { reveal_strlit("19:35"); }
    add_trip(&mut v, 6, "0550", "19:35", Pattern::ShortYale); // Ends 20:40
    assert(v@ =~= weekday_table());
    v
}

/// The weekend timetable as values.
fn weekend_schedule() -> (r: Vec<RawTrip>)
    ensures
        r@ == weekend_table(),
        all_clock_starts(r@),
{
    let mut v: Vec<RawTrip> = Vec::new();
    // Bus 1 (0720)
    proof { reveal_strlit("08:00"); }
    add_trip(&mut v, 1, "0720", "08:00", Pattern::Full);
    proof { reveal_strlit("10:00"); }
    add_trip(&mut v, 1, "0720", "10:00", Pattern::Full);
    proof { reveal_strlit("11:50"); }
    add_trip(&mut v, 1, "0720", "11:50", Pattern::Full);
    proof { reveal_strlit("13:50"); }
    add_trip(&mut v, 1, "0720", "13:50", Pattern::Full);
    proof { reveal_strlit("15:55"); }
    add_trip(&mut v, 1, "0720", "15:55", Pattern::Full);
    proof { reveal_strlit("17:50"); }
    add_trip(&mut v, 1, "0720", "17:50", Pattern::Full);
    proof { reveal_strlit("19:55"); }
    add_trip(&mut v, 1, "0720", "19:55", Pattern::Full);

    // Bus 2 (0735)
    proof { reveal_strlit("08:20"); }
    add_trip(&mut v, 2, "0735", "08:20", Pattern::Full);
    proof { reveal_strlit("10:20"); }
    add_trip(&mut v, 2, "0735", "10:20", Pattern::Full);
    proof { reveal_strlit("12:10"); }
    add_trip(&mut v, 2, "0735", "12:10", Pattern::Full);
    proof { reveal_strlit("14:10"); }
    add_trip(&mut v, 2, "0735", "14:10", Pattern::Full);
    proof { reveal_strlit("16:15"); }
    add_trip(&mut v, 2, "0735", "16:15", Pattern::Full);
    proof { reveal_strlit("18:15"); }
    add_trip(&mut v, 2, "0735", "18:15", Pattern::Full);
    proof { reveal_strlit("20:15"); }
    add_trip(&mut v, 2, "0735", "20:15", Pattern::Full);

    // Bus 3 (0800)
    proof { reveal_strlit("08:40"); }
    add_trip(&mut v, 3, "0800", "08:40", Pattern::Full);
    proof { reveal_strlit("10:40"); }
    add_trip(&mut v, 3, "0800", "10:40", Pattern::Full);
    proof { reveal_strlit("12:30"); }
    add_trip(&mut v, 3, "0800", "12:30", Pattern::Full);
    proof { reveal_strlit("14:30"); }
    add_trip(&mut v, 3, "0800", "14:30", Pattern::Full);
    proof { reveal_strlit("16:30"); }
    add_trip(&mut v, 3, "0800", "16:30", Pattern::Full);
    proof { reveal_strlit("18:30"); }
    add_trip(&mut v, 3, "0800", "18:30", Pattern::Full);
    proof { reveal_strlit("20:35"); }
    add_trip(&mut v, 3, "0800", "20:35", Pattern::ShortYale); // Ends 21:40

    // Bus 4 (0720)
    proof { reveal_strlit("09:00"); }
    add_trip(&mut v, 4, "0720", "09:00", Pattern::Full);
    proof { reveal_strlit("10:55"); }
    add_trip(&mut v, 4, "0720", "10:55", Pattern::Full);
    proof { reveal_strlit("12:50"); }
    add_trip(&mut v, 4, "0720", "12:50", Pattern::Full);
    proof { reveal_strlit("14:50"); }
    add_trip(&mut v, 4, "0720", "14:50", Pattern::Full);
    proof { reveal_strlit("16:55"); }
    add_trip(&mut v, 4, "0720", "16:55", Pattern::Full);
    proof { reveal_strlit("18:50"); }
    add_trip(&mut v, 4, "0720", "18:50", Pattern::Full);
    proof { reveal_strlit("20:55"); }
    add_trip(&mut v, 4, "0720", "20:55", Pattern::ShortYale); // Ends 22:00

    // Bus 5 (0735)
    proof { reveal_strlit("09:20"); }
    add_trip(&mut v, 5, "0735", "09:20", Pattern::Full);
    proof { reveal_strlit("11:15"); }
    add_trip(&mut v, 5, "0735", "11:15", Pattern::Full);
    proof { reveal_strlit("13:20"); }
    add_trip(&mut v, 5, "0735", "13:20", Pattern::Full);
    proof { reveal_strlit("15:15"); }
    add_trip(&mut v, 5, "0735", "15:15", Pattern::Full);
    proof { reveal_strlit("17:15"); }
    add_trip(&mut v, 5, "0735", "17:15", Pattern::Full);
    proof { reveal_strlit("19:10"); }
    add_trip(&mut v, 5, "0735", "19:10", Pattern::Full);
    proof { reveal_strlit("21:15"); }
    add_trip(&mut v, 5, "0735", "21:15", Pattern::ShortYale); // Ends 22:20

    // Bus 6 (0750)
    proof { reveal_strlit("09:40"); }
    add_trip(&mut v, 6, "0750", "09:40", Pattern::Full);
    proof { reveal_strlit("11:35"); }
    add_trip(&mut v, 6, "0750", "11:35", Pattern::Full);
    proof { reveal_strlit("13:40"); }
    add_trip(&mut v, 6, "0750", "13:40", Pattern::Full);
    proof { reveal_strlit("15:40"); }
    add_trip(&mut v, 6, "0750", "15:40", Pattern::Full);
    proof { reveal_strlit("17:35"); }
    add_trip(&mut v, 6, "0750", "17:35", Pattern::Full);
    proof { reveal_strlit("19:35"); }
    add_trip(&mut v, 6, "0750", "19:35", Pattern::Full); // Added inferred Full
    proof { reveal_strlit("21:35"); }
    add_trip(&mut v, 6, "0750", "21:35", Pattern::ShortYale); // Added inferred Short
    assert(v@ =~= weekend_table());
    v
}

/// The trip that line `i` of `table` becomes as trip `i + 1` of service
/// `service_id`, starting at the time its start text writes.
pub open spec fn table_trip(t: TripInput, service_id: &'static str, table: Seq<RawTrip>, i: int) -> bool {
    expands_to(t, lower_of(service_id@), i + 1, service_id, table[i], hh_mm_seconds(table[i].start_time@).unwrap())
}

/// Every trip of the built-in timetable: first the weekday service, then the
/// weekend service, each line expanded onto its control points.
pub fn get_trips() -> (r: Vec<TripInput>)
    ensures
        r.len() == weekday_table().len() + weekend_table().len(),
        forall|i: int| 0 <= i < weekday_table().len() ==> table_trip(#[trigger] r@[i], "Weekday", weekday_table(), i),
        forall|i: int|
            weekday_table().len() <= i < r.len() ==> table_trip(
                #[trigger] r@[i],
                "Weekend",
                weekend_table(),
                i - weekday_table().len(),
            ),
        forall|i: int| 0 <= i < r.len() ==> is_compact_trip(#[trigger] r@[i]),
        forall|i: int| 0 <= i < r.len() ==> times_non_decreasing(#[trigger] r@[i]),
{
    let mut trips: Vec<TripInput> = Vec::new();

    let service_mf = "Weekday";
    let trips_mf = weekday_schedule();
    let done_mf = process_trips(&mut trips, trips_mf, service_mf);
    if done_mf.is_err() {
        proof {
            assert(false);
        }
        return Vec::new();
    }

    let service_we = "Weekend";
    let trips_we = weekend_schedule();
    let ghost mid = trips@;
    let done_we = process_trips(&mut trips, trips_we, service_we);
    if done_we.is_err() {
        proof {
            assert(false);
        }
        return Vec::new();
    }
    let ghost nw = weekday_table().len() as int;
    proof {
        lemma_timetable_same_day();
    }
    assert forall|i: int| 0 <= i < trips.len() implies {
        &&& is_compact_trip(#[trigger] trips@[i])
        &&& times_non_decreasing(trips@[i])
        &&& i < nw ==> table_trip(trips@[i], "Weekday", weekday_table(), i)
        &&& i >= nw ==> table_trip(trips@[i], "Weekend", weekend_table(), i - nw)
    } by {
        if i < nw {
            assert(trips@[i] == mid[i]);
            assert(mid[0 + i] == mid[i]);
            assert(hh_mm_seconds(weekday_table()[i].start_time@) is Some);
            let raw = weekday_table()[i];
            lemma_trip_times_non_decreasing(
                trips@[i],
                lower_of("Weekday"@),
                i + 1,
                "Weekday",
                raw,
                hh_mm_seconds(raw.start_time@).unwrap(),
            );
        } else {
            assert(trips@[nw + (i - nw)] == trips@[i]);
            assert(hh_mm_seconds(weekend_table()[i - nw].start_time@) is Some);
            let raw = weekend_table()[i - nw];
            lemma_trip_times_non_decreasing(
                trips@[i],
                lower_of("Weekend"@),
                i - nw + 1,
                "Weekend",
                raw,
                hh_mm_seconds(raw.start_time@).unwrap(),
            );
        }
    }
    trips
}

/// The time of day written by the text of timepoint `k` of `t`, when it reads
/// exactly `HH:MM:SS`.
pub open spec fn written_seconds(t: TripInput, k: int) -> int {
    match t.stops@[k].1 {
        Some(text) => match hh_mm_ss_seconds(text@) {
            Some(v) => v,
            None => -1,
        },
        None => -1,
    }
}

/// The timepoint times of `t` are times of day that never decrease.
pub open spec fn times_non_decreasing(t: TripInput) -> bool {
    &&& forall|k: int| 0 <= k < t.stops.len() ==> 0 <= #[trigger] written_seconds(t, k) < SECONDS_PER_DAY
    &&& forall|k1: int, k2: int|
        0 <= k1 <= k2 < t.stops.len() ==> #[trigger] written_seconds(t, k1) <= #[trigger] written_seconds(t, k2)
}

/// A trip of `pattern` leaving at `start` ends before midnight.
pub open spec fn ends_same_day(start: int, pattern: Pattern) -> bool {
    start + 60 * (control_offset(pattern.last_index()) - control_offset(pattern.first_index())) < SECONDS_PER_DAY
}

/// Every line of the built-in timetable starts at a time its text writes, early
/// enough that the trip ends before midnight.
pub proof fn lemma_timetable_same_day()
    ensures
        forall|i: int|
            0 <= i < weekday_table().len() ==> (hh_mm_seconds((#[trigger] weekday_table()[i]).start_time@) matches Some(
                v,
            ) && ends_same_day(v, weekday_table()[i].pattern)),
        forall|i: int|
            0 <= i < weekend_table().len() ==> (hh_mm_seconds((#[trigger] weekend_table()[i]).start_time@) matches Some(
                v,
            ) && ends_same_day(v, weekend_table()[i].pattern)),
{
    reveal_strlit("06:00");
    reveal_strlit("06:20");
    reveal_strlit("06:40");
    reveal_strlit("07:00");
    reveal_strlit("07:20");
    reveal_strlit("07:40");
    reveal_strlit("08:00");
    reveal_strlit("08:20");
    reveal_strlit("08:40");
    reveal_strlit("08:55");
    reveal_strlit("09:00");
    reveal_strlit("09:15");
    reveal_strlit("09:20");
    reveal_strlit("09:35");
    reveal_strlit("09:40");
    reveal_strlit("09:50");
    reveal_strlit("10:00");
    reveal_strlit("10:10");
    reveal_strlit("10:20");
    reveal_strlit("10:30");
    reveal_strlit("10:40");
    reveal_strlit("10:50");
    reveal_strlit("10:55");
    reveal_strlit("11:15");
    reveal_strlit("11:20");
    reveal_strlit("11:35");
    reveal_strlit("11:40");
    reveal_strlit("11:50");
    reveal_strlit("12:10");
    reveal_strlit("12:30");
    reveal_strlit("12:50");
    reveal_strlit("13:10");
    reveal_strlit("13:20");
    reveal_strlit("13:30");
    reveal_strlit("13:40");
    reveal_strlit("13:50");
    reveal_strlit("13:55");
    reveal_strlit("14:10");
    reveal_strlit("14:15");
    reveal_strlit("14:30");
    reveal_strlit("14:35");
    reveal_strlit("14:50");
    reveal_strlit("14:55");
    reveal_strlit("15:10");
    reveal_strlit("15:15");
    reveal_strlit("15:30");
    reveal_strlit("15:40");
    reveal_strlit("15:50");
    reveal_strlit("15:55");
    reveal_strlit("16:10");
    reveal_strlit("16:15");
    reveal_strlit("16:30");
    reveal_strlit("16:50");
    reveal_strlit("16:55");
    reveal_strlit("17:10");
    reveal_strlit("17:15");
    reveal_strlit("17:30");
    reveal_strlit("17:35");
    reveal_strlit("17:50");
    reveal_strlit("17:55");
    reveal_strlit("18:15");
    reveal_strlit("18:30");
    reveal_strlit("18:35");
    reveal_strlit("18:50");
    reveal_strlit("18:55");
    reveal_strlit("19:10");
    reveal_strlit("19:15");
    reveal_strlit("19:35");
    reveal_strlit("19:55");
    reveal_strlit("20:15");
    reveal_strlit("20:35");
    reveal_strlit("20:55");
    reveal_strlit("21:15");
    reveal_strlit("21:35");
}

/// The timepoint times of a trip that ends before midnight never decrease.
pub proof fn lemma_trip_times_non_decreasing(
    t: TripInput,
    service_lower: Seq<char>,
    ordinal: int,
    service_id: &'static str,
    raw: RawTrip,
    start: int,
)
    requires
        0 <= start < SECONDS_PER_DAY,
        expands_to(t, service_lower, ordinal, service_id, raw, start),
        ends_same_day(start, raw.pattern),
    ensures
        times_non_decreasing(t),
{
    let lo = raw.pattern.first_index();
    assert forall|k: int| 0 <= k < t.stops.len() implies written_seconds(t, k) == start + 60 * (control_offset(lo + k)
        - control_offset(lo)) by {
        let p = projected(start, raw.pattern, k);
        assert(t.stops@[k].0 == p.station);
        let x = start + 60 * (control_offset(lo + k) - control_offset(lo));
        assert(0 <= x < SECONDS_PER_DAY);
        vstd::arithmetic::div_mod::lemma_small_mod(x as nat, SECONDS_PER_DAY as nat);
        lemma_clock_text_round_trip(x);
    }
    assert forall|k1: int, k2: int| 0 <= k1 <= k2 < t.stops.len() implies #[trigger] written_seconds(t, k1)
        <= #[trigger] written_seconds(t, k2) by {
        assert(control_offset(lo + k1) <= control_offset(lo + k2));
    }
}

} // verus!
