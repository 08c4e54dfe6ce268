use transit_timetable::data::{
    control_offset_at, control_station_at, expand_pattern, expand_trip, process_trips, FormatError, RawTrip,
};
use transit_timetable::{get_trips, Pattern, TripInput};

fn times_of(trip: &TripInput) -> Vec<String> {
    trip.stops.iter().map(|(_, t)| t.clone().unwrap()).collect()
}

fn ids_of(trip: &TripInput) -> Vec<u32> {
    trip.stops.iter().map(|(id, _)| *id).collect()
}

#[test]
fn full_trip_timepoints() {
    let trips = get_trips();
    let trip = &trips[0];
    assert_eq!(trip.trip_id, "weekday_1_1");
    assert_eq!(trip.service_id, "Weekday");
    assert_eq!(trip.block_id, "0520");
    assert_eq!(
        times_of(trip),
        vec!["06:00:00", "06:15:00", "06:30:00", "06:45:00", "07:05:00", "07:15:00", "07:35:00", "07:50:00"]
    );
    let ids = ids_of(trip);
    assert_eq!(ids.len(), 8);
    assert_eq!(ids[7], ids[0]);
    assert_eq!(ids, vec![157583, 157593, 157601, 198349, 157625, 157667, 157641, 157583]);
}

#[test]
fn short_yale_timepoints() {
    let trips = get_trips();
    let trip = &trips[20];
    assert_eq!(trip.trip_id, "weekday_3_21");
    assert_eq!(times_of(trip), vec!["18:35:00", "18:50:00", "19:05:00", "19:20:00", "19:40:00"]);
    assert_eq!(ids_of(trip), vec![157583, 157593, 157601, 198349, 157625]);
}

#[test]
fn start_yale_timepoints() {
    let trips = get_trips();
    let trip = &trips[21];
    assert_eq!(trip.trip_id, "weekday_4_22");
    assert_eq!(times_of(trip), vec!["06:00:00", "06:10:00", "06:30:00", "06:45:00"]);
    assert_eq!(ids_of(trip), vec![157625, 157667, 157641, 157583]);
}

#[test]
fn timetable_size_and_services() {
    let trips = get_trips();
    assert_eq!(trips.len(), 87);
    assert!(trips[..45].iter().all(|t| t.service_id == "Weekday"));
    assert!(trips[45..].iter().all(|t| t.service_id == "Weekend"));
    assert_eq!(trips[45].trip_id, "weekend_1_1");
    assert_eq!(trips[86].trip_id, "weekend_6_42");
    assert_eq!(trips[44].block_id, "0550");
}

#[test]
fn timepoint_count_matches_pattern() {
    assert_eq!(expand_pattern(0, Pattern::Full).len(), 8);
    assert_eq!(expand_pattern(0, Pattern::ShortYale).len(), 5);
    assert_eq!(expand_pattern(0, Pattern::StartYale).len(), 4);
    for trip in get_trips() {
        let n = trip.stops.len();
        assert!(n == 8 || n == 5 || n == 4);
    }
}

#[test]
fn start_yale_offsets_are_relative() {
    let tps = expand_pattern(6 * 3600, Pattern::StartYale);
    let secs: Vec<u32> = tps.iter().map(|t| t.seconds).collect();
    assert_eq!(secs, vec![21600, 22200, 23400, 24300]);
}

#[test]
fn expansion_wraps_at_midnight() {
    let tps = expand_pattern(23 * 3600, Pattern::Full);
    assert_eq!(tps[7].seconds, 50 * 60);
    assert_eq!(tps[6].seconds, 35 * 60);
}

#[test]
fn control_table_values() {
    assert_eq!(control_station_at(7), control_station_at(0));
    assert_eq!(control_station_at(4), 157625);
    assert_eq!(control_offset_at(7), 110);
    assert_eq!(control_offset_at(4), 65);
    assert_eq!(Pattern::StartYale.range(), (4, 7));
    assert_eq!(Pattern::ShortYale.range(), (0, 4));
}

#[test]
fn expand_trip_labels_and_times() {
    let raw = RawTrip { bus_id: 12, block_id: "0900", start_time: "23:30", pattern: Pattern::ShortYale };
    let trip = expand_trip("night", 3, "Night", &raw).unwrap();
    assert_eq!(trip.trip_id, "night_12_3");
    assert_eq!(trip.service_id, "Night");
    assert_eq!(trip.block_id, "0900");
    assert_eq!(times_of(&trip), vec!["23:30:00", "23:45:00", "00:00:00", "00:15:00", "00:35:00"]);
}

#[test]
fn bad_start_time_is_format_error() {
    let raw = RawTrip { bus_id: 1, block_id: "0520", start_time: "25:00", pattern: Pattern::Full };
    match expand_trip("weekday", 1, "Weekday", &raw) {
        Err(FormatError::StartTime { text }) => assert_eq!(text, "25:00"),
        _ => panic!("expected a start-time error"),
    }
}

#[test]
fn process_trips_lowercases_and_numbers() {
    let mut trips: Vec<TripInput> = Vec::new();
    let raws = vec![
        RawTrip { bus_id: 2, block_id: "0535", start_time: "06:20", pattern: Pattern::Full },
        RawTrip { bus_id: 5, block_id: "0535", start_time: "06:20", pattern: Pattern::StartYale },
    ];
    process_trips(&mut trips, raws, "Weekday").unwrap();
    assert_eq!(trips.len(), 2);
    assert_eq!(trips[0].trip_id, "weekday_2_1");
    assert_eq!(trips[1].trip_id, "weekday_5_2");
    assert_eq!(times_of(&trips[1])[0], "06:20:00");
}

#[test]
fn process_trips_error_leaves_trips() {
    let mut trips: Vec<TripInput> = Vec::new();
    let raws = vec![RawTrip { bus_id: 2, block_id: "0535", start_time: "06:20", pattern: Pattern::Full }];
    process_trips(&mut trips, raws, "Weekday").unwrap();
    let bad = vec![
        RawTrip { bus_id: 3, block_id: "0600", start_time: "07:00", pattern: Pattern::Full },
        RawTrip { bus_id: 3, block_id: "0600", start_time: "noon", pattern: Pattern::Full },
    ];
    let r = process_trips(&mut trips, bad, "Weekday");
    assert!(matches!(r, Err(FormatError::StartTime { text: "noon" })));
    assert_eq!(trips.len(), 1);
}

#[test]
fn empty_start_time_is_format_error() {
    let raw = RawTrip { bus_id: 1, block_id: "0520", start_time: "", pattern: Pattern::Full };
    assert!(matches!(expand_trip("weekday", 1, "Weekday", &raw), Err(FormatError::StartTime { text: "" })));
}
