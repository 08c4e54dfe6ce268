use transit_timetable::data::{expand_trip, FormatError, RawTrip};
use transit_timetable::headsign::Headsign;
use transit_timetable::project::{project_all, project_timepoints, project_trip, TripProjection};
use transit_timetable::{get_trips, Pattern, TripInput};

/// One loop with an interior stop between each pair of control points.
fn loop_path() -> Vec<String> {
    [
        "157583", "100", "157593", "101", "157601", "102", "198349", "103", "157625", "104", "157667", "105",
        "157641", "106", "157583",
    ]
    .iter()
    .map(|s| s.to_string())
    .collect()
}

fn trip(start: &'static str, pattern: Pattern) -> TripInput {
    let raw = RawTrip { bus_id: 1, block_id: "0520", start_time: start, pattern };
    expand_trip("weekday", 1, "Weekday", &raw).unwrap()
}

fn sequences(p: &TripProjection) -> Vec<usize> {
    p.records.iter().map(|r| r.sequence).collect()
}

fn times(p: &TripProjection) -> Vec<String> {
    p.records.iter().map(|r| r.time.clone()).collect()
}

#[test]
fn full_trip_every_stop() {
    let p = project_trip(&trip("06:00", Pattern::Full), &loop_path()).unwrap();
    assert!(p.errors.is_empty());
    assert_eq!(sequences(&p), (1..=15).collect::<Vec<usize>>());
    assert_eq!(
        times(&p),
        vec![
            "06:00:00", "06:07:00", "06:15:00", "06:22:00", "06:30:00", "06:37:00", "06:45:00", "06:55:00",
            "07:05:00", "07:10:00", "07:15:00", "07:25:00", "07:35:00", "07:42:00", "07:50:00"
        ]
    );
    let tp: Vec<bool> = p.records.iter().map(|r| r.timepoint).collect();
    assert_eq!(tp, (0..15).map(|i| i % 2 == 0).collect::<Vec<bool>>());
    assert!(p.records.iter().all(|r| r.trip_id == "weekday_1_1"));
    assert!(p.records.iter().all(|r| r.headsign == Headsign::NorthwoodHighSchool));
    assert_eq!(p.records[14].station, "157583");
    assert_eq!(p.records[1].station, "100");
    assert_eq!(p.records[1].seconds, 6 * 3600 + 7 * 60);
}

#[test]
fn short_yale_turnback_headsign() {
    let p = project_trip(&trip("18:35", Pattern::ShortYale), &loop_path()).unwrap();
    assert_eq!(sequences(&p), (1..=9).collect::<Vec<usize>>());
    assert!(p.records.iter().all(|r| r.headsign == Headsign::YaleAtIrvine));
    let tps: Vec<String> = p.records.iter().filter(|r| r.timepoint).map(|r| r.time.clone()).collect();
    assert_eq!(tps, vec!["18:35:00", "18:50:00", "19:05:00", "19:20:00", "19:40:00"]);
}

#[test]
fn start_yale_enters_mid_loop() {
    let p = project_trip(&trip("06:00", Pattern::StartYale), &loop_path()).unwrap();
    assert_eq!(sequences(&p), vec![9, 10, 11, 12, 13, 14, 15]);
    let tps: Vec<String> = p.records.iter().filter(|r| r.timepoint).map(|r| r.time.clone()).collect();
    assert_eq!(tps, vec!["06:00:00", "06:10:00", "06:30:00", "06:45:00"]);
}

#[test]
fn times_never_decrease() {
    for t in get_trips() {
        let p = project_trip(&t, &loop_path()).unwrap();
        assert!(p.records.windows(2).all(|w| w[0].seconds <= w[1].seconds));
        assert!(p.records.windows(2).all(|w| w[1].sequence == w[0].sequence + 1));
    }
}

#[test]
fn missing_station_still_projects() {
    let mut path = loop_path();
    path[6] = "999".to_string();
    let p = project_trip(&trip("06:00", Pattern::Full), &path).unwrap();
    assert_eq!(p.errors.len(), 1);
    assert_eq!(p.errors[0].timepoint, 3);
    assert_eq!(p.errors[0].station, "198349");
    assert_eq!(p.errors[0].cursor, 5);
    assert_eq!(sequences(&p), (1..=15).collect::<Vec<usize>>());
    // the unmatched timepoint is pinned at the cursor, position 5
    assert!(p.records[5].timepoint);
    assert_eq!(p.records[5].time, "06:45:00");
}

#[test]
fn headsign_splits_long_path() {
    let mut path: Vec<String> = (0..100).map(|i| format!("{}", 500 + i)).collect();
    path[0] = "157583".to_string();
    path[99] = "157583".to_string();
    let stations = vec![157583, 157583];
    let p = project_timepoints(&"t".to_string(), &stations, &vec![0, 5940], &path);
    assert_eq!(p.records.len(), 100);
    assert_eq!(p.records[44].headsign, Headsign::NorthwoodHighSchool);
    assert_eq!(p.records[45].headsign, Headsign::IrvineStation);
    assert_eq!(p.records[86].headsign, Headsign::NorthwoodHighSchool);
    assert_eq!(p.records[99].time, "01:39:00");
}

#[test]
fn missing_time_is_format_error() {
    let mut t = trip("06:00", Pattern::Full);
    t.stops[2].1 = None;
    assert!(matches!(project_trip(&t, &loop_path()), Err(FormatError::StopTime { position: 2 })));
    t.stops[2].1 = Some("half past six".to_string());
    assert!(matches!(project_trip(&t, &loop_path()), Err(FormatError::StopTime { position: 2 })));
}

#[test]
fn project_all_in_order() {
    let trips = get_trips();
    let all = project_all(&trips, &loop_path()).unwrap();
    assert_eq!(all.len(), 87);
    assert_eq!(all[0].records[0].trip_id, "weekday_1_1");
    assert_eq!(all[21].records[0].sequence, 9);
}

#[test]
fn project_all_aborts_on_bad_time() {
    let mut trips = get_trips();
    trips[3].stops[0].1 = None;
    assert!(matches!(project_all(&trips, &loop_path()), Err(FormatError::StopTime { position: 0 })));
}
