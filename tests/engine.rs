use transit_timetable::align::align;
use transit_timetable::catalogue::resolve_path;
use transit_timetable::headsign::{assign_headsign, Headsign};
use transit_timetable::interpolate::{interpolate, TimedStop};

fn strings(v: &[&str]) -> Vec<String> {
    v.iter().map(|s| s.to_string()).collect()
}

#[test]
fn align_takes_earliest_duplicate() {
    let path = strings(&["A", "B", "C", "A"]);
    let r = align(&strings(&["A", "C", "A"]), &path);
    assert_eq!(r.anchors, vec![0, 2, 3]);
    assert!(r.errors.is_empty());
}

#[test]
fn align_anchors_strictly_increase() {
    let path = strings(&["D", "x", "D", "y", "D"]);
    let r = align(&strings(&["D", "D", "D"]), &path);
    assert_eq!(r.anchors, vec![0, 2, 4]);
}

#[test]
fn align_miss_pins_to_cursor() {
    let path = strings(&["A", "B", "C", "D"]);
    let r = align(&strings(&["A", "X", "C"]), &path);
    assert_eq!(r.anchors, vec![0, 1, 2]);
    assert_eq!(r.errors.len(), 1);
    assert_eq!(r.errors[0].timepoint, 1);
    assert_eq!(r.errors[0].station, "X");
    assert_eq!(r.errors[0].cursor, 1);
}

#[test]
fn align_miss_at_end_of_path() {
    let path = strings(&["A", "B"]);
    let r = align(&strings(&["A", "B", "A"]), &path);
    assert_eq!(r.anchors, vec![0, 1, 2]);
    assert_eq!(r.errors.len(), 1);
    assert_eq!(r.errors[0].cursor, 2);
}

#[test]
fn interpolate_proportional_steps() {
    let r = interpolate(&vec![2, 5], &vec![0, 600], 10);
    assert_eq!(
        r,
        vec![
            TimedStop { index: 2, seconds: 0, timepoint: true },
            TimedStop { index: 3, seconds: 180, timepoint: false },
            TimedStop { index: 4, seconds: 360, timepoint: false },
            TimedStop { index: 5, seconds: 600, timepoint: true },
        ]
    );
}

#[test]
fn interpolate_shared_boundary_once() {
    let r = interpolate(&vec![0, 2, 4], &vec![0, 1200, 1800], 5);
    let idx: Vec<usize> = r.iter().map(|s| s.index).collect();
    assert_eq!(idx, vec![0, 1, 2, 3, 4]);
    let secs: Vec<u32> = r.iter().map(|s| s.seconds).collect();
    assert_eq!(secs, vec![0, 600, 1200, 1500, 1800]);
    let tp: Vec<bool> = r.iter().map(|s| s.timepoint).collect();
    assert_eq!(tp, vec![true, false, true, false, true]);
}

#[test]
fn interpolate_zero_step_segment_once() {
    let r = interpolate(&vec![0, 2, 2, 4], &vec![0, 600, 900, 1500], 5);
    let idx: Vec<usize> = r.iter().map(|s| s.index).collect();
    assert_eq!(idx, vec![0, 1, 2, 3, 4]);
    assert_eq!(r[2], TimedStop { index: 2, seconds: 900, timepoint: true });
    assert_eq!(r[3].seconds, 1200);
}

#[test]
fn interpolate_zero_step_last_segment() {
    let r = interpolate(&vec![1, 3, 3], &vec![0, 600, 660], 5);
    let idx: Vec<usize> = r.iter().map(|s| s.index).collect();
    assert_eq!(idx, vec![1, 2, 3]);
    assert_eq!(r[2], TimedStop { index: 3, seconds: 600, timepoint: true });
}

#[test]
fn interpolate_truncates_minutes() {
    let r = interpolate(&vec![0, 3], &vec![0, 10 * 60 + 59], 4);
    let secs: Vec<u32> = r.iter().map(|s| s.seconds).collect();
    assert_eq!(secs, vec![0, 180, 360, 600]);
}

#[test]
fn interpolate_forward_across_midnight() {
    let r = interpolate(&vec![0, 2], &vec![23 * 3600 + 55 * 60, 5 * 60], 3);
    let secs: Vec<u32> = r.iter().map(|s| s.seconds).collect();
    assert_eq!(secs, vec![86100, 0, 300]);
}

#[test]
fn interpolate_stops_at_path_end() {
    let r = interpolate(&vec![1, 3], &vec![0, 600], 3);
    let idx: Vec<usize> = r.iter().map(|s| s.index).collect();
    assert_eq!(idx, vec![1, 2]);
}

#[test]
fn interpolate_needs_two_anchors() {
    assert!(interpolate(&vec![3], &vec![0], 5).is_empty());
    assert!(interpolate(&vec![], &vec![], 5).is_empty());
}

#[test]
fn headsign_by_position() {
    assert_eq!(assign_headsign(false, 0), Headsign::NorthwoodHighSchool);
    assert_eq!(assign_headsign(false, 44), Headsign::NorthwoodHighSchool);
    assert_eq!(assign_headsign(false, 45), Headsign::IrvineStation);
    assert_eq!(assign_headsign(false, 85), Headsign::IrvineStation);
    assert_eq!(assign_headsign(false, 86), Headsign::NorthwoodHighSchool);
    assert_eq!(assign_headsign(false, 131), Headsign::IrvineStation);
    assert_eq!(assign_headsign(true, 50), Headsign::YaleAtIrvine);
}

#[test]
fn headsign_texts() {
    assert_eq!(Headsign::NorthwoodHighSchool.text(), "Northwood High School");
    assert_eq!(Headsign::IrvineStation.text(), "Irvine Station");
    assert_eq!(Headsign::YaleAtIrvine.text(), "Yale Ave @ Irvine Blvd");
}

#[test]
fn resolve_path_drops_unknown_ids() {
    let r = resolve_path(&strings(&["1", "9", "2", "1", "8"]), &strings(&["1", "2", "3"]));
    assert_eq!(r.stops, strings(&["1", "2", "1"]));
    assert_eq!(r.unknown, strings(&["9", "8"]));
}
