use gesture_recognition::angle::{bound, diff, PI, TAU};
use gesture_recognition::config::{KEEP_POINTS, MAX_POINTS};
use gesture_recognition::point::{Point3, RotPoint};
use gesture_recognition::trace::{PointTrace, RotTrace, Segment};

#[test]
fn bound_keeps_angles_in_range() {
    assert_eq!(bound(0), 0);
    assert_eq!(bound(PI), PI);
    assert_eq!(bound(-PI), PI);
    assert_eq!(bound(PI + 1), -PI + 1);
    assert_eq!(bound(TAU + 5), 5);
    assert_eq!(bound(-TAU - 5), -5);
    assert_eq!(bound(3 * TAU + 100), 100);
}

#[test]
fn bound_handles_extreme_values() {
    let r = bound(i64::MIN);
    assert!(-PI < r && r <= PI);
    let r = bound(i64::MAX);
    assert!(-PI < r && r <= PI);
}

#[test]
fn diff_wraps_around() {
    assert_eq!(diff(100, 40), 60);
    assert_eq!(diff(PI - 10, -PI + 10), -20);
    assert_eq!(diff(-PI + 10, PI - 10), 20);
}

#[test]
fn rot_point_wraps_and_converts_degrees() {
    let p = RotPoint::new(TAU + 7, 3);
    assert_eq!(p.radians(), 7);
    assert_eq!(p.distance(), 3);
    assert_eq!(RotPoint::from_degrees(90, 1).radians(), 1_570_796);
    assert_eq!(RotPoint::from_degrees(-90, 1).radians(), -1_570_796);
    assert_eq!(RotPoint::from_degrees(180, 1).radians(), PI);
    assert_eq!(RotPoint::from_degrees(-180, 1).radians(), PI);
    assert_eq!(RotPoint::from_tuple((-5, 9)), RotPoint::new(-5, 9));
}

#[test]
fn point_trace_never_exceeds_max_points() {
    let mut trace = PointTrace::empty();
    for i in 0..(MAX_POINTS as i64 + 25) {
        trace.push(Point3::new(i, 0, 0));
        assert!(trace.len() <= MAX_POINTS);
    }
    assert_eq!(trace.len(), MAX_POINTS);
    // the oldest points were evicted first
    assert_eq!(trace.points()[0], Point3::new(25, 0, 0));
    assert_eq!(trace.points()[MAX_POINTS - 1], Point3::new(MAX_POINTS as i64 + 24, 0, 0));
}

#[test]
fn point_trace_new_keeps_newest() {
    let v: Vec<Point3> = (0..(MAX_POINTS as i64 + 3)).map(|i| Point3::new(i, i, i)).collect();
    let trace = PointTrace::new(v);
    assert_eq!(trace.len(), MAX_POINTS);
    assert_eq!(trace.points()[0], Point3::new(3, 3, 3));
    let small = PointTrace::new(vec![Point3::zero(); 2]);
    assert_eq!(small.len(), 2);
}

#[test]
fn point_trace_clear_most_keeps_newest() {
    let mut trace = PointTrace::empty();
    for i in 0..10 {
        trace.push(Point3::new(i, 0, 0));
    }
    trace.clear_most();
    assert_eq!(trace.len(), KEEP_POINTS);
    assert_eq!(trace.points()[0], Point3::new(8, 0, 0));
    assert_eq!(trace.points()[1], Point3::new(9, 0, 0));
    let mut short = PointTrace::new(vec![Point3::zero()]);
    short.clear_most();
    assert_eq!(short.len(), 1);
    short.clear();
    assert_eq!(short.len(), 0);
}

fn rot(angles: &[i64]) -> RotTrace {
    RotTrace::new(angles.iter().map(|a| RotPoint::new(*a, 10)).collect())
}

#[test]
fn rot_trace_trim() {
    let mut t = rot(&[1, 2, 3, 4, 5]);
    t.trim(1, 3);
    assert_eq!(t.points().iter().map(|p| p.radians()).collect::<Vec<_>>(), vec![2, 3]);
    let mut t = rot(&[1, 2, 3]);
    t.trim(2, 10);
    assert_eq!(t.points().iter().map(|p| p.radians()).collect::<Vec<_>>(), vec![3]);
    let mut t = rot(&[1, 2, 3]);
    t.trim(5, 10);
    assert_eq!(t.len(), 0);
}

#[test]
fn segments_of_fewer_than_two_give_nothing() {
    assert_eq!(RotTrace::from_segments(&vec![]).len(), 0);
    let one = vec![Segment { heading: 5, length: 3 }];
    assert_eq!(RotTrace::from_segments(&one).len(), 0);
}

#[test]
fn straight_segments_turn_nowhere() {
    // (0,0) -> (1,1) -> (5,5): both segments head at 45 degrees
    let segments = vec![
        Segment { heading: 785_398, length: 1_414 },
        Segment { heading: 785_398, length: 5_657 },
    ];
    let t = RotTrace::from_segments(&segments);
    assert_eq!(t.len(), 1);
    assert_eq!(t.points()[0].radians(), 0);
    assert_eq!(t.points()[0].distance(), 1_414);
}

#[test]
fn square_corners_turn_right_angles() {
    // (0,0) -> (0,5) -> (5,5) -> (5,0) -> (0,0)
    let segments = vec![
        Segment { heading: 1_570_796, length: 5_000 },
        Segment { heading: 0, length: 5_000 },
        Segment { heading: -1_570_796, length: 5_000 },
        Segment { heading: PI, length: 5_000 },
    ];
    let t = RotTrace::from_segments(&segments);
    assert_eq!(t.len(), 3);
    for p in t.points() {
        assert!((p.radians() + 1_570_796).abs() <= 1);
        assert_eq!(p.distance(), 5_000);
    }
}

#[test]
fn single_corner_spikes_only_there() {
    let segments = vec![
        Segment { heading: 0, length: 10 },
        Segment { heading: 0, length: 10 },
        Segment { heading: 1_570_796, length: 10 },
        Segment { heading: 1_570_796, length: 10 },
    ];
    let t = RotTrace::from_segments(&segments);
    let angles: Vec<i64> = t.points().iter().map(|p| p.radians()).collect();
    assert_eq!(angles, vec![0, 1_570_796, 0]);
}
