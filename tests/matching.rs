use gesture_recognition::model::Model;
use gesture_recognition::point::RotPoint;
use gesture_recognition::trace::RotTrace;

fn model(angles: &[i64]) -> Model {
    Model::new(RotTrace::new(angles.iter().map(|a| RotPoint::new(*a, 10_000)).collect()))
}

fn uniform(angle: i64, count: usize) -> Model {
    model(&vec![angle; count])
}

#[test]
fn a_shape_matches_itself() {
    let t = uniform(300_000, 20);
    assert!(t.matches(&t));
    let wave = model(&[100_000, -50_000, 0, 200_000, 10_000, -300_000, 50_000]);
    assert!(wave.matches(&wave));
    let empty = Model::empty();
    assert!(empty.matches(&empty));
}

#[test]
fn an_empty_template_matches_anything() {
    assert!(Model::empty().matches(&uniform(300_000, 5)));
}

#[test]
fn a_template_is_found_at_the_end_of_a_longer_trace() {
    let t = uniform(300_000, 20);
    let mut angles = vec![0i64; 10];
    angles.extend(vec![300_000i64; 20]);
    assert!(t.matches(&model(&angles)));
}

#[test]
fn diverging_shapes_do_not_match() {
    let t = uniform(300_000, 20);
    assert!(!t.matches(&uniform(-300_000, 20)));
    assert!(!t.matches(&uniform(0, 20)));
    assert!(!t.matches(&Model::empty()));
}

#[test]
fn two_unmatched_points_reject() {
    // cumulative angles of the template: 0.1, 2.1, 2.2; the other stays at 0.1 per point
    let t = model(&[100_000, 2_000_000, 100_000]);
    let other = uniform(100_000, 3);
    assert!(!t.matches(&other));
}

#[test]
fn one_unmatched_point_is_tolerated() {
    // cumulative angles of the template: 0.1, 0.2, 0.3, 2.3
    let t = model(&[2_000_000, 100_000, 100_000, 100_000]);
    let other = model(&[100_000, 100_000, 100_000, 100_000]);
    assert!(t.matches(&other));
}

#[test]
fn slower_tempo_within_the_factor_matches() {
    let t = uniform(300_000, 20);
    assert!(t.matches(&uniform(240_000, 25)));
    assert!(t.matches(&uniform(200_000, 30)));
    assert!(t.matches(&uniform(171_429, 35)));
}

#[test]
fn much_slower_tempo_is_rejected() {
    let t = uniform(300_000, 20);
    assert!(!t.matches(&uniform(120_000, 50)));
    assert!(!t.matches(&uniform(100_000, 60)));
}

#[test]
fn faster_tempo_within_the_factor_matches() {
    let t = uniform(300_000, 20);
    assert!(t.matches(&uniform(400_000, 15)));
    assert!(t.matches(&uniform(500_000, 12)));
}

#[test]
fn much_faster_tempo_is_rejected() {
    let t = uniform(300_000, 20);
    assert!(!t.matches(&uniform(600_000, 10)));
}

#[test]
fn model_trim_and_clear() {
    let mut m = model(&[1, 2, 3, 4]);
    m.trim(1, 3);
    assert_eq!(m.len(), 2);
    assert_eq!(m.trace().points()[0].radians(), 2);
    m.clear();
    assert_eq!(m.len(), 0);
    let mut m = model(&[1, 2, 3]);
    m.trace_mut().clear();
    assert_eq!(m.len(), 0);
}

#[test]
fn short_bounded_traces_match_themselves() {
    let t = model(&[2_000_000, -1_000_000, 500_000, 0, -600_000]);
    assert!(t.matches(&t));
}

#[test]
fn a_long_straight_run_before_a_turn_misses_itself() {
    // The search window trails the template index by up to three sevenths of
    // it, so a turn after thirty straight points falls outside the window.
    let mut angles = vec![0i64; 30];
    angles.push(1_000_000);
    angles.extend(vec![0i64; 30]);
    let t = model(&angles);
    assert!(!t.matches(&t));
}
