use gesture_recognition::controller::{CreateError, GestureController, State};
use gesture_recognition::fragment::{
    FingerKey, FingerKind, FingerSample, Fragment, Hand, HandManager, HandSample,
};
use gesture_recognition::model::Model;
use gesture_recognition::point::{Point3, RotPoint};
use gesture_recognition::store::TemplateStore;
use gesture_recognition::template::Template;
use gesture_recognition::trace::RotTrace;

fn finger(kind: FingerKind, extended: bool, x: i64) -> FingerSample {
    FingerSample { kind, extended, tip: Point3::new(x, 0, 0) }
}

fn hand(id: i32, fingers: Vec<FingerSample>) -> HandSample {
    HandSample { id, fingers }
}

fn uniform(angle: i64, count: usize) -> RotTrace {
    RotTrace::new(vec![RotPoint::new(angle, 10_000); count])
}

#[test]
fn states_gate_tracking_and_detection() {
    assert_eq!(State::default(), State::Normal);
    assert!(State::Normal.should_track());
    assert!(State::Recording.should_track());
    assert!(!State::Saving.should_track());
    assert!(State::Normal.should_detect());
    assert!(!State::Recording.should_detect());
    assert!(!State::Saving.should_detect());
}

#[test]
fn state_ids_and_names() {
    for s in [State::Normal, State::Recording, State::Saving] {
        assert_eq!(State::from_id(s.id()), Some(s));
    }
    assert_eq!(State::from_id(3), None);
    assert_eq!(State::Recording.name(), "recording");
    assert_eq!(State::Saving.id(), 2);
}

#[test]
fn absent_hands_are_dropped_in_the_same_frame() {
    let mut hands = HandManager::new();
    let frame = vec![
        hand(1, vec![finger(FingerKind::Index, true, 1)]),
        hand(2, vec![finger(FingerKind::Thumb, true, 2)]),
    ];
    hands.process_sensor_hand_list(State::Normal, &frame);
    assert_eq!(hands.len(), 2);
    let frame = vec![hand(2, vec![finger(FingerKind::Thumb, true, 3)])];
    hands.process_sensor_hand_list(State::Normal, &frame);
    assert_eq!(hands.len(), 1);
    assert!(hands.get(1).is_none());
    let h = hands.get(2).expect("hand 2");
    assert_eq!(h.fragment(FingerKind::Thumb).expect("thumb").raw().len(), 2);
    hands.process_sensor_hand_list(State::Normal, &vec![]);
    assert_eq!(hands.len(), 0);
}

#[test]
fn only_extended_fingers_are_tracked() {
    let mut hands = HandManager::new();
    let frame = vec![hand(
        5,
        vec![finger(FingerKind::Index, true, 1), finger(FingerKind::Middle, false, 2)],
    )];
    let keys = hands.process_sensor_hand_list(State::Recording, &frame);
    assert_eq!(keys, vec![FingerKey { hand: 5, finger: FingerKind::Index, detect: true }]);
    let h = hands.get(5).expect("hand 5");
    assert!(h.fragment(FingerKind::Middle).is_none());
    let keys = hands.process_sensor_hand_list(State::Saving, &frame);
    assert!(keys.is_empty());
    assert_eq!(hands.get(5).unwrap().fragment(FingerKind::Index).unwrap().raw().len(), 1);
}

#[test]
fn fragment_tracks_only_when_allowed() {
    let mut f = Fragment::new();
    assert!(f.process_sensor_finger(State::Normal, Point3::new(1, 2, 3)));
    assert!(!f.process_sensor_finger(State::Saving, Point3::new(4, 5, 6)));
    assert_eq!(f.raw().len(), 1);
    f.set_trace(uniform(0, 3));
    assert_eq!(f.model().len(), 3);
    f.clear();
    assert_eq!(f.raw().len(), 0);
    assert_eq!(f.model().len(), 0);
}

#[test]
fn controller_starts_normal_and_detects() {
    let mut store = TemplateStore::new();
    store.add(Template::from_parts(9, "circle".to_string(), Model::new(uniform(300_000, 20))));
    let mut c = GestureController::new(store);
    assert_eq!(c.state(), State::Normal);
    let frame = vec![hand(1, (0..5).map(|_| finger(FingerKind::Index, true, 7)).collect())];
    let keys = c.process_frame(&frame);
    assert_eq!(keys.len(), 5);
    assert!(c.update_model(keys[0], uniform(300_000, 20)));
    let frag = c.hands().get(1).unwrap().fragment(FingerKind::Index).unwrap();
    assert_eq!(frag.raw().len(), 2);
    assert_eq!(frag.model().len(), 0);
    let detected = c.flush_detected();
    assert_eq!(detected.len(), 1);
    assert_eq!(detected[0].id(), 9);
    assert!(c.flush_detected().is_empty());
}

#[test]
fn nothing_is_detected_while_recording() {
    let mut store = TemplateStore::new();
    store.add(Template::from_parts(9, "circle".to_string(), Model::new(uniform(300_000, 20))));
    let mut c = GestureController::new(store);
    c.set_state(State::Recording);
    let keys = c.process_frame(&vec![hand(1, vec![finger(FingerKind::Index, true, 1)])]);
    assert!(!c.update_model(keys[0], uniform(300_000, 20)));
    assert!(c.flush_detected().is_empty());
    assert_eq!(c.live_trace().len(), 1);
    assert_eq!(c.live_trace()[0].len(), 20);
}

#[test]
fn unknown_fragments_are_ignored() {
    let mut c = GestureController::new(TemplateStore::new());
    let key = FingerKey { hand: 3, finger: FingerKind::Index, detect: true };
    assert!(!c.update_model(key, uniform(0, 3)));
    assert!(c.live_trace().is_empty());
}

#[test]
fn create_needs_a_live_model() {
    let mut c = GestureController::new(TemplateStore::new());
    assert_eq!(c.create("x".to_string(), 0, 5), Err(CreateError::NoLiveModel));
    assert_eq!(c.store().len(), 0);
    let keys = c.process_frame(&vec![hand(
        1,
        vec![finger(FingerKind::Index, true, 1), finger(FingerKind::Thumb, true, 1)],
    )]);
    c.update_model(keys[0], uniform(100, 4));
    c.update_model(keys[1], uniform(200, 9));
    assert_eq!(c.create("mine".to_string(), 2, 6), Ok(()));
    let ts = c.store().to_templates();
    assert_eq!(ts.len(), 1);
    assert_eq!(ts[0].name(), "mine");
    assert_eq!(ts[0].model().len(), 4);
    assert_eq!(ts[0].model().trace().points()[0].radians(), 200);
    c.clear();
    assert_eq!(c.hands().len(), 0);
}

#[test]
fn detect_gesture_on_a_loose_fragment() {
    let mut store = TemplateStore::new();
    store.add(Template::from_parts(4, "line".to_string(), Model::new(uniform(0, 10))));
    let mut c = GestureController::new(store);
    let mut f = Fragment::new();
    for i in 0..6 {
        f.process_sensor_finger(State::Normal, Point3::new(i, 0, 0));
    }
    f.set_trace(uniform(1_000_000, 10));
    assert!(!c.detect_gesture(&mut f));
    assert_eq!(f.raw().len(), 6);
    f.set_trace(uniform(0, 10));
    assert!(c.detect_gesture(&mut f));
    assert_eq!(f.raw().len(), 2);
    assert_eq!(c.flush_detected()[0].name(), "line");
}

#[test]
fn hands_are_added_and_replaced_by_id() {
    let mut hands = HandManager::new();
    let i = hands.create_hand(4);
    assert_eq!(hands.create_hand(4), i);
    let mut h = Hand::new();
    h.process_sensor_hand(State::Normal, 4, &vec![finger(FingerKind::Ring, true, 1)]);
    hands.add(4, h);
    assert_eq!(hands.len(), 1);
    assert!(hands.get(4).unwrap().fragment(FingerKind::Ring).is_some());
    hands.add(6, Hand::new());
    assert_eq!(hands.len(), 2);
    assert!(hands.get(6).unwrap().fragment(FingerKind::Ring).is_none());
    assert!(hands.longest_model().is_some());
    hands.clear();
    assert!(hands.longest_model().is_none());
}
