use gesture_recognition::builtin::builtin_templates;
use gesture_recognition::model::Model;
use gesture_recognition::point::RotPoint;
use gesture_recognition::store::TemplateStore;
use gesture_recognition::template::Template;
use gesture_recognition::trace::RotTrace;

fn uniform(angle: i64, count: usize) -> Model {
    Model::new(RotTrace::new(vec![RotPoint::new(angle, 10_000); count]))
}

fn named(id: u32, name: &str, m: Model) -> Template {
    Template::from_parts(id, name.to_string(), m)
}

#[test]
fn empty_store_finds_nothing() {
    let store = TemplateStore::new();
    assert!(store.is_empty());
    assert!(store.find_matching(&uniform(300_000, 20)).is_none());
}

#[test]
fn the_unique_match_is_found() {
    let mut store = TemplateStore::new();
    store.add(named(1, "left", uniform(-300_000, 20)));
    store.add(named(2, "right", uniform(300_000, 20)));
    store.add(named(3, "straight", uniform(0, 20)));
    let found = store.find_matching(&uniform(300_000, 20)).expect("a match");
    assert_eq!(found.id(), 2);
    assert_eq!(found.name(), "right");
    assert!(store.find_matching(&uniform(1_500_000, 20)).is_none());
}

#[test]
fn one_of_several_matches_is_found() {
    let mut store = TemplateStore::new();
    store.add(named(1, "a", uniform(300_000, 20)));
    store.add(named(2, "b", uniform(-300_000, 20)));
    store.add(named(3, "c", uniform(300_000, 10)));
    let found = store.find_matching(&uniform(300_000, 20)).expect("a match");
    assert!(found.id() == 1 || found.id() == 3);
}

#[test]
fn delete_removes_only_that_id() {
    let mut store = TemplateStore::new();
    store.add_list(vec![
        named(1, "a", uniform(0, 3)),
        named(2, "b", uniform(0, 3)),
        named(1, "c", uniform(0, 3)),
    ]);
    store.delete(1);
    let left = store.to_templates();
    assert_eq!(left.len(), 1);
    assert_eq!(left[0].id(), 2);
    store.delete(42);
    assert_eq!(store.len(), 1);
    store.delete_all();
    assert!(store.is_empty());
}

#[test]
fn replacing_and_reading_back_templates() {
    let list = vec![named(7, "x", uniform(10, 4)), named(8, "y", uniform(-10, 2))];
    let mut store = TemplateStore::new();
    store.add(named(1, "old", uniform(0, 1)));
    store.set_templates(list);
    let back = store.to_templates();
    assert_eq!(back.len(), 2);
    assert_eq!((back[0].id(), back[0].name()), (7, "x"));
    assert_eq!((back[1].id(), back[1].name()), (8, "y"));
    assert_eq!(back[0].model().len(), 4);
    assert_eq!(back[1].model().trace().points()[0].radians(), -10);
}

#[test]
fn new_templates_get_an_id() {
    let t = Template::new("n".to_string(), uniform(0, 2));
    assert_eq!(t.name(), "n");
    assert_eq!(t.model().len(), 2);
    let copy = t.copied();
    assert_eq!(copy.id(), t.id());
}

#[test]
fn builtin_templates_are_listed() {
    let list = builtin_templates();
    assert_eq!(list.len(), 10);
    assert_eq!(list[0].name(), "Long straight line");
    assert_eq!(list[0].model().len(), 40);
    assert_eq!(list[5].name(), "Triangle clockwise");
    assert_eq!(list[5].model().len(), 47);
    let turns: Vec<usize> = list[5]
        .model()
        .trace()
        .points()
        .iter()
        .enumerate()
        .filter(|(_, p)| p.radians() != 0)
        .map(|(i, _)| i)
        .collect();
    assert_eq!(turns, vec![15, 31]);
    assert_eq!(list[5].model().trace().points()[15].radians(), -2_094_395);
    assert_eq!(list[7].model().len(), 27);
    let mut store = TemplateStore::new();
    store.add_builtin();
    assert_eq!(store.len(), 10);
}
