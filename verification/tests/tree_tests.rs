use terminator::element::{Rect, UIElement};
use terminator::tree::UiTree;

fn named(role: &str, name: &str) -> UIElement {
    let mut e = UIElement::with_role(role);
    e.name = Some(name.to_string());
    e
}

#[test]
fn new_tree_has_only_its_root() {
    let t = UiTree::new(named("desktop", "root"));
    assert_eq!(t.len(), 1);
    assert_eq!(t.parent(0), None);
    assert!(t.children(0).is_empty());
    assert_eq!(t.element(0).name, Some("root".to_string()));
}

#[test]
fn add_child_appends_and_links() {
    let t = UiTree::new(named("desktop", "root"));
    let (t, a) = t.add_child(0, named("window", "a"));
    let (t, b) = t.add_child(0, named("window", "b"));
    let (t, c) = t.add_child(1, named("button", "c"));
    assert_eq!((a, b, c), (Some(1), Some(2), Some(3)));
    assert_eq!(t.len(), 4);
    assert_eq!(t.children(0), &vec![1, 2]);
    assert_eq!(t.children(1), &vec![3]);
    assert!(t.children(2).is_empty());
    assert_eq!(t.parent(3), Some(1));
    assert_eq!(t.parent(2), Some(0));
    assert_eq!(t.element(3).name, Some("c".to_string()));
}

#[test]
fn add_child_under_a_missing_parent_changes_nothing() {
    let t = UiTree::new(named("desktop", "root"));
    let (t, r) = t.add_child(1, named("window", "a"));
    assert_eq!(r, None);
    assert_eq!(t.len(), 1);
    let (t, r) = t.add_child(7, named("window", "a"));
    assert_eq!(r, None);
    assert_eq!(t.len(), 1);
}

#[test]
fn get_is_none_outside_the_tree() {
    let t = UiTree::new(named("desktop", "root"));
    assert!(t.get(0).is_some());
    assert!(t.get(1).is_none());
}

#[test]
fn clone_of_an_element_keeps_every_attribute() {
    let mut e = named("edit", "field");
    e.id = Some("42".to_string());
    e.automation_id = Some("aid".to_string());
    e.class_name = Some("cls".to_string());
    e.value = Some("text".to_string());
    e.bounds = Some(Rect { x: 1, y: 2, width: 3, height: 4 });
    e.enabled = Some(true);
    e.focused = Some(false);
    e.process_id = Some(77);
    let c = e.clone();
    assert_eq!(c.id, e.id);
    assert_eq!(c.role, Some("edit".to_string()));
    assert_eq!(c.name, e.name);
    assert_eq!(c.automation_id, e.automation_id);
    assert_eq!(c.class_name, e.class_name);
    assert_eq!(c.value, e.value);
    assert_eq!(c.bounds, e.bounds);
    assert_eq!(c.enabled, Some(true));
    assert_eq!(c.focused, Some(false));
    assert_eq!(c.process_id, Some(77));
}

#[test]
fn with_role_sets_only_the_role() {
    let e = UIElement::with_role("button");
    assert_eq!(e.role, Some("button".to_string()));
    assert_eq!(e.name, None);
    assert_eq!(e.bounds, None);
    assert_eq!(e.process_id, None);
}
