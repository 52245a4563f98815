use std::cell::Cell;
use terminator::element::UIElement;
use terminator::errors::{AutomationError, ErrorKind};
use terminator::locator::{poll_step, Locator, PollStep, DEFAULT_TIMEOUT_MS, POLL_INTERVAL_MS};
use terminator::selector::Selector;
use terminator::platforms::AccessibilityEngine;
use terminator::tree::UiTree;

fn named(role: &str, name: &str) -> UIElement {
    let mut e = UIElement::with_role(role);
    e.name = Some(name.to_string());
    e
}

// desktop                      0
//   window "main"              1
//     button "OK"              2
//     pane "left"              3
//       button "Apply"         4
//       button "OK"            5
//     button "Cancel"          6
//   window "about"             7
//     button "OK"              8
fn sample_tree() -> UiTree {
    let t = UiTree::new(named("desktop", "desktop"));
    let (t, _) = t.add_child(0, named("window", "main"));
    let (t, _) = t.add_child(1, named("button", "OK"));
    let (t, _) = t.add_child(1, named("pane", "left"));
    let (t, _) = t.add_child(3, named("button", "Apply"));
    let (t, _) = t.add_child(3, named("button", "OK"));
    let (t, _) = t.add_child(1, named("button", "Cancel"));
    let (t, _) = t.add_child(0, named("window", "about"));
    let (t, _) = t.add_child(7, named("button", "OK"));
    t
}

// The same elements, added in another order: the pre-order no longer
// follows the indices.
//
// desktop                      0
//   window "main"              1
//     button "OK"              3
//     pane "left"              4
//       button "Apply"         6
//   window "about"             2
//     button "OK"              5
fn interleaved_tree() -> UiTree {
    let t = UiTree::new(named("desktop", "desktop"));
    let (t, _) = t.add_child(0, named("window", "main"));
    let (t, _) = t.add_child(0, named("window", "about"));
    let (t, _) = t.add_child(1, named("button", "OK"));
    let (t, _) = t.add_child(1, named("pane", "left"));
    let (t, _) = t.add_child(2, named("button", "OK"));
    let (t, _) = t.add_child(4, named("button", "Apply"));
    t
}

/// Shows an empty desktop for the first `appears_after` snapshots, then
/// the sample tree. Counts what is asked of it.
struct Scripted {
    appears_after: usize,
    snapshots: Cell<usize>,
    paused_ms: Cell<u64>,
    scoped: Cell<usize>,
}

impl Scripted {
    fn new(appears_after: usize) -> Scripted {
        Scripted {
            appears_after,
            snapshots: Cell::new(0),
            paused_ms: Cell::new(0),
            scoped: Cell::new(0),
        }
    }
}

impl AccessibilityEngine for Scripted {
    fn get_root_element(&self) -> UIElement {
        named("desktop", "desktop")
    }
    fn get_focused_element(&self) -> Result<UIElement, AutomationError> {
        Err(AutomationError::NotFound("focus".to_string()))
    }
    fn get_applications(&self) -> Result<Vec<UIElement>, AutomationError> {
        Ok(vec![])
    }
    fn get_application_by_name(&self, name: &str) -> Result<UIElement, AutomationError> {
        Err(AutomationError::NotFound(name.to_string()))
    }
    fn open_application(&self, _name: &str) -> Result<(), AutomationError> {
        Ok(())
    }
    fn activate_application(&self, _name: &str) -> Result<(), AutomationError> {
        Ok(())
    }
    fn open_url(&self, _url: &str, _browser: Option<&str>) -> Result<(), AutomationError> {
        Ok(())
    }
    fn open_file(&self, _path: &str) -> Result<(), AutomationError> {
        Ok(())
    }
    fn activate_browser_window_by_title(&self, _title: &str) -> Result<(), AutomationError> {
        Ok(())
    }
    fn element_at_point(&self, _x: i32, _y: i32) -> Option<UIElement> {
        None
    }
    fn snapshot(&self, root: Option<&UIElement>) -> UiTree {
        let taken = self.snapshots.get();
        self.snapshots.set(taken + 1);
        if root.is_some() {
            self.scoped.set(self.scoped.get() + 1);
        }
        if taken < self.appears_after {
            UiTree::new(named("desktop", "desktop"))
        } else {
            sample_tree()
        }
    }
    fn pause(&self, millis: u64) {
        self.paused_ms.set(self.paused_ms.get() + millis);
    }
}

fn names(tree: &UiTree, found: &[usize]) -> Vec<String> {
    found.iter().map(|&i| tree.element(i).name.clone().unwrap()).collect()
}

#[test]
fn all_in_returns_the_matches_in_pre_order() {
    let engine = Scripted::new(0);
    let tree = sample_tree();
    let ok = Locator::new(&engine, "role=button AND name=OK");
    assert_eq!(ok.all_in(&tree), vec![2, 5, 8]);
    let buttons = Locator::new(&engine, "role=button");
    assert_eq!(buttons.all_in(&tree), vec![2, 4, 5, 6, 8]);
    assert_eq!(names(&tree, &buttons.all_in(&tree)), vec!["OK", "Apply", "OK", "Cancel", "OK"]);
    assert_eq!(engine.snapshots.get(), 0);
}

#[test]
fn pre_order_is_not_index_order() {
    let engine = Scripted::new(0);
    let tree = interleaved_tree();
    let buttons = Locator::new(&engine, "role=button");
    assert_eq!(buttons.all_in(&tree), vec![3, 6, 5]);
    assert_eq!(buttons.first_in(&tree), Some(3));
    let windows = Locator::new(&engine, "role=window");
    assert_eq!(windows.all_in(&tree), vec![1, 2]);
}

#[test]
fn all_in_is_idempotent() {
    let engine = Scripted::new(0);
    let tree = sample_tree();
    let l = Locator::new(&engine, "role=button");
    let once = l.all_in(&tree);
    let twice = l.all_in(&tree);
    assert_eq!(once, twice);
}

#[test]
fn all_in_matches_the_root_too() {
    let engine = Scripted::new(0);
    let tree = sample_tree();
    let l = Locator::new(&engine, "role=desktop");
    assert_eq!(l.all_in(&tree), vec![0]);
}

#[test]
fn all_in_of_nothing_is_empty() {
    let engine = Scripted::new(0);
    let tree = sample_tree();
    let l = Locator::new(&engine, "role=slider");
    assert!(l.all_in(&tree).is_empty());
    assert_eq!(l.first_in(&tree), None);
}

#[test]
fn first_in_is_the_first_of_all_in() {
    let engine = Scripted::new(0);
    let tree = sample_tree();
    for text in ["role=button", "name=OK", "role=pane", "name=Cancel", "role=window", "name=x"] {
        let l = Locator::new(&engine, text);
        assert_eq!(l.first_in(&tree), l.all_in(&tree).first().copied(), "{}", text);
    }
}

#[test]
fn chain_looks_inside_the_matches_of_the_link_before() {
    let engine = Scripted::new(0);
    let tree = sample_tree();
    let l = Locator::new(&engine, "role=window AND name=about").locator("role=button");
    assert_eq!(l.all_in(&tree), vec![8]);
    let l = Locator::new(&engine, "role=pane").locator("name=OK");
    assert_eq!(l.all_in(&tree), vec![5]);
    assert_eq!(l.first_in(&tree), Some(5));
    let l = Locator::new(&engine, "role=window").locator("role=button AND name=OK");
    assert_eq!(l.all_in(&tree), vec![2, 5, 8]);
    assert_eq!(l.first_in(&tree), Some(2));
}

#[test]
fn chain_of_three_links() {
    let engine = Scripted::new(0);
    let tree = sample_tree();
    let l = Locator::new(&engine, "role=window").locator("role=pane").locator("role=button");
    assert_eq!(l.all_in(&tree), vec![4, 5]);
    assert_eq!(l.description, "role=window >> role=pane >> role=button");
}

#[test]
fn chain_with_an_empty_link_resolves_to_nothing() {
    let engine = Scripted::new(0);
    let tree = sample_tree();
    let l = Locator::new(&engine, "role=slider").locator("role=button");
    assert!(l.all_in(&tree).is_empty());
    assert_eq!(l.first_in(&tree), None);
}

#[test]
fn chain_link_matches_the_parent_match_itself() {
    let engine = Scripted::new(0);
    let tree = sample_tree();
    let l = Locator::new(&engine, "role=pane").locator("role=pane");
    assert_eq!(l.all_in(&tree), vec![3]);
}

#[test]
fn first_returns_the_first_match_at_once() {
    let engine = Scripted::new(0);
    let l = Locator::new(&engine, "role=button AND name=\"OK\"");
    let e = l.first(Some(2000)).unwrap();
    assert_eq!(e.role, Some("button".to_string()));
    assert_eq!(e.name, Some("OK".to_string()));
    assert_eq!(engine.snapshots.get(), 1);
    assert_eq!(engine.paused_ms.get(), 0);
}

#[test]
fn first_times_out_after_the_budget() {
    let engine = Scripted::new(0);
    let l = Locator::new(&engine, "role=button AND name=\"Cancelled\"");
    match l.first(Some(1000)) {
        Err(AutomationError::Timeout(m)) => assert_eq!(m, "role=button AND name=\"Cancelled\""),
        other => panic!("expected a timeout, got {:?}", other),
    }
    assert_eq!(engine.paused_ms.get(), 1000);
    assert_eq!(engine.snapshots.get(), 11);
}

#[test]
fn wait_is_at_least_the_budget_and_less_than_one_interval_more() {
    for budget in [0u64, 1, 99, 100, 101, 250, 1000, 1234] {
        let engine = Scripted::new(usize::MAX);
        let l = Locator::new(&engine, "role=button");
        let r = l.resolve_with_retry(Some(budget), true);
        assert!(r.found.is_empty());
        assert!(r.waited_ms >= budget as u128, "budget {}", budget);
        assert!(r.waited_ms < (budget + POLL_INTERVAL_MS) as u128, "budget {}", budget);
        assert_eq!(r.waited_ms, engine.paused_ms.get() as u128);
        let pauses = (budget + POLL_INTERVAL_MS - 1) / POLL_INTERVAL_MS;
        assert_eq!(r.waited_ms, (pauses * POLL_INTERVAL_MS) as u128);
        assert_eq!(engine.snapshots.get() as u64, pauses + 1);
    }
}

#[test]
fn zero_budget_looks_once() {
    let engine = Scripted::new(1);
    let l = Locator::new(&engine, "role=button");
    assert!(matches!(l.first(Some(0)), Err(AutomationError::Timeout(_))));
    assert_eq!(engine.snapshots.get(), 1);
    assert_eq!(engine.paused_ms.get(), 0);
}

#[test]
fn first_waits_for_an_element_that_appears_later() {
    let engine = Scripted::new(3);
    let l = Locator::new(&engine, "name=Apply");
    let e = l.first(Some(1000)).unwrap();
    assert_eq!(e.name, Some("Apply".to_string()));
    assert_eq!(engine.snapshots.get(), 4);
    assert_eq!(engine.paused_ms.get(), 300);
}

#[test]
fn element_that_appears_at_the_last_attempt_is_found() {
    let engine = Scripted::new(3);
    let l = Locator::new(&engine, "name=Apply");
    assert!(l.first(Some(300)).is_ok());
    let engine = Scripted::new(4);
    let l = Locator::new(&engine, "name=Apply");
    assert!(l.first(Some(300)).is_err());
}

#[test]
fn default_budget_is_used_where_none_is_named() {
    let engine = Scripted::new(usize::MAX);
    let l = Locator::new(&engine, "role=button");
    assert_eq!(l.timeout_ms, DEFAULT_TIMEOUT_MS);
    assert!(l.first(None).is_err());
    assert_eq!(engine.paused_ms.get(), DEFAULT_TIMEOUT_MS);
    let engine = Scripted::new(usize::MAX);
    let l = Locator::new(&engine, "role=button").with_timeout(200);
    assert!(l.first(None).is_err());
    assert_eq!(engine.paused_ms.get(), 200);
    assert!(l.first(Some(500)).is_err());
    assert_eq!(engine.paused_ms.get(), 700);
}

#[test]
fn all_returns_every_match_in_order() {
    let engine = Scripted::new(0);
    let l = Locator::new(&engine, "role=button");
    let found = l.all(Some(1000)).unwrap();
    let found: Vec<Option<String>> = found.into_iter().map(|e| e.name).collect();
    let expected: Vec<Option<String>> =
        ["OK", "Apply", "OK", "Cancel", "OK"].iter().map(|n| Some(n.to_string())).collect();
    assert_eq!(found, expected);
    assert_eq!(engine.snapshots.get(), 1);
}

#[test]
fn all_of_nothing_is_empty_after_the_budget() {
    let engine = Scripted::new(0);
    let l = Locator::new(&engine, "role=slider");
    assert!(l.all(Some(300)).unwrap().is_empty());
    assert_eq!(engine.paused_ms.get(), 300);
    assert_eq!(engine.snapshots.get(), 4);
}

#[test]
fn all_waits_for_a_first_match() {
    let engine = Scripted::new(2);
    let l = Locator::new(&engine, "name=OK");
    assert_eq!(l.all(Some(1000)).unwrap().len(), 3);
    assert_eq!(engine.paused_ms.get(), 200);
}

#[test]
fn invalid_selector_fails_without_asking_the_engine() {
    let engine = Scripted::new(0);
    let l = Locator::new(&engine, "role=button AND name=\"OK");
    assert!(!l.is_valid());
    match l.first(Some(1000)) {
        Err(AutomationError::InvalidSelector(m)) => assert_eq!(m, "role=button AND name=\"OK"),
        other => panic!("expected an invalid selector, got {:?}", other),
    }
    match l.all(Some(1000)) {
        Err(e) => assert_eq!(e.kind(), ErrorKind::InvalidSelector),
        Ok(_) => panic!("expected an invalid selector"),
    }
    assert_eq!(engine.snapshots.get(), 0);
    assert_eq!(engine.paused_ms.get(), 0);
}

#[test]
fn invalid_link_makes_the_chain_invalid() {
    let engine = Scripted::new(0);
    let l = Locator::new(&engine, "role=window").locator("what");
    assert!(!l.is_valid());
    match l.first(Some(100)) {
        Err(AutomationError::InvalidSelector(m)) => assert_eq!(m, "what"),
        other => panic!("expected an invalid selector, got {:?}", other),
    }
    let l = Locator::new(&engine, "bad one").locator("role=button").locator("worse");
    match l.first(Some(100)) {
        Err(AutomationError::InvalidSelector(m)) => assert_eq!(m, "bad one"),
        other => panic!("expected an invalid selector, got {:?}", other),
    }
    assert_eq!(engine.snapshots.get(), 0);
}

#[test]
fn scope_is_handed_to_the_engine() {
    let engine = Scripted::new(0);
    let l = Locator::new(&engine, "role=button").within(named("window", "main"));
    assert!(l.first(Some(100)).is_ok());
    assert_eq!(engine.scoped.get(), 1);
    let inner = l.locator("name=OK");
    assert!(inner.first(Some(100)).is_ok());
    assert_eq!(engine.scoped.get(), 2);
    let unscoped = Locator::new(&engine, "role=button");
    assert!(unscoped.first(Some(100)).is_ok());
    assert_eq!(engine.scoped.get(), 2);
}

#[test]
fn resolution_names_nodes_of_its_own_snapshot() {
    let engine = Scripted::new(1);
    let l = Locator::new(&engine, "role=window").locator("role=button");
    let r = l.resolve_with_retry(Some(500), false);
    assert_eq!(r.found, vec![2, 4, 5, 6, 8]);
    assert_eq!(r.tree.len(), 9);
    assert_eq!(r.waited_ms, 100);
    let r = l.resolve_with_retry(Some(500), true);
    assert_eq!(r.found, vec![2]);
    assert_eq!(r.waited_ms, 0);
}

#[test]
fn selector_of_no_conditions_walks_the_whole_tree_once() {
    let engine = Scripted::new(0);
    let mut l = Locator::new(&engine, "role=button");
    l.chain = vec![Selector { conditions: vec![] }];
    assert_eq!(l.all_in(&sample_tree()), vec![0, 1, 2, 3, 4, 5, 6, 7, 8]);
    assert_eq!(l.all_in(&interleaved_tree()), vec![0, 1, 3, 4, 6, 2, 5]);
    let mut sorted = l.all_in(&interleaved_tree());
    sorted.sort();
    assert_eq!(sorted, vec![0, 1, 2, 3, 4, 5, 6]);
}

#[test]
fn poll_step_decides_by_result_and_budget() {
    assert_eq!(poll_step(true, 0, 1000), PollStep::Done);
    assert_eq!(poll_step(true, 5000, 1000), PollStep::Done);
    assert_eq!(poll_step(false, 0, 1000), PollStep::Wait(POLL_INTERVAL_MS));
    assert_eq!(poll_step(false, 999, 1000), PollStep::Wait(100));
    assert_eq!(poll_step(false, 1000, 1000), PollStep::GiveUp);
    assert_eq!(poll_step(false, 1001, 1000), PollStep::GiveUp);
    assert_eq!(poll_step(false, 0, 0), PollStep::GiveUp);
    assert_eq!(poll_step(false, u128::MAX, u64::MAX), PollStep::GiveUp);
    assert_eq!(poll_step(false, (u64::MAX - 1) as u128, u64::MAX), PollStep::Wait(100));
}

#[test]
fn constants_of_the_protocol() {
    assert_eq!(POLL_INTERVAL_MS, 100);
    assert_eq!(DEFAULT_TIMEOUT_MS, 5000);
}
