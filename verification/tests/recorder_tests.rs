use terminator::element::Rect;
use terminator::errors::WorkflowRecorderError;
use terminator::events::{
    KeyboardEvent, MouseButton, MouseEvent, MouseEventType, Position, UiElement, WorkflowEvent,
    WorkflowRecorderConfig,
};
use terminator::recorder::{
    decode_keyboard, decode_mouse, forward_keyboard, forward_mouse, hierarchy_path, hook_outcome,
    is_main_window, push_path_node,
    HookOutcome, keyboard_event, mouse_event, path_token,
    rect_from_edges, EventHookSource, MouseAction, MouseTracker, MoveSampler, PathNode,
    WorkflowRecorder, MAX_HIERARCHY_DEPTH, MOVE_SAMPLING, WM_KEYDOWN, WM_KEYUP, WM_LBUTTONDOWN,
    WM_LBUTTONUP, WM_MBUTTONDOWN, WM_MBUTTONUP, WM_MOUSEMOVE, WM_MOUSEWHEEL, WM_RBUTTONDOWN,
    WM_RBUTTONUP,
};

fn config(keyboard: bool, mouse: bool, capture: bool) -> WorkflowRecorderConfig {
    WorkflowRecorderConfig {
        record_keyboard: keyboard,
        record_mouse: mouse,
        capture_ui_elements: capture,
    }
}

#[test]
fn message_codes() {
    assert_eq!(WM_KEYDOWN, 256);
    assert_eq!(WM_KEYUP, 257);
    assert_eq!(WM_MOUSEMOVE, 512);
    assert_eq!(WM_LBUTTONDOWN, 513);
    assert_eq!(WM_LBUTTONUP, 514);
    assert_eq!(WM_RBUTTONDOWN, 516);
    assert_eq!(WM_RBUTTONUP, 517);
    assert_eq!(WM_MBUTTONDOWN, 519);
    assert_eq!(WM_MBUTTONUP, 520);
    assert_eq!(WM_MOUSEWHEEL, 522);
    assert_eq!(MOVE_SAMPLING, 10);
}

#[test]
fn key_down_of_a_plain_key() {
    assert_eq!(
        decode_keyboard(WM_KEYDOWN, 65, 0),
        Some(KeyboardEvent {
            key_code: 65,
            is_key_down: true,
            ctrl_pressed: false,
            alt_pressed: false,
            shift_pressed: false,
            win_pressed: false,
        })
    );
}

#[test]
fn key_up_of_a_plain_key() {
    let e = decode_keyboard(WM_KEYUP, 65, 0).unwrap();
    assert!(!e.is_key_down);
    assert_eq!(e.key_code, 65);
}

#[test]
fn other_keyboard_messages_give_no_event() {
    assert_eq!(decode_keyboard(0x0104, 65, 0), None);
    assert_eq!(decode_keyboard(0x0105, 65, 0), None);
    assert_eq!(decode_keyboard(0, 17, 0x8), None);
    assert_eq!(keyboard_event(0x0104, 65, 0), None);
}

#[test]
fn control_key_down_is_flagged_without_the_flag_bit() {
    for code in [17u32, 162, 163] {
        let e = decode_keyboard(WM_KEYDOWN, code, 0).unwrap();
        assert!(e.ctrl_pressed, "key code {}", code);
        assert!(!e.alt_pressed && !e.shift_pressed && !e.win_pressed);
    }
}

#[test]
fn alt_and_shift_keys_are_flagged_by_their_codes() {
    for code in [18u32, 164, 165] {
        let e = decode_keyboard(WM_KEYDOWN, code, 0).unwrap();
        assert!(e.alt_pressed && !e.ctrl_pressed && !e.shift_pressed);
    }
    for code in [16u32, 160, 161] {
        let e = decode_keyboard(WM_KEYUP, code, 0).unwrap();
        assert!(e.shift_pressed && !e.ctrl_pressed && !e.alt_pressed);
    }
    for code in [91u32, 92] {
        let e = decode_keyboard(WM_KEYDOWN, code, 0).unwrap();
        assert!(e.win_pressed && !e.ctrl_pressed);
    }
}

#[test]
fn modifier_flag_bits() {
    let e = decode_keyboard(WM_KEYDOWN, 65, 0x8).unwrap();
    assert!(e.ctrl_pressed && !e.alt_pressed && !e.shift_pressed);
    let e = decode_keyboard(WM_KEYDOWN, 65, 0x20).unwrap();
    assert!(!e.ctrl_pressed && e.alt_pressed && !e.shift_pressed);
    let e = decode_keyboard(WM_KEYDOWN, 65, 0x1).unwrap();
    assert!(!e.ctrl_pressed && !e.alt_pressed && e.shift_pressed);
    let e = decode_keyboard(WM_KEYDOWN, 65, 0x29).unwrap();
    assert!(e.ctrl_pressed && e.alt_pressed && e.shift_pressed && !e.win_pressed);
    let e = decode_keyboard(WM_KEYDOWN, 65, 0x10 | 0x80).unwrap();
    assert!(!e.ctrl_pressed && !e.alt_pressed && !e.shift_pressed);
}

#[test]
fn keyboard_event_wraps_the_decoded_event() {
    let k = decode_keyboard(WM_KEYDOWN, 162, 0).unwrap();
    assert_eq!(keyboard_event(WM_KEYDOWN, 162, 0), Some(WorkflowEvent::Keyboard(k)));
}

#[test]
fn mouse_message_table() {
    assert_eq!(decode_mouse(WM_LBUTTONDOWN), Some((MouseEventType::Down, MouseButton::Left)));
    assert_eq!(decode_mouse(WM_LBUTTONUP), Some((MouseEventType::Up, MouseButton::Left)));
    assert_eq!(decode_mouse(WM_RBUTTONDOWN), Some((MouseEventType::Down, MouseButton::Right)));
    assert_eq!(decode_mouse(WM_RBUTTONUP), Some((MouseEventType::Up, MouseButton::Right)));
    assert_eq!(decode_mouse(WM_MBUTTONDOWN), Some((MouseEventType::Down, MouseButton::Middle)));
    assert_eq!(decode_mouse(WM_MBUTTONUP), Some((MouseEventType::Up, MouseButton::Middle)));
    assert_eq!(decode_mouse(WM_MOUSEMOVE), Some((MouseEventType::Move, MouseButton::Left)));
    assert_eq!(decode_mouse(WM_MOUSEWHEEL), Some((MouseEventType::Wheel, MouseButton::Middle)));
    assert_eq!(decode_mouse(0x0203), None);
    assert_eq!(decode_mouse(0x0206), None);
    assert_eq!(decode_mouse(0), None);
}

#[test]
fn of_a_hundred_moves_ten_are_forwarded() {
    let mut tracker = MouseTracker::new(config(true, true, true));
    let mut forwarded = Vec::new();
    for n in 1..=100 {
        match tracker.on_mouse(WM_MOUSEMOVE, n, -n) {
            MouseAction::Forward { event_type, button, position, capture_element } => {
                assert_eq!(event_type, MouseEventType::Move);
                assert_eq!(button, MouseButton::Left);
                assert_eq!(position, Position { x: n, y: -n });
                assert!(!capture_element);
                forwarded.push(n);
            }
            MouseAction::Ignore => {}
        }
    }
    assert_eq!(forwarded, vec![10, 20, 30, 40, 50, 60, 70, 80, 90, 100]);
}

#[test]
fn sampler_lets_every_tenth_move_through() {
    let mut s = MoveSampler::new();
    let mut count = 0;
    for n in 1..=1005u32 {
        let through = s.lets_through(MouseEventType::Move);
        assert_eq!(through, n % 10 == 0, "move {}", n);
        if through {
            count += 1;
        }
    }
    assert_eq!(count, 100);
}

#[test]
fn sampler_never_holds_back_a_button_or_the_wheel() {
    let mut s = MoveSampler::new();
    for _ in 0..7 {
        assert!(!s.lets_through(MouseEventType::Move));
    }
    for _ in 0..50 {
        assert!(s.lets_through(MouseEventType::Down));
        assert!(s.lets_through(MouseEventType::Up));
        assert!(s.lets_through(MouseEventType::Wheel));
    }
    assert!(!s.lets_through(MouseEventType::Move));
    assert!(!s.lets_through(MouseEventType::Move));
    assert!(s.lets_through(MouseEventType::Move));
}

#[test]
fn buttons_between_moves_are_all_forwarded_and_not_counted() {
    let mut tracker = MouseTracker::new(config(false, true, false));
    let mut moves = 0;
    let mut buttons = 0;
    for n in 0..100 {
        if let MouseAction::Forward { .. } = tracker.on_mouse(WM_MOUSEMOVE, n, n) {
            moves += 1;
        }
        for message in [WM_LBUTTONDOWN, WM_LBUTTONUP, WM_MOUSEWHEEL, WM_RBUTTONDOWN] {
            if let MouseAction::Forward { .. } = tracker.on_mouse(message, n, n) {
                buttons += 1;
            }
        }
        assert_eq!(tracker.on_mouse(0x0203, n, n), MouseAction::Ignore);
    }
    assert_eq!(moves, 10);
    assert_eq!(buttons, 400);
}

#[test]
fn element_is_captured_for_buttons_only() {
    let mut tracker = MouseTracker::new(config(true, true, true));
    let capture = |a: MouseAction| match a {
        MouseAction::Forward { capture_element, .. } => capture_element,
        MouseAction::Ignore => panic!("should be forwarded"),
    };
    assert!(capture(tracker.on_mouse(WM_LBUTTONDOWN, 1, 2)));
    assert!(capture(tracker.on_mouse(WM_LBUTTONUP, 1, 2)));
    assert!(capture(tracker.on_mouse(WM_RBUTTONDOWN, 1, 2)));
    assert!(capture(tracker.on_mouse(WM_MBUTTONUP, 1, 2)));
    assert!(!capture(tracker.on_mouse(WM_MOUSEWHEEL, 1, 2)));
    let mut off = MouseTracker::new(config(true, true, false));
    assert!(!capture(off.on_mouse(WM_LBUTTONDOWN, 1, 2)));
    assert!(!capture(off.on_mouse(WM_LBUTTONUP, 1, 2)));
}

#[test]
fn last_position_is_kept_for_every_payload() {
    let mut tracker = MouseTracker::new(config(true, true, true));
    assert_eq!(tracker.last_position, None);
    assert_eq!(tracker.on_mouse(WM_MOUSEMOVE, 5, 6), MouseAction::Ignore);
    assert_eq!(tracker.last_position, Some(Position { x: 5, y: 6 }));
    assert_eq!(tracker.on_mouse(0xFFFF, -7, 8), MouseAction::Ignore);
    assert_eq!(tracker.last_position, Some(Position { x: -7, y: 8 }));
}

fn snapshot(name: &str) -> UiElement {
    UiElement {
        name: Some(name.to_string()),
        automation_id: None,
        class_name: None,
        control_type: Some("Button".to_string()),
        process_id: Some(4),
        application_name: None,
        window_title: None,
        bounding_rect: Some(Rect { x: 0, y: 0, width: 10, height: 10 }),
        is_enabled: Some(true),
        has_keyboard_focus: None,
        hierarchy_path: Some("Window/Button[OK]".to_string()),
        value: None,
    }
}

#[test]
fn mouse_event_attaches_the_element_where_asked() {
    let action = MouseAction::Forward {
        event_type: MouseEventType::Down,
        button: MouseButton::Right,
        position: Position { x: 3, y: 4 },
        capture_element: true,
    };
    assert_eq!(
        mouse_event(action, Some(snapshot("OK"))),
        Some(WorkflowEvent::Mouse(MouseEvent {
            event_type: MouseEventType::Down,
            button: MouseButton::Right,
            position: Position { x: 3, y: 4 },
            ui_element: Some(snapshot("OK")),
        }))
    );
}

#[test]
fn failed_lookup_gives_an_event_without_element() {
    let action = MouseAction::Forward {
        event_type: MouseEventType::Up,
        button: MouseButton::Left,
        position: Position { x: 3, y: 4 },
        capture_element: true,
    };
    match mouse_event(action, None) {
        Some(WorkflowEvent::Mouse(e)) => assert_eq!(e.ui_element, None),
        other => panic!("expected a mouse event, got {:?}", other),
    }
}

#[test]
fn element_is_left_out_where_not_asked() {
    let action = MouseAction::Forward {
        event_type: MouseEventType::Wheel,
        button: MouseButton::Middle,
        position: Position { x: 0, y: 0 },
        capture_element: false,
    };
    match mouse_event(action, Some(snapshot("OK"))) {
        Some(WorkflowEvent::Mouse(e)) => assert_eq!(e.ui_element, None),
        other => panic!("expected a mouse event, got {:?}", other),
    }
    assert_eq!(mouse_event(MouseAction::Ignore, Some(snapshot("OK"))), None);
}

#[test]
fn rect_between_edges() {
    assert_eq!(rect_from_edges(10, 20, 110, 70), Rect { x: 10, y: 20, width: 100, height: 50 });
    assert_eq!(rect_from_edges(5, 5, 5, 5), Rect { x: 5, y: 5, width: 0, height: 0 });
    assert_eq!(rect_from_edges(10, 10, 0, 4), Rect { x: 10, y: 10, width: -10, height: -6 });
}

#[test]
fn rect_that_does_not_fit_is_cut() {
    let r = rect_from_edges(i32::MIN, i32::MAX, i32::MAX, i32::MIN);
    assert_eq!(r, Rect { x: i32::MIN, y: i32::MAX, width: i32::MAX, height: i32::MIN });
    let r = rect_from_edges(-1, 0, i32::MAX, i32::MAX);
    assert_eq!(r.width, i32::MAX);
    assert_eq!(r.height, i32::MAX);
}

fn node(control_type: &str, automation_id: &str, name: &str) -> PathNode {
    PathNode {
        control_type: control_type.to_string(),
        automation_id: automation_id.to_string(),
        name: name.to_string(),
    }
}

#[test]
fn path_token_prefers_the_automation_id() {
    assert_eq!(path_token(&node("Button", "btn-ok", "OK")), "Button[btn-ok]");
    assert_eq!(path_token(&node("Button", "", "OK")), "Button[OK]");
    assert_eq!(path_token(&node("Button", "", "")), "Button");
    assert_eq!(path_token(&node("", "", "")), "");
    assert_eq!(path_token(&node("", "id", "")), "[id]");
}

#[test]
fn hierarchy_path_runs_from_the_root_down() {
    let chain = vec![
        node("Button", "btn-ok", "OK"),
        node("Pane", "", "Dialog"),
        node("Window", "", ""),
    ];
    assert_eq!(hierarchy_path(&chain), Some("Window/Pane[Dialog]/Button[btn-ok]".to_string()));
}

#[test]
fn hierarchy_path_of_one_node() {
    assert_eq!(hierarchy_path(&vec![node("Window", "", "Main")]), Some("Window[Main]".to_string()));
}

#[test]
fn hierarchy_path_of_no_node() {
    assert_eq!(hierarchy_path(&vec![]), None);
    assert_eq!(MAX_HIERARCHY_DEPTH, 64);
}

/// Hands out handles 1, 2, ... and refuses where told to.
struct Hooks {
    refuse_keyboard: bool,
    refuse_mouse: bool,
    refuse_removal: bool,
    next: isize,
    installed: Vec<isize>,
    removals: Vec<isize>,
}

impl Hooks {
    fn new(refuse_keyboard: bool, refuse_mouse: bool) -> Hooks {
        Hooks {
            refuse_keyboard,
            refuse_mouse,
            refuse_removal: false,
            next: 1,
            installed: vec![],
            removals: vec![],
        }
    }
    fn install(&mut self, refuse: bool) -> Option<isize> {
        if refuse {
            return None;
        }
        let handle = self.next;
        self.next += 1;
        self.installed.push(handle);
        Some(handle)
    }
}

impl EventHookSource for Hooks {
    fn install_keyboard_hook(&mut self) -> Option<isize> {
        let refuse = self.refuse_keyboard;
        self.install(refuse)
    }
    fn install_mouse_hook(&mut self) -> Option<isize> {
        let refuse = self.refuse_mouse;
        self.install(refuse)
    }
    fn remove_hook(&mut self, handle: isize) -> bool {
        self.removals.push(handle);
        if self.refuse_removal {
            return false;
        }
        let before = self.installed.len();
        self.installed.retain(|h| *h != handle);
        self.installed.len() < before
    }
}

#[test]
fn recorder_installs_the_hooks_that_are_asked_for() {
    let r = WorkflowRecorder::new(config(true, true, true), Hooks::new(false, false)).unwrap();
    assert_eq!(r.keyboard_hook, Some(1));
    assert_eq!(r.mouse_hook, Some(2));
    assert_eq!(r.hooks.installed, vec![1, 2]);
    assert_eq!(r.config, config(true, true, true));
    assert_eq!(r.tracker.config, config(true, true, true));

    let r = WorkflowRecorder::new(config(true, false, true), Hooks::new(false, false)).unwrap();
    assert_eq!((r.keyboard_hook, r.mouse_hook), (Some(1), None));

    let r = WorkflowRecorder::new(config(false, true, false), Hooks::new(false, false)).unwrap();
    assert_eq!((r.keyboard_hook, r.mouse_hook), (None, Some(1)));
}

#[test]
fn recorder_without_hooks_cannot_fail() {
    let r = WorkflowRecorder::new(config(false, false, true), Hooks::new(true, true)).unwrap();
    assert_eq!((r.keyboard_hook, r.mouse_hook), (None, None));
    assert!(r.hooks.installed.is_empty());
}

#[test]
fn refused_keyboard_hook_fails_the_recorder() {
    match WorkflowRecorder::new(config(true, true, true), Hooks::new(true, false)) {
        Err(WorkflowRecorderError::InitializationError(m)) => {
            assert_eq!(m, "Failed to set keyboard hook")
        }
        _ => panic!("expected an initialization error"),
    }
}

#[test]
fn refused_mouse_hook_fails_the_recorder() {
    match WorkflowRecorder::new(config(true, true, true), Hooks::new(false, true)) {
        Err(WorkflowRecorderError::InitializationError(m)) => {
            assert_eq!(m, "Failed to set mouse hook")
        }
        _ => panic!("expected an initialization error"),
    }
    assert!(WorkflowRecorder::new(config(false, true, true), Hooks::new(false, true)).is_err());
}

#[test]
fn refused_hook_that_is_not_asked_for_does_not_matter() {
    assert!(WorkflowRecorder::new(config(true, false, true), Hooks::new(false, true)).is_ok());
    assert!(WorkflowRecorder::new(config(false, true, true), Hooks::new(true, false)).is_ok());
}

#[test]
fn stop_removes_the_hooks() {
    let mut r = WorkflowRecorder::new(config(true, true, true), Hooks::new(false, false)).unwrap();
    assert!(r.stop().is_ok());
    assert_eq!(r.hooks.removals, vec![1, 2]);
    assert!(r.hooks.installed.is_empty());
    assert_eq!((r.keyboard_hook, r.mouse_hook), (None, None));
}

#[test]
fn stop_twice_succeeds_twice() {
    let mut r = WorkflowRecorder::new(config(true, true, true), Hooks::new(false, false)).unwrap();
    assert!(r.stop().is_ok());
    assert!(r.stop().is_ok());
    assert_eq!(r.hooks.removals, vec![1, 2]);
    let mut none = WorkflowRecorder::new(config(false, false, false), Hooks::new(false, false)).unwrap();
    assert!(none.stop().is_ok());
    assert!(none.stop().is_ok());
    assert!(none.hooks.removals.is_empty());
}

#[test]
fn stop_succeeds_where_the_system_keeps_a_hook() {
    let mut hooks = Hooks::new(false, false);
    hooks.refuse_removal = true;
    let mut r = WorkflowRecorder::new(config(true, true, true), hooks).unwrap();
    assert!(r.stop().is_ok());
    assert_eq!((r.keyboard_hook, r.mouse_hook), (None, None));
    assert!(r.stop().is_ok());
    assert_eq!(r.hooks.removals, vec![1, 2]);
}

#[test]
fn hook_outcome_judges_the_keyboard_first() {
    assert_eq!(hook_outcome(config(true, true, false), Some(1), Some(2)), HookOutcome::Complete);
    assert_eq!(hook_outcome(config(true, true, false), None, Some(2)), HookOutcome::KeyboardRefused);
    assert_eq!(hook_outcome(config(true, true, false), None, None), HookOutcome::KeyboardRefused);
    assert_eq!(hook_outcome(config(true, true, false), Some(1), None), HookOutcome::MouseRefused);
    assert_eq!(hook_outcome(config(false, true, false), None, None), HookOutcome::MouseRefused);
    assert_eq!(hook_outcome(config(false, true, false), None, Some(2)), HookOutcome::Complete);
    assert_eq!(hook_outcome(config(true, false, false), Some(1), None), HookOutcome::Complete);
    assert_eq!(hook_outcome(config(true, false, false), None, Some(2)), HookOutcome::KeyboardRefused);
    assert_eq!(hook_outcome(config(false, false, true), None, None), HookOutcome::Complete);
}

/// Gives the keyboard hook unless told to refuse it, and never the mouse hook.
struct Counting {
    removed: std::rc::Rc<std::cell::RefCell<Vec<isize>>>,
    mouse_asked: std::rc::Rc<std::cell::Cell<bool>>,
    refuse_keyboard: bool,
}
impl EventHookSource for Counting {
    fn install_keyboard_hook(&mut self) -> Option<isize> {
        if self.refuse_keyboard {
            None
        } else {
            Some(41)
        }
    }
    fn install_mouse_hook(&mut self) -> Option<isize> {
        self.mouse_asked.set(true);
        None
    }
    fn remove_hook(&mut self, handle: isize) -> bool {
        self.removed.borrow_mut().push(handle);
        true
    }
}

#[test]
fn refused_mouse_hook_gives_back_the_keyboard_hook() {
    let removed = std::rc::Rc::new(std::cell::RefCell::new(vec![]));
    let mouse_asked = std::rc::Rc::new(std::cell::Cell::new(false));
    let hooks = Counting { removed: removed.clone(), mouse_asked: mouse_asked.clone(), refuse_keyboard: false };
    assert!(WorkflowRecorder::new(config(true, true, true), hooks).is_err());
    assert_eq!(*removed.borrow(), vec![41]);
    assert!(mouse_asked.get());

    let removed = std::rc::Rc::new(std::cell::RefCell::new(vec![]));
    let mouse_asked = std::rc::Rc::new(std::cell::Cell::new(false));
    let hooks = Counting { removed: removed.clone(), mouse_asked: mouse_asked.clone(), refuse_keyboard: true };
    assert!(WorkflowRecorder::new(config(true, true, true), hooks).is_err());
    assert!(removed.borrow().is_empty());
    assert!(!mouse_asked.get());
}

fn drain(rx: &mut tokio::sync::mpsc::UnboundedReceiver<WorkflowEvent>) -> Vec<WorkflowEvent> {
    let mut events = vec![];
    while let Ok(event) = rx.try_recv() {
        events.push(event);
    }
    events
}

#[test]
fn forwarded_keyboard_events_arrive_in_order() {
    let (tx, mut rx) = tokio::sync::mpsc::unbounded_channel();
    assert!(forward_keyboard(&tx, WM_KEYDOWN, 162, 0));
    assert!(forward_keyboard(&tx, WM_KEYDOWN, 67, 0x8));
    assert!(!forward_keyboard(&tx, 0x0104, 67, 0));
    assert!(forward_keyboard(&tx, WM_KEYUP, 67, 0x8));
    let events = drain(&mut rx);
    assert_eq!(
        events,
        vec![
            keyboard_event(WM_KEYDOWN, 162, 0).unwrap(),
            keyboard_event(WM_KEYDOWN, 67, 0x8).unwrap(),
            keyboard_event(WM_KEYUP, 67, 0x8).unwrap(),
        ]
    );
    match &events[0] {
        WorkflowEvent::Keyboard(k) => assert!(k.ctrl_pressed && k.is_key_down),
        other => panic!("expected a keyboard event, got {:?}", other),
    }
}

#[test]
fn of_a_hundred_move_payloads_ten_events_arrive() {
    let (tx, mut rx) = tokio::sync::mpsc::unbounded_channel();
    let mut tracker = MouseTracker::new(config(true, true, true));
    let mut taken = 0;
    for n in 1..=100 {
        let action = tracker.on_mouse(WM_MOUSEMOVE, n, 0);
        if forward_mouse(&tx, action, None) {
            taken += 1;
        }
    }
    assert_eq!(taken, 10);
    let xs: Vec<i32> = drain(&mut rx)
        .into_iter()
        .map(|e| match e {
            WorkflowEvent::Mouse(m) => {
                assert_eq!(m.event_type, MouseEventType::Move);
                m.position.x
            }
            other => panic!("expected a mouse event, got {:?}", other),
        })
        .collect();
    assert_eq!(xs, vec![10, 20, 30, 40, 50, 60, 70, 80, 90, 100]);
}

#[test]
fn forwarded_button_event_carries_the_element() {
    let (tx, mut rx) = tokio::sync::mpsc::unbounded_channel();
    let mut tracker = MouseTracker::new(config(true, true, true));
    let action = tracker.on_mouse(WM_LBUTTONDOWN, 7, 9);
    assert!(forward_mouse(&tx, action, Some(snapshot("OK"))));
    assert!(!forward_mouse(&tx, MouseAction::Ignore, Some(snapshot("OK"))));
    assert_eq!(
        drain(&mut rx),
        vec![WorkflowEvent::Mouse(MouseEvent {
            event_type: MouseEventType::Down,
            button: MouseButton::Left,
            position: Position { x: 7, y: 9 },
            ui_element: Some(snapshot("OK")),
        })]
    );
}

#[test]
fn nothing_is_taken_once_the_receiver_is_gone() {
    let (tx, rx) = tokio::sync::mpsc::unbounded_channel();
    drop(rx);
    assert!(!forward_keyboard(&tx, WM_KEYDOWN, 65, 0));
    let mut tracker = MouseTracker::new(config(true, true, false));
    let action = tracker.on_mouse(WM_LBUTTONDOWN, 1, 1);
    assert!(!forward_mouse(&tx, action, None));
}

#[test]
fn path_chain_grows_up_to_the_depth_bound() {
    let mut chain = vec![];
    for n in 1..MAX_HIERARCHY_DEPTH {
        assert!(push_path_node(&mut chain, node("Pane", "", &n.to_string())));
        assert_eq!(chain.len(), n);
    }
    assert!(!push_path_node(&mut chain, node("Pane", "", "last")));
    assert_eq!(chain.len(), MAX_HIERARCHY_DEPTH);
    assert_eq!(chain[MAX_HIERARCHY_DEPTH - 1].name, "last");
    assert!(!push_path_node(&mut chain, node("Pane", "", "one too many")));
    assert_eq!(chain.len(), MAX_HIERARCHY_DEPTH);
    assert_eq!(chain[MAX_HIERARCHY_DEPTH - 1].name, "last");
    assert_eq!(chain[0].name, "1");
}

#[test]
fn main_window_belongs_to_the_process_is_visible_and_has_no_owner() {
    assert!(is_main_window(7, 7, true, false));
    assert!(!is_main_window(8, 7, true, false));
    assert!(!is_main_window(7, 7, false, false));
    assert!(!is_main_window(7, 7, true, true));
    assert!(!is_main_window(8, 7, false, true));
}

#[test]
fn recorder_steps_its_own_tracker() {
    let mut r = WorkflowRecorder::new(config(true, true, true), Hooks::new(false, false)).unwrap();
    let mut forwarded = vec![];
    for n in 1..=30 {
        if let MouseAction::Forward { position, .. } = r.on_mouse(WM_MOUSEMOVE, n, 0) {
            forwarded.push(position.x);
        }
    }
    assert_eq!(forwarded, vec![10, 20, 30]);
    assert_eq!(r.tracker.last_position, Some(Position { x: 30, y: 0 }));
    assert_eq!(
        r.on_mouse(WM_RBUTTONUP, 4, 5),
        MouseAction::Forward {
            event_type: MouseEventType::Up,
            button: MouseButton::Right,
            position: Position { x: 4, y: 5 },
            capture_element: true,
        }
    );
    assert_eq!((r.keyboard_hook, r.mouse_hook), (Some(1), Some(2)));
    assert!(r.hooks.removals.is_empty());
}

#[test]
fn recorder_holds_the_handles_that_the_system_gave() {
    let mut hooks = Hooks::new(false, false);
    hooks.next = 4711;
    let mut r = WorkflowRecorder::new(config(true, true, false), hooks).unwrap();
    assert_eq!((r.keyboard_hook, r.mouse_hook), (Some(4711), Some(4712)));
    assert!(r.stop().is_ok());
    assert_eq!(r.hooks.removals, vec![4711, 4712]);
    let mut hooks = Hooks::new(false, false);
    hooks.next = -3;
    let mut r = WorkflowRecorder::new(config(false, true, false), hooks).unwrap();
    assert_eq!((r.keyboard_hook, r.mouse_hook), (None, Some(-3)));
    assert!(r.stop().is_ok());
    assert_eq!(r.hooks.removals, vec![-3]);
}
