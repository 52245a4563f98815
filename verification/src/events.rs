//! The events that a recording consists of.

use vstd::prelude::*;
use crate::element::Rect;

verus! {

/// A key going down or up, with the modifiers held at that moment.
#[derive(Debug, Clone, Copy, PartialEq, Eq, Structural)]
pub struct KeyboardEvent {
    pub key_code: u32,
    pub is_key_down: bool,
    pub ctrl_pressed: bool,
    pub alt_pressed: bool,
    pub shift_pressed: bool,
    pub win_pressed: bool,
}

/// A mouse button.
#[derive(Debug, Clone, Copy, PartialEq, Eq, Structural)]
pub enum MouseButton {
    Left,
    Right,
    Middle,
}

/// What the mouse did.
#[derive(Debug, Clone, Copy, PartialEq, Eq, Structural)]
pub enum MouseEventType {
    Down,
    Up,
    Move,
    Wheel,
}

/// A point of the screen, in pixels.
#[derive(Debug, Clone, Copy, PartialEq, Eq, Structural)]
pub struct Position {
    pub x: i32,
    pub y: i32,
}

/// What was known of the UI element under the pointer when an event was
/// recorded. Each attribute is absent where it could not be read.
#[derive(Debug, Clone, PartialEq, Eq)]
pub struct UiElement {
    pub name: Option<String>,
    pub automation_id: Option<String>,
    pub class_name: Option<String>,
    pub control_type: Option<String>,
    pub process_id: Option<u32>,
    pub application_name: Option<String>,
    pub window_title: Option<String>,
    pub bounding_rect: Option<Rect>,
    pub is_enabled: Option<bool>,
    pub has_keyboard_focus: Option<bool>,
    pub hierarchy_path: Option<String>,
    pub value: Option<String>,
}

/// A mouse event, with the element under the pointer where it was captured.
#[derive(Debug, Clone, PartialEq, Eq)]
pub struct MouseEvent {
    pub event_type: MouseEventType,
    pub button: MouseButton,
    pub position: Position,
    pub ui_element: Option<UiElement>,
}

/// A change of the window in the foreground.
#[derive(Debug, Clone, PartialEq, Eq)]
pub struct WindowEvent {
    pub window_title: Option<String>,
    pub application_name: Option<String>,
}

/// One recorded event.
#[derive(Debug, Clone, PartialEq, Eq)]
pub enum WorkflowEvent {
    Keyboard(KeyboardEvent),
    Mouse(MouseEvent),
    Window(WindowEvent),
}

/// What a recorder records.
#[derive(Debug, Clone, Copy, PartialEq, Eq, Structural)]
pub struct WorkflowRecorderConfig {
    /// Whether a keyboard hook is installed.
    pub record_keyboard: bool,
    /// Whether a mouse hook is installed.
    pub record_mouse: bool,
    /// Whether button events carry the element under the pointer.
    pub capture_ui_elements: bool,
}

} // verus!
