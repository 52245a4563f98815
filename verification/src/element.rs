//! A UI element as a set of independently readable attributes.

use vstd::prelude::*;

verus! {

/// A rectangle on screen, in pixels.
#[derive(Debug, Clone, Copy, PartialEq, Eq, Structural)]
pub struct Rect {
    pub x: i32,
    pub y: i32,
    pub width: i32,
    pub height: i32,
}

/// The attributes of one node of an accessibility tree, as they were read.
///
/// Every attribute is optional: reading it from the platform may have failed,
/// and a failed read is an absent attribute, never an error.
#[derive(Debug)]
pub struct UIElement {
    pub id: Option<String>,
    pub role: Option<String>,
    pub name: Option<String>,
    pub automation_id: Option<String>,
    pub class_name: Option<String>,
    pub value: Option<String>,
    pub bounds: Option<Rect>,
    pub enabled: Option<bool>,
    pub focused: Option<bool>,
    pub process_id: Option<u32>,
}

/// The mathematical value of a [`UIElement`].
pub ghost struct ElementView {
    pub id: Option<Seq<char>>,
    pub role: Option<Seq<char>>,
    pub name: Option<Seq<char>>,
    pub automation_id: Option<Seq<char>>,
    pub class_name: Option<Seq<char>>,
    pub value: Option<Seq<char>>,
    pub bounds: Option<Rect>,
    pub enabled: Option<bool>,
    pub focused: Option<bool>,
    pub process_id: Option<u32>,
}

/// The characters of an optional string.
pub open spec fn text_of(s: Option<String>) -> Option<Seq<char>> {
    match s {
        Some(t) => Some(t@),
        None => None,
    }
}

/// A copy of an optional string.
pub fn copy_text(s: &Option<String>) -> (r: Option<String>)
    ensures
        text_of(r) == text_of(*s),
{
    match s {
        Some(t) => Some(t.clone()),
        None => None,
    }
}

impl View for UIElement {
    type V = ElementView;

    open spec fn view(&self) -> ElementView {
        ElementView {
            id: text_of(self.id),
            role: text_of(self.role),
            name: text_of(self.name),
            automation_id: text_of(self.automation_id),
            class_name: text_of(self.class_name),
            value: text_of(self.value),
            bounds: self.bounds,
            enabled: self.enabled,
            focused: self.focused,
            process_id: self.process_id,
        }
    }
}

impl Clone for UIElement {
    fn clone(&self) -> (r: UIElement)
        ensures
            r@ == self@,
    {
        UIElement {
            id: copy_text(&self.id),
            role: copy_text(&self.role),
            name: copy_text(&self.name),
            automation_id: copy_text(&self.automation_id),
            class_name: copy_text(&self.class_name),
            value: copy_text(&self.value),
            bounds: self.bounds,
            enabled: self.enabled,
            focused: self.focused,
            process_id: self.process_id,
        }
    }
}

impl UIElement {
    /// An element with the given role and every other attribute absent.
    pub fn with_role(role: &str) -> (e: UIElement)
        ensures
            e@ == (ElementView {
                id: None,
                role: Some(role@),
                name: None,
                automation_id: None,
                class_name: None,
                value: None,
                bounds: None,
                enabled: None,
                focused: None,
                process_id: None,
            }),
    {
        UIElement {
            id: None,
            role: Some(role.to_owned()),
            name: None,
            automation_id: None,
            class_name: None,
            value: None,
            bounds: None,
            enabled: None,
            focused: None,
            process_id: None,
        }
    }
}

} // verus!
