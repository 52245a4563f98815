//! The capability that a platform backend provides.
//!
//! A backend performs all tree I/O. The library fixes what it asks of the
//! backend and hands on what the backend answers; it assumes nothing of the
//! answers themselves, which may differ from one call to the next as the
//! applications on screen change.

use vstd::prelude::*;
use crate::element::{text_of, ElementView, UIElement};
use crate::errors::AutomationError;
use crate::tree::{TreeView, UiTree};

verus! {

/// A question whose answer is one element.
pub ghost enum ElementQuery {
    /// The element that has keyboard focus.
    Focused,
    /// The application with the given name.
    Application(Seq<char>),
}

/// An action on the desktop that returns nothing.
pub ghost enum DesktopAction {
    OpenApplication(Seq<char>),
    ActivateApplication(Seq<char>),
    /// The address, then the browser to open it in.
    OpenUrl(Seq<char>, Option<Seq<char>>),
    OpenFile(Seq<char>),
    ActivateBrowserWindow(Seq<char>),
}

/// The characters of an optional string slice.
pub open spec fn slice_text(s: Option<&str>) -> Option<Seq<char>> {
    match s {
        Some(t) => Some(t@),
        None => None,
    }
}

/// The value of an optional element.
pub open spec fn element_value(e: Option<UIElement>) -> Option<ElementView> {
    match e {
        Some(x) => Some(x@),
        None => None,
    }
}

/// The value of an optional borrowed element.
pub open spec fn borrowed_value(e: Option<&UIElement>) -> Option<ElementView> {
    match e {
        Some(x) => Some(x@),
        None => None,
    }
}

/// A platform's accessibility backend.
///
/// Each spec function names the answers that the backend may give to one
/// kind of call; the backend defines them, and may admit every answer.
pub trait AccessibilityEngine {
    /// Whether `r` is an answer to "which element is the desktop's root?".
    open spec fn gives_root(&self, r: UIElement) -> bool {
        true
    }

    /// Whether `r` is an answer to the query `q`.
    open spec fn gives_element(&self, q: ElementQuery, r: Result<UIElement, AutomationError>) -> bool {
        true
    }

    /// Whether `r` is an answer to "which applications are running?".
    open spec fn gives_applications(&self, r: Result<Vec<UIElement>, AutomationError>) -> bool {
        true
    }

    /// Whether `r` is an outcome of the action `a`.
    open spec fn performs(&self, a: DesktopAction, r: Result<(), AutomationError>) -> bool {
        true
    }

    /// Whether `r` is an answer to "which element is at this point?".
    open spec fn gives_element_at(&self, x: i32, y: i32, r: Option<UIElement>) -> bool {
        true
    }

    /// Whether the engine comes back from a request to pause for `millis`
    /// milliseconds.
    open spec fn pauses(&self, millis: u64) -> bool {
        true
    }

    /// Whether `t` is a snapshot of the subtree under `root`, or of the
    /// whole desktop where `root` is `None`.
    open spec fn captures(&self, root: Option<ElementView>, t: TreeView) -> bool {
        true
    }

    /// The desktop's root. Never fails: on a platform error the backend
    /// returns a root without attributes.
    fn get_root_element(&self) -> (r: UIElement)
        ensures
            self.gives_root(r),
    ;

    /// The element with keyboard focus, or `NotFound`.
    fn get_focused_element(&self) -> (r: Result<UIElement, AutomationError>)
        ensures
            self.gives_element(ElementQuery::Focused, r),
    ;

    /// The running applications.
    fn get_applications(&self) -> (r: Result<Vec<UIElement>, AutomationError>)
        ensures
            self.gives_applications(r),
    ;

    /// The application with the given name, or `NotFound`.
    fn get_application_by_name(&self, name: &str) -> (r: Result<UIElement, AutomationError>)
        ensures
            self.gives_element(ElementQuery::Application(name@), r),
    ;

    /// Starts an application.
    fn open_application(&self, name: &str) -> (r: Result<(), AutomationError>)
        ensures
            self.performs(DesktopAction::OpenApplication(name@), r),
    ;

    /// Brings an application to the foreground.
    fn activate_application(&self, name: &str) -> (r: Result<(), AutomationError>)
        ensures
            self.performs(DesktopAction::ActivateApplication(name@), r),
    ;

    /// Opens an address, in the named browser or in the default one.
    fn open_url(&self, url: &str, browser: Option<&str>) -> (r: Result<(), AutomationError>)
        ensures
            self.performs(DesktopAction::OpenUrl(url@, slice_text(browser)), r),
    ;

    /// Opens a file with the application registered for it.
    fn open_file(&self, path: &str) -> (r: Result<(), AutomationError>)
        ensures
            self.performs(DesktopAction::OpenFile(path@), r),
    ;

    /// Brings the browser window with the given title to the foreground.
    fn activate_browser_window_by_title(&self, title: &str) -> (r: Result<(), AutomationError>)
        ensures
            self.performs(DesktopAction::ActivateBrowserWindow(title@), r),
    ;

    /// The element at a point of the screen, if there is one.
    fn element_at_point(&self, x: i32, y: i32) -> (r: Option<UIElement>)
        ensures
            self.gives_element_at(x, y, r),
    ;

    /// Walks the live tree once, depth first, from `root` or from the
    /// desktop's root, and returns what it saw. A branch that vanishes
    /// during the walk is left out.
    fn snapshot(&self, root: Option<&UIElement>) -> (t: UiTree)
        ensures
            self.captures(borrowed_value(root), t@),
    ;

    /// Blocks the calling thread for the given number of milliseconds.
    fn pause(&self, millis: u64)
        ensures
            self.pauses(millis),
    ;
}

} // verus!
