//! Desktop UI automation over accessibility trees, and the decision logic of
//! an input-event recorder.
//!
//! The library works on plain values: a snapshot of the accessibility tree,
//! parsed selectors, raw hook payloads. The platform backend that queries the
//! operating system implements [`platforms::AccessibilityEngine`].

pub mod desktop;
pub mod drawing;
pub mod element;
pub mod errors;
pub mod events;
pub mod locator;
pub mod platforms;
pub mod recorder;
pub mod selector;
pub mod tree;
