//! Error taxonomy of the automation engine and of the recorder.

use vstd::prelude::*;

verus! {

/// A failure of an automation call.
#[derive(Debug, Clone)]
pub enum AutomationError {
    /// An element, application or window is absent.
    NotFound(String),
    /// A locator exceeded its wait budget.
    Timeout(String),
    /// Selector text is not in the grammar.
    InvalidSelector(String),
    /// The feature is unavailable on this platform.
    PlatformNotSupported(String),
    /// The engine could not be set up.
    InitializationError(String),
    /// An operating system call failed unexpectedly.
    InternalError(String),
}

/// The kind of an [`AutomationError`], without its message.
#[derive(Debug, Clone, Copy, PartialEq, Eq, Structural)]
pub enum ErrorKind {
    NotFound,
    Timeout,
    InvalidSelector,
    PlatformNotSupported,
    InitializationError,
    InternalError,
}

impl AutomationError {
    /// The kind of this error.
    pub open spec fn kind_spec(self) -> ErrorKind {
        match self {
            AutomationError::NotFound(_) => ErrorKind::NotFound,
            AutomationError::Timeout(_) => ErrorKind::Timeout,
            AutomationError::InvalidSelector(_) => ErrorKind::InvalidSelector,
            AutomationError::PlatformNotSupported(_) => ErrorKind::PlatformNotSupported,
            AutomationError::InitializationError(_) => ErrorKind::InitializationError,
            AutomationError::InternalError(_) => ErrorKind::InternalError,
        }
    }

    /// The message carried by this error.
    pub open spec fn message_spec(self) -> Seq<char> {
        match self {
            AutomationError::NotFound(m) => m@,
            AutomationError::Timeout(m) => m@,
            AutomationError::InvalidSelector(m) => m@,
            AutomationError::PlatformNotSupported(m) => m@,
            AutomationError::InitializationError(m) => m@,
            AutomationError::InternalError(m) => m@,
        }
    }

    /// The kind of this error.
    pub fn kind(&self) -> (k: ErrorKind)
        ensures
            k == self.kind_spec(),
    {
        match self {
            AutomationError::NotFound(_) => ErrorKind::NotFound,
            AutomationError::Timeout(_) => ErrorKind::Timeout,
            AutomationError::InvalidSelector(_) => ErrorKind::InvalidSelector,
            AutomationError::PlatformNotSupported(_) => ErrorKind::PlatformNotSupported,
            AutomationError::InitializationError(_) => ErrorKind::InitializationError,
            AutomationError::InternalError(_) => ErrorKind::InternalError,
        }
    }

    /// The message carried by this error.
    pub fn message(&self) -> (m: String)
        ensures
            m@ == self.message_spec(),
    {
        match self {
            AutomationError::NotFound(m) => m.clone(),
            AutomationError::Timeout(m) => m.clone(),
            AutomationError::InvalidSelector(m) => m.clone(),
            AutomationError::PlatformNotSupported(m) => m.clone(),
            AutomationError::InitializationError(m) => m.clone(),
            AutomationError::InternalError(m) => m.clone(),
        }
    }
}

/// A failure of the workflow recorder.
#[derive(Debug, Clone)]
pub enum WorkflowRecorderError {
    /// A hook or the engine behind it could not be set up.
    InitializationError(String),
    /// Hooks could not be removed.
    StopError(String),
}

} // verus!
