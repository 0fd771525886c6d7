//! Unified failure taxonomy for every accessibility operation.
//!
//! Lower-level failures are carried as their rendered reason text; nothing
//! is discarded. [`A11yError::to_message`] gives the textual rendering that
//! callers outside the library see.

use vstd::prelude::*;

verus! {

/// One failure of an accessibility or automation operation.
#[derive(Debug)]
pub enum A11yError {
    /// The accessibility service could not be reached.
    Connection(String),
    /// The addressed element does not exist.
    ElementNotFound { bus: String, path: String },
    /// An action was reached but did not run.
    ActionFailed(String),
    /// The pointer/keyboard injection executable failed.
    XdotoolFailed(String),
    /// The vision backend answered with an error.
    BytebotError(String),
    /// The message bus reported a transport failure.
    DBus(String),
    /// The accessibility library reported a failure.
    Atspi(String),
    /// An input/output failure.
    Io(String),
}

/// Result of an accessibility operation.
pub type A11yResult<T> = Result<T, A11yError>;

/// The textual rendering of an error.
pub open spec fn message_of(e: A11yError) -> Seq<char> {
    match e {
        A11yError::Connection(r) => "AT-SPI2 connection failed: ".view() + r.view(),
        A11yError::ElementNotFound { bus, path } => "Element not found: ".view() + bus.view()
            + ":".view() + path.view(),
        A11yError::ActionFailed(r) => "Action failed: ".view() + r.view(),
        A11yError::XdotoolFailed(r) => "xdotool execution failed: ".view() + r.view(),
        A11yError::BytebotError(r) => "Bytebot API error: ".view() + r.view(),
        A11yError::DBus(r) => "D-Bus error: ".view() + r.view(),
        A11yError::Atspi(r) => "AT-SPI error: ".view() + r.view(),
        A11yError::Io(r) => "IO error: ".view() + r.view(),
    }
}

impl A11yError {
    /// Render the error as the message text callers display.
    pub fn to_message(&self) -> (r: String)
        ensures
            r.view() == message_of(*self),
    {
        match self {
            A11yError::Connection(reason) => {
                let mut s = "AT-SPI2 connection failed: ".to_owned();
                s.append(reason.as_str());
                proof {
                    assert(s.view() =~= message_of(*self));
                }
                s
            },
            A11yError::ElementNotFound { bus, path } => {
                let mut s = "Element not found: ".to_owned();
                s.append(bus.as_str());
                s.append(":");
                s.append(path.as_str());
                proof {
                    assert(s.view() =~= message_of(*self));
                }
                s
            },
            A11yError::ActionFailed(reason) => {
                let mut s = "Action failed: ".to_owned();
                s.append(reason.as_str());
                proof {
                    assert(s.view() =~= message_of(*self));
                }
                s
            },
            A11yError::XdotoolFailed(reason) => {
                let mut s = "xdotool execution failed: ".to_owned();
                s.append(reason.as_str());
                proof {
                    assert(s.view() =~= message_of(*self));
                }
                s
            },
            A11yError::BytebotError(reason) => {
                let mut s = "Bytebot API error: ".to_owned();
                s.append(reason.as_str());
                proof {
                    assert(s.view() =~= message_of(*self));
                }
                s
            },
            A11yError::DBus(reason) => {
                let mut s = "D-Bus error: ".to_owned();
                s.append(reason.as_str());
                proof {
                    assert(s.view() =~= message_of(*self));
                }
                s
            },
            A11yError::Atspi(reason) => {
                let mut s = "AT-SPI error: ".to_owned();
                s.append(reason.as_str());
                proof {
                    assert(s.view() =~= message_of(*self));
                }
                s
            },
            A11yError::Io(reason) => {
                let mut s = "IO error: ".to_owned();
                s.append(reason.as_str());
                proof {
                    assert(s.view() =~= message_of(*self));
                }
                s
            },
        }
    }
}

} // verus!
