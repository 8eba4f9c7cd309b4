//! OS integration for the Duja tray: the decisions behind display and power
//! events, autostart registration, tray geometry and the local control socket.
//!
//! Each platform backend is a thin layer of OS calls around functions of this
//! library: the backend hands over what the OS said as plain values, and gets
//! back what to do or to report. Nothing here touches a file, a socket, a thread
//! or a clock.

use vstd::prelude::*;

pub mod autostart;
pub mod desktop;
pub mod geometry;
pub mod installer_guard;
pub mod ipc;
pub mod linux_deadline;
pub mod linux_events;
pub mod linux_geometry;
pub mod linux_uevent;
pub mod linux_x11;
pub mod linux_xsettings;
pub mod mac_events;
pub mod mac_pump;
pub mod path;
pub mod process;
pub mod text;

verus! {

/// A normalized OS event relevant to display management.
///
/// Events are not debounced: `DisplaysChanged` in particular is bursty, and the
/// consumer coalesces it.
#[derive(Debug, Clone, Copy, PartialEq, Eq, Hash, Structural)]
pub enum PlatformEvent {
    /// Display topology may have changed.
    DisplaysChanged,
    /// The system is about to suspend. Persist or park state now.
    Suspending,
    /// The system resumed from suspend; re-apply brightness and overlays.
    Resumed,
    /// The interactive session was unlocked; re-apply state that the lock screen
    /// or another session may have disturbed.
    SessionUnlocked,
}

/// An error raised while starting or running the platform event pump.
///
/// Variants carry a human-readable description of the OS failure, so the public
/// surface is identical on every target.
#[derive(Debug)]
pub enum PlatformError {
    /// The OS refused to start the event thread.
    ThreadSpawn(String),
    /// The event thread started but failed to initialize its OS resources.
    Init(String),
}

impl PlatformError {
    /// The message a user sees.
    pub fn to_string(&self) -> (message: String)
        ensures
            message@ == match self {
                PlatformError::ThreadSpawn(why) =>
                    "failed to start the platform event thread: "@ + why@,
                PlatformError::Init(why) =>
                    "failed to initialize the platform event source: "@ + why@,
            },
    {
        match self {
            PlatformError::ThreadSpawn(why) => {
                let mut message: String =
                    "failed to start the platform event thread: ".to_owned();
                message.append(why.as_str());
                message
            },
            PlatformError::Init(why) => {
                let mut message: String =
                    "failed to initialize the platform event source: ".to_owned();
                message.append(why.as_str());
                message
            },
        }
    }
}

/// The crate version.
#[must_use]
pub fn version() -> (version: &'static str)
    ensures
        version@ == "0.3.0"@,
{
    "0.3.0"
}

} // verus!
