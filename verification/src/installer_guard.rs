//! A fixed-name mutex that the Windows installer can detect.
//!
//! The app holds the mutex open for its whole lifetime, and the installer looks
//! for the name. Platforms without that installer hold nothing.

use vstd::prelude::*;

verus! {

/// The well-known mutex name, the same as in the installer's script.
pub const INSTALLER_GUARD_MUTEX_NAME: &'static str = "Local\\duja-installer-guard";

/// An installer guard for platforms without the installer.
#[derive(Debug)]
pub struct InstallerGuard {
    _private: (),
}

impl InstallerGuard {
    /// A guard that holds nothing.
    #[must_use]
    pub fn acquire() -> (guard: Self)
    {
        InstallerGuard { _private: () }
    }

    /// Whether the guard holds a live mutex: never, on these platforms.
    #[must_use]
    pub fn is_held(&self) -> (held: bool)
        ensures
            !held,
    {
        false
    }
}

} // verus!
