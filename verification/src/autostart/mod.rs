//! Launch-at-login registration.
//!
//! Each platform persists a single boolean, "does Duja start with the OS?", in
//! its own per-user store: a value under the *Run* key on Windows, a
//! `LaunchAgent` on macOS, a `.desktop` entry on Linux.

use vstd::prelude::*;

use crate::text;

pub mod files;
pub mod linux;
pub mod mac;
pub mod mac_location;
pub mod plist;
pub mod win;
pub mod xdg_entry;

verus! {

/// Launch-at-login registration.
///
/// Both methods are fallible: the underlying store can refuse access.
pub trait Autostart {
    /// Whether Duja is currently registered to launch at login.
    fn is_enabled(&self) -> Result<bool, AutostartError>;

    /// Enable or disable launch at login.
    ///
    /// Idempotent: enabling when already enabled rewrites the registration;
    /// disabling when already disabled is a no-op success.
    fn set_enabled(&mut self, on: bool) -> Result<(), AutostartError>;
}

/// A failure registering or querying launch-at-login.
#[derive(Debug)]
pub enum AutostartError {
    /// Autostart is not supported on this platform or build.
    Unsupported,
    /// The current executable path could not be resolved.
    ExePath(String),
    /// A file operation failed.
    Io(String),
    /// A registry operation failed.
    Registry(String),
}

/// An error, as its kind and its text.
pub ghost enum ErrorModel {
    Unsupported,
    ExePath(Seq<char>),
    Io(Seq<char>),
    Registry(Seq<char>),
}

impl View for AutostartError {
    type V = ErrorModel;

    open spec fn view(&self) -> ErrorModel {
        match self {
            AutostartError::Unsupported => ErrorModel::Unsupported,
            AutostartError::ExePath(m) => ErrorModel::ExePath(m@),
            AutostartError::Io(m) => ErrorModel::Io(m@),
            AutostartError::Registry(m) => ErrorModel::Registry(m@),
        }
    }
}

impl AutostartError {
    /// The message a user sees.
    pub fn to_string(&self) -> (message: String)
        ensures
            message@ == match self@ {
                ErrorModel::Unsupported => "autostart is not supported on this platform"@,
                ErrorModel::ExePath(m) => "could not resolve the current executable path: "@ + m,
                ErrorModel::Io(m) => "file operation failed: "@ + m,
                ErrorModel::Registry(m) => "registry operation failed: "@ + m,
            },
    {
        match self {
            AutostartError::Unsupported => "autostart is not supported on this platform".to_owned(),
            AutostartError::ExePath(m) => text::join2(
                "could not resolve the current executable path: ",
                m.as_str(),
            ),
            AutostartError::Io(m) => text::join2("file operation failed: ", m.as_str()),
            AutostartError::Registry(m) => text::join2("registry operation failed: ", m.as_str()),
        }
    }
}

/// Reproduce a stored failure.
pub fn clone_error(err: &AutostartError) -> (copy: AutostartError)
    ensures
        copy@ == err@,
{
    match err {
        AutostartError::ExePath(m) => AutostartError::ExePath(m.clone()),
        AutostartError::Io(m) => AutostartError::Io(m.clone()),
        AutostartError::Registry(m) => AutostartError::Registry(m.clone()),
        AutostartError::Unsupported => AutostartError::Unsupported,
    }
}

/// The Run-key value name Duja registers under.
pub const VALUE_NAME: &'static str = "Duja";

/// The Run-key command for an executable: its path without the double quotes it
/// cannot legally hold, between double quotes.
pub open spec fn quoted_command(exe: Seq<char>) -> Seq<char> {
    seq!['"'] + exe.filter(|c: char| c != '"') + seq!['"']
}

/// Compose the Run-key command for an executable path, always double-quoted so
/// that a space in the path does not split the command.
pub fn run_command(exe: &str) -> (command: String)
    ensures
        command@ == quoted_command(exe@),
{
    let chars: Vec<char> = text::chars_of(exe);
    let ghost keep = |c: char| c != '"';
    let mut command: String = String::new();
    command.push('"');
    let mut i: usize = 0;
    proof {
        reveal(Seq::filter);
        assert(chars@.take(0) == Seq::<char>::empty());
        assert(command@ =~= seq!['"'] + chars@.take(0).filter(keep));
    }
    while i < chars.len()
        invariant
            i <= chars.len(),
            chars@ == exe@,
            keep == (|c: char| c != '"'),
            command@ == seq!['"'] + chars@.take(i as int).filter(keep),
        decreases chars.len() - i,
    {
        let c: char = chars[i];
        let ghost before = command@;
        proof {
            reveal(Seq::filter);
            let longer = chars@.take(i + 1);
            assert(longer.drop_last() == chars@.take(i as int));
            assert(longer.last() == c);
        }
        if c != '"' {
            command.push(c);
            assert(command@ =~= seq!['"'] + chars@.take(i + 1).filter(keep));
        }
        i += 1;
    }
    assert(chars@.take(chars@.len() as int) == chars@);
    command.push('"');
    assert(command@ =~= quoted_command(exe@));
    command
}

/// The only double quotes of a Run-key command are the two around it: a path
/// cannot break out of the quoting.
pub proof fn law_command_cannot_break_out(exe: Seq<char>, i: int)
    requires
        0 <= i < quoted_command(exe).len(),
    ensures
        quoted_command(exe)[i] == '"' <==> i == 0 || i == quoted_command(exe).len() - 1,
{
    broadcast use vstd::seq_lib::group_filter_ensures;

    let keep = |c: char| c != '"';
    let inner = exe.filter(keep);
    if 0 < i < quoted_command(exe).len() - 1 {
        assert(quoted_command(exe)[i] == inner[i - 1]);
        assert(keep(inner[i - 1]));
    }
}

/// Every character of a path but the double quote stands in its command, in order:
/// two paths in a row make the command of each alone, inside one pair of quotes.
pub proof fn law_command_keeps_every_other_character(a: Seq<char>, c: char, b: Seq<char>)
    ensures
        quoted_command(Seq::empty()) == seq!['"', '"'],
        c != '"' ==> quoted_command(seq![c]) == seq!['"', c, '"'],
        c == '"' ==> quoted_command(seq![c]) == seq!['"', '"'],
        quoted_command(a).len() >= 2,
        quoted_command(b).len() >= 2,
        quoted_command(a + b) == quoted_command(a).drop_last() + quoted_command(b).drop_first(),
{
    let keep = |c: char| c != '"';
    let empty = Seq::<char>::empty();
    let one = seq![c];
    assert(empty.filter(keep) =~= empty && one.filter(keep) =~= if c != '"' {
        one
    } else {
        empty
    }) by {
        reveal(Seq::filter);
        assert(one.drop_last() =~= empty);
    }
    Seq::<char>::filter_distributes_over_add(a, b, keep);
    assert(quoted_command(empty) =~= seq!['"', '"']);
    assert(c != '"' ==> quoted_command(one) =~= seq!['"', c, '"']);
    assert(c == '"' ==> quoted_command(one) =~= seq!['"', '"']);
    assert(quoted_command(a + b) =~= quoted_command(a).drop_last()
        + quoted_command(b).drop_first());
}

/// An in-memory [`Autostart`] for tests of the wiring around one.
///
/// Holds the flag in memory; made failing, every operation reports an error.
#[derive(Debug)]
pub struct FakeAutostart {
    enabled: bool,
    fail: bool,
}

impl FakeAutostart {
    /// The flag it holds.
    pub closed spec fn holds(&self) -> bool {
        self.enabled
    }

    /// Whether every operation fails.
    pub closed spec fn fails(&self) -> bool {
        self.fail
    }

    /// A fake that starts disabled and always succeeds.
    #[must_use]
    pub fn new() -> (fake: Self)
        ensures
            !fake.holds(),
            !fake.fails(),
    {
        FakeAutostart { enabled: false, fail: false }
    }

    /// A fake pre-seeded to `enabled`.
    #[must_use]
    pub fn with_enabled(enabled: bool) -> (fake: Self)
        ensures
            fake.holds() == enabled,
            !fake.fails(),
    {
        FakeAutostart { enabled, fail: false }
    }

    /// A fake whose every operation fails.
    #[must_use]
    pub fn failing() -> (fake: Self)
        ensures
            !fake.holds(),
            fake.fails(),
    {
        FakeAutostart { enabled: false, fail: true }
    }
}

impl Default for FakeAutostart {
    fn default() -> (fake: Self)
        ensures
            !fake.holds(),
            !fake.fails(),
    {
        FakeAutostart::new()
    }
}

impl Autostart for FakeAutostart {
    fn is_enabled(&self) -> (enabled: Result<bool, AutostartError>)
        ensures
            match enabled {
                Ok(on) => !self.fails() && on == self.holds(),
                Err(e) => self.fails() && e@ == ErrorModel::Registry("fake failure"@),
            },
    {
        if self.fail {
            return Err(AutostartError::Registry("fake failure".to_owned()));
        }
        Ok(self.enabled)
    }

    fn set_enabled(&mut self, on: bool) -> (done: Result<(), AutostartError>)
        ensures
            final(self).fails() == old(self).fails(),
            match done {
                Ok(_) => !old(self).fails() && final(self).holds() == on,
                Err(e) => {
                    &&& old(self).fails()
                    &&& final(self).holds() == old(self).holds()
                    &&& e@ == ErrorModel::Registry("fake failure"@)
                },
            },
    {
        if self.fail {
            return Err(AutostartError::Registry("fake failure".to_owned()));
        }
        self.enabled = on;
        Ok(())
    }
}

/// An autostart for platforms without a launch-at-login backend.
#[derive(Debug)]
pub struct StubAutostart;

impl Default for StubAutostart {
    fn default() -> (stub: Self)
    {
        StubAutostart
    }
}

impl Autostart for StubAutostart {
    fn is_enabled(&self) -> (enabled: Result<bool, AutostartError>)
        ensures
            enabled matches Err(e) && e@ == ErrorModel::Unsupported,
    {
        Err(AutostartError::Unsupported)
    }

    fn set_enabled(&mut self, on: bool) -> (done: Result<(), AutostartError>)
        ensures
            done matches Err(e) && e@ == ErrorModel::Unsupported,
    {
        Err(AutostartError::Unsupported)
    }
}

/// The autostart of a platform without a backend. Never fails; the `Result`
/// mirrors the other backends.
pub fn system() -> (backend: Result<StubAutostart, AutostartError>)
    ensures
        backend is Ok,
{
    Ok(StubAutostart)
}

} // verus!
