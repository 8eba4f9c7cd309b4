//! Launch-at-login on Linux: an XDG autostart `.desktop` entry.
//!
//! A `.desktop` file in `$XDG_CONFIG_HOME/autostart` (default
//! `~/.config/autostart`) is launched when the desktop session starts.
//! Disabling deletes the file: a disabled entry left behind is a stale
//! executable path, where absence is unambiguous.

use vstd::prelude::*;

use super::files::{Change, FileRead, Wording};
use super::{clone_error, files, xdg_entry, AutostartError, ErrorModel};
use crate::path;

verus! {

/// The entry's file name.
pub const ENTRY_FILE: &'static str = "io.github.itabajah.duja.desktop";

/// XDG autostart registration for the current user.
///
/// Both halves are held as a `Result`, so that construction is infallible and a
/// failure surfaces on the call that needs the value.
#[derive(Debug)]
pub struct LinuxAutostart {
    /// The autostart directory, or the failure that resolving it produced.
    dir: Result<Vec<u8>, AutostartError>,
    /// The executable to launch, resolved once at construction.
    exe: Result<String, AutostartError>,
}

/// The per-user configuration directory: an absolute `XDG_CONFIG_HOME`, else
/// `.config` in the home directory.
pub open spec fn config_dir(xdg: Option<Seq<u8>>, home: Option<Seq<u8>>) -> Option<Seq<u8>> {
    if xdg matches Some(value) && path::is_absolute(value) {
        xdg
    } else {
        match home {
            Some(h) => Some(path::joined(h, path::SEPARATOR, vstd::utf8::encode_utf8(".config"@))),
            None => None,
        }
    }
}

/// An optional byte slice as a sequence.
pub open spec fn opt_view(bytes: Option<&[u8]>) -> Option<Seq<u8>> {
    match bytes {
        Some(b) => Some(b@),
        None => None,
    }
}

/// The text of an error that came with no home directory.
pub open spec fn no_home() -> ErrorModel {
    ErrorModel::ExePath("HOME is not set"@)
}

/// Build the autostart directory from `XDG_CONFIG_HOME` and `HOME`.
///
/// An empty or relative `XDG_CONFIG_HOME` is invalid and is ignored.
pub fn autostart_dir(xdg: Option<&[u8]>, home: Option<&[u8]>) -> (dir: Result<
    Vec<u8>,
    AutostartError,
>)
    ensures
        match config_dir(opt_view(xdg), opt_view(home)) {
            Some(config) => dir matches Ok(d) && d@ == path::joined(
                config,
                path::SEPARATOR,
                vstd::utf8::encode_utf8("autostart"@),
            ),
            None => dir matches Err(e) && e@ == no_home(),
        },
        xdg matches Some(x) ==> x@.len() > 0 && x@[0] == 0x2f ==> (dir matches Ok(d) && d@
            == path::joined(x@, path::SEPARATOR, vstd::utf8::encode_utf8("autostart"@))),
        (xdg matches Some(x) ==> x@.len() == 0 || x@[0] != 0x2f) ==> {
            &&& home matches Some(h) ==> (dir matches Ok(d) && d@ == path::joined(
                path::joined(h@, path::SEPARATOR, vstd::utf8::encode_utf8(".config"@)),
                path::SEPARATOR,
                vstd::utf8::encode_utf8("autostart"@),
            ))
            &&& home is None ==> (dir matches Err(e) && e@ == ErrorModel::ExePath(
                "HOME is not set"@,
            ))
        },
{
    if let Some(value) = xdg {
        if path::absolute(value) {
            return Ok(path::join(value, "autostart".as_bytes()));
        }
    }
    match home {
        Some(home) => {
            let config: Vec<u8> = path::join(home, ".config".as_bytes());
            Ok(path::join(config.as_slice(), "autostart".as_bytes()))
        },
        None => Err(AutostartError::ExePath("HOME is not set".to_owned())),
    }
}

impl LinuxAutostart {
    /// The directory it is bound to, or why there is none.
    pub closed spec fn bound_dir(&self) -> Result<Seq<u8>, ErrorModel> {
        match self.dir {
            Ok(dir) => Ok(dir@),
            Err(e) => Err(e@),
        }
    }

    /// The executable it registers, or why there is none.
    pub closed spec fn bound_exe(&self) -> Result<Seq<char>, ErrorModel> {
        match self.exe {
            Ok(exe) => Ok(exe@),
            Err(e) => Err(e@),
        }
    }

    /// Bind to the user's autostart directory, from the environment's
    /// `XDG_CONFIG_HOME` and `HOME` and the current executable's path.
    #[must_use]
    pub fn system(
        xdg: Option<&[u8]>,
        home: Option<&[u8]>,
        current_exe: Result<String, String>,
    ) -> (backend: Self)
        ensures
            backend.bound_dir() == match config_dir(opt_view(xdg), opt_view(home)) {
                Some(config) => Ok::<Seq<u8>, ErrorModel>(
                    path::joined(
                        config,
                        path::SEPARATOR,
                        vstd::utf8::encode_utf8("autostart"@),
                    ),
                ),
                None => Err(no_home()),
            },
            backend.bound_exe() == match current_exe {
                Ok(exe) => Ok::<Seq<char>, ErrorModel>(exe@),
                Err(what) => Err(ErrorModel::ExePath(what@)),
            },
    {
        LinuxAutostart {
            dir: autostart_dir(xdg, home),
            exe: match current_exe {
                Ok(exe) => Ok(exe),
                Err(what) => Err(AutostartError::ExePath(what)),
            },
        }
    }

    /// A backend over an explicit autostart directory and executable.
    pub fn at(dir: Vec<u8>, exe: String) -> (backend: Self)
        ensures
            backend.bound_dir() == Ok::<Seq<u8>, ErrorModel>(dir@),
            backend.bound_exe() == Ok::<Seq<char>, ErrorModel>(exe@),
    {
        LinuxAutostart { dir: Ok(dir), exe: Ok(exe) }
    }

    /// The entry's full path.
    pub fn entry(&self) -> (entry: Result<Vec<u8>, AutostartError>)
        ensures
            match self.bound_dir() {
                Ok(dir) => entry matches Ok(full) && full@ == files::entry_path(dir, ENTRY_FILE@),
                Err(e) => entry matches Err(err) && err@ == e,
            },
    {
        match &self.dir {
            Ok(dir) => Ok(path::join(dir.as_slice(), ENTRY_FILE.as_bytes())),
            Err(e) => Err(clone_error(e)),
        }
    }

    /// Whether Duja is registered, from what reading [`LinuxAutostart::entry`]
    /// gave. Present is not the same as enabled: an entry that the desktop was
    /// told to ignore reads as disabled.
    pub fn is_enabled(&self, read: FileRead) -> (enabled: Result<bool, AutostartError>)
        ensures
            match self.bound_dir() {
                Err(e) => enabled matches Err(err) && err@ == e,
                Ok(_) => match read {
                    FileRead::Contents(contents) => enabled matches Ok(on) && on
                        == xdg_entry::entry_enabled(contents@),
                    FileRead::Missing => enabled matches Ok(on) && !on,
                    FileRead::Failed(what) => enabled matches Err(e) && e@ == ErrorModel::Io(what@),
                },
            },
    {
        if let Err(e) = &self.dir {
            return Err(clone_error(e));
        }
        match read {
            FileRead::Contents(contents) => Ok(xdg_entry::is_entry_enabled(contents.as_str())),
            FileRead::Missing => Ok(false),
            FileRead::Failed(what) => Err(AutostartError::Io(what)),
        }
    }

    /// Begin enabling or disabling launch at login. `pid` marks the staging file.
    pub fn set_enabled(&self, on: bool, pid: u32) -> (change: Result<Change, AutostartError>)
        ensures
            match self.bound_dir() {
                Err(e) => change matches Err(err) && err@ == e,
                Ok(dir) => if !on {
                    change matches Ok(c) && c@ == files::removing(
                        dir,
                        ENTRY_FILE@,
                        pid,
                        Wording::Bare,
                    )
                } else {
                    match self.bound_exe() {
                        Err(e) => change matches Err(err) && err@ == e,
                        Ok(exe) => change matches Ok(c) && c@ == files::writing(
                            dir,
                            ENTRY_FILE@,
                            pid,
                            xdg_entry::entry_for(exe),
                            Wording::Bare,
                        ),
                    }
                },
            },
    {
        match &self.dir {
            Err(e) => Err(clone_error(e)),
            Ok(dir) => if !on {
                Ok(Change::remove(dir.as_slice(), ENTRY_FILE, pid, Wording::Bare))
            } else {
                match &self.exe {
                    Err(e) => Err(clone_error(e)),
                    Ok(exe) => Ok(
                        Change::write(
                            dir.as_slice(),
                            ENTRY_FILE,
                            pid,
                            xdg_entry::desktop_entry(exe.as_str()),
                            Wording::Bare,
                        ),
                    ),
                }
            },
        }
    }
}

/// The platform backend for Linux.
#[must_use]
pub fn system(
    xdg: Option<&[u8]>,
    home: Option<&[u8]>,
    current_exe: Result<String, String>,
) -> (backend: LinuxAutostart)
    ensures
        backend.bound_dir() == match config_dir(opt_view(xdg), opt_view(home)) {
            Some(config) => Ok::<Seq<u8>, ErrorModel>(
                path::joined(config, path::SEPARATOR, vstd::utf8::encode_utf8("autostart"@)),
            ),
            None => Err(no_home()),
        },
        backend.bound_exe() == match current_exe {
            Ok(exe) => Ok::<Seq<char>, ErrorModel>(exe@),
            Err(what) => Err(ErrorModel::ExePath(what@)),
        },
{
    LinuxAutostart::system(xdg, home, current_exe)
}

/// A relative or empty `XDG_CONFIG_HOME` decides nothing: the directory is the
/// one that the home directory alone gives.
pub proof fn law_relative_config_home_is_ignored(xdg: Seq<u8>, home: Option<Seq<u8>>)
    requires
        !path::is_absolute(xdg),
    ensures
        config_dir(Some(xdg), home) == config_dir(None, home),
{
}

/// Enabling, then reading the entry back, gives an enabled registration; so does
/// enabling over any earlier state. After disabling there is no entry to read.
pub proof fn law_enabled_state_is_read_back(
    dir: Seq<u8>,
    exe: Seq<char>,
    pid: u32,
    start: files::Files,
)
    ensures
        ({
            let entry = files::entry_path(dir, ENTRY_FILE@);
            let on = files::changed(
                files::writing(dir, ENTRY_FILE@, pid, xdg_entry::entry_for(exe), Wording::Bare),
                start,
            );
            let off = files::changed(files::removing(dir, ENTRY_FILE@, pid, Wording::Bare), start);
            &&& on.held.dom().contains(entry)
            &&& xdg_entry::entry_enabled(on.held[entry])
            &&& !off.held.dom().contains(entry)
        }),
{
    xdg_entry::law_written_entry_is_enabled(exe);
}

/// An absolute `XDG_CONFIG_HOME` is the configuration directory as it is, whatever the
/// home directory; without one it is `.config` in the home directory; and with neither
/// there is none.
pub proof fn law_config_home_then_home(xdg: Option<Seq<u8>>, home: Seq<u8>, other: Option<Seq<u8>>)
    ensures
        xdg matches Some(x) ==> x.len() > 0 && x[0] == 0x2f ==> config_dir(xdg, other) == Some(x),
        (xdg matches Some(x) ==> x.len() == 0 || x[0] != 0x2f) ==> {
            &&& home.len() > 0 && home[home.len() - 1] != 0x2f ==> config_dir(xdg, Some(home))
                == Some(home + seq![0x2fu8] + vstd::utf8::encode_utf8(".config"@))
            &&& config_dir(xdg, None) is None
        },
        ENTRY_FILE@ == "io.github.itabajah.duja.desktop"@,
{
    path::law_one_separator_between_base_and_path(home, vstd::utf8::encode_utf8(".config"@));
}

} // verus!
