//! Launch-at-login on macOS: a `launchd` `LaunchAgent` plist.
//!
//! Enabling writes `~/Library/LaunchAgents/io.github.itabajah.duja.plist`,
//! disabling removes it, and the registration counts as enabled while the file
//! carries a program path, even one that is stale: enabling always rewrites the
//! file with the current executable.

use vstd::prelude::*;

use super::files::{Change, FileRead, Wording};
use super::{files, mac_location, plist, AutostartError, ErrorModel};
use crate::path;
use crate::text;

verus! {

/// The macOS launch-at-login backend.
#[derive(Debug)]
pub struct MacAutostart {
    /// The `LaunchAgents` directory.
    dir: Vec<u8>,
    /// The executable to register, captured at construction.
    exe: String,
}

/// The plist's file name.
pub open spec fn file_name() -> Seq<char> {
    "io.github.itabajah.duja.plist"@
}

/// `~/Library/LaunchAgents` in a home directory.
pub open spec fn agents_dir(home: Seq<u8>) -> Seq<u8> {
    path::joined(
        path::joined(home, path::SEPARATOR, vstd::utf8::encode_utf8("Library"@)),
        path::SEPARATOR,
        vstd::utf8::encode_utf8("LaunchAgents"@),
    )
}

/// `~/Library/LaunchAgents`, or `None` with no home directory.
pub fn launch_agents_dir(home: Option<&[u8]>) -> (dir: Option<Vec<u8>>)
    ensures
        match home {
            Some(h) => dir matches Some(d) && d@ == agents_dir(h@),
            None => dir is None,
        },
{
    match home {
        Some(home) => {
            let library: Vec<u8> = path::join(home, "Library".as_bytes());
            Some(path::join(library.as_slice(), "LaunchAgents".as_bytes()))
        },
        None => None,
    }
}

impl MacAutostart {
    /// The directory it writes to.
    pub closed spec fn bound_dir(&self) -> Seq<u8> {
        self.dir@
    }

    /// The executable it registers.
    pub closed spec fn bound_exe(&self) -> Seq<char> {
        self.exe@
    }

    /// A backend over an explicit `LaunchAgents` directory and executable.
    pub fn at(dir: Vec<u8>, exe: String) -> (backend: Self)
        ensures
            backend.bound_dir() == dir@,
            backend.bound_exe() == exe@,
    {
        MacAutostart { dir, exe }
    }

    /// The plist's full path.
    pub fn plist_path(&self) -> (full: Vec<u8>)
        ensures
            full@ == files::entry_path(self.bound_dir(), file_name()),
    {
        path::join(self.dir.as_slice(), plist::plist_file_name().as_str().as_bytes())
    }

    /// Whether Duja is registered, from what reading
    /// [`MacAutostart::plist_path`] gave.
    pub fn is_enabled(&self, read: FileRead) -> (enabled: Result<bool, AutostartError>)
        ensures
            match read {
                FileRead::Contents(contents) => enabled matches Ok(on) && on
                    == plist::program_argument0(contents@) is Some,
                FileRead::Missing => enabled matches Ok(on) && !on,
                FileRead::Failed(what) => enabled matches Err(e) && e@ == ErrorModel::Io(
                    "reading "@ + what@,
                ),
            },
    {
        match read {
            FileRead::Contents(contents) => Ok(
                plist::parse_program_argument0(contents.as_str()).is_some(),
            ),
            FileRead::Missing => Ok(false),
            FileRead::Failed(what) => Err(AutostartError::Io(text::join2("reading ", what.as_str()))),
        }
    }

    /// Begin enabling or disabling launch at login. `pid` marks the staging file.
    ///
    /// Enabling is refused for an executable on a volume that can be unmounted:
    /// the login item would die with the volume, while still reading as enabled.
    pub fn set_enabled(&self, on: bool, pid: u32) -> (change: Result<Change, AutostartError>)
        ensures
            if !on {
                change matches Ok(c) && c@ == files::removing(
                    self.bound_dir(),
                    file_name(),
                    pid,
                    Wording::Verbs,
                )
            } else if mac_location::on_mounted_volume(self.bound_exe()) {
                change matches Err(e) && e@ == ErrorModel::Io(
                    mac_location::refusal_text(self.bound_exe()),
                )
            } else {
                change matches Ok(c) && c@ == files::writing(
                    self.bound_dir(),
                    file_name(),
                    pid,
                    plist::plist_for(self.bound_exe()),
                    Wording::Verbs,
                )
            },
    {
        let name: String = plist::plist_file_name();
        if !on {
            Ok(Change::remove(self.dir.as_slice(), name.as_str(), pid, Wording::Verbs))
        } else if mac_location::is_on_a_mounted_volume(self.exe.as_str()) {
            Err(AutostartError::Io(mac_location::mounted_volume_message(self.exe.as_str())))
        } else {
            Ok(
                Change::write(
                    self.dir.as_slice(),
                    name.as_str(),
                    pid,
                    plist::generate_plist(self.exe.as_str()),
                    Wording::Verbs,
                ),
            )
        }
    }
}

/// Build the backend from the current executable's path and the home directory.
///
/// # Errors
/// [`AutostartError::ExePath`] if the executable path could not be resolved;
/// [`AutostartError::Io`] if there is no home directory.
pub fn system(current_exe: Result<String, String>, home: Option<&[u8]>) -> (backend: Result<
    MacAutostart,
    AutostartError,
>)
    ensures
        match current_exe {
            Err(what) => backend matches Err(e) && e@ == ErrorModel::ExePath(what@),
            Ok(exe) => match home {
                None => backend matches Err(e) && e@ == ErrorModel::Io(
                    "no home directory for ~/Library/LaunchAgents"@,
                ),
                Some(h) => backend matches Ok(b) && b.bound_exe() == exe@ && b.bound_dir()
                    == agents_dir(h@),
            },
        },
{
    match current_exe {
        Err(what) => Err(AutostartError::ExePath(what)),
        Ok(exe) => match launch_agents_dir(home) {
            None => Err(
                AutostartError::Io("no home directory for ~/Library/LaunchAgents".to_owned()),
            ),
            Some(dir) => Ok(MacAutostart { dir, exe }),
        },
    }
}

/// Enabling, then reading the plist back, gives an enabled registration for
/// exactly the executable that was registered; after disabling there is no plist
/// to read.
pub proof fn law_enabled_state_is_read_back(
    dir: Seq<u8>,
    exe: Seq<char>,
    pid: u32,
    start: files::Files,
)
    ensures
        ({
            let entry = files::entry_path(dir, file_name());
            let on = files::changed(
                files::writing(dir, file_name(), pid, plist::plist_for(exe), Wording::Verbs),
                start,
            );
            let off = files::changed(files::removing(dir, file_name(), pid, Wording::Verbs), start);
            &&& on.held.dom().contains(entry)
            &&& plist::program_argument0(on.held[entry]) == Some(exe)
            &&& !off.held.dom().contains(entry)
        }),
{
    plist::law_generated_plist_parses_back(exe);
}

/// Launch agents are kept in `Library/LaunchAgents` of the home directory, under the
/// label's file name.
pub proof fn law_agents_are_kept_in_the_library(home: Seq<u8>)
    requires
        home.len() > 0,
        home[home.len() - 1] != 0x2f,
    ensures
        agents_dir(home) == home + seq![0x2fu8] + vstd::utf8::encode_utf8("Library"@) + seq![0x2fu8]
            + vstd::utf8::encode_utf8("LaunchAgents"@),
        file_name() == "io.github.itabajah.duja.plist"@,
{
    let library = vstd::utf8::encode_utf8("Library"@);
    path::law_one_separator_between_base_and_path(home, library);
    let dir = home + seq![0x2fu8] + library;
    reveal_strlit("Library");
    assert(vstd::utf8::is_ascii_chars("Library"@)) by {
        assert forall|i: int| 0 <= i < "Library"@.len() implies '\0' <= #[trigger] "Library"@[i]
            <= '\u{7f}' by {
            assert(i == 0 || i == 1 || i == 2 || i == 3 || i == 4 || i == 5 || i == 6);
        }
    }
    vstd::utf8::is_ascii_chars_encode_utf8("Library"@);
    assert(library[6] == 'y' as u8) by {
        assert("Library"@[6] == 'y');
    }
    assert(dir[dir.len() - 1] == library[6]);
    path::law_one_separator_between_base_and_path(dir, vstd::utf8::encode_utf8("LaunchAgents"@));
}

} // verus!
