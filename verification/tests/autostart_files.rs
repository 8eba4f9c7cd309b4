use std::collections::BTreeMap;

use duja_platform::autostart::files::{Change, FileRead, Outcome, Progress, Request, Wording};
use duja_platform::autostart::linux::{self, autostart_dir, LinuxAutostart, ENTRY_FILE};
use duja_platform::autostart::mac::{self, launch_agents_dir, MacAutostart};
use duja_platform::autostart::plist::{parse_program_argument0, plist_file_name};
use duja_platform::autostart::AutostartError;
use duja_platform::path::{absolute, copy_bytes, join};

/// A file system in memory, and the directories made in it.
struct Files {
    held: BTreeMap<Vec<u8>, String>,
    dirs: Vec<Vec<u8>>,
}

impl Files {
    fn new() -> Self {
        Files {
            held: BTreeMap::new(),
            dirs: Vec::new(),
        }
    }

    fn perform(&mut self, request: &Request<'_>) -> Outcome {
        match request {
            Request::Remove(path) => match self.held.remove(*path) {
                Some(_) => Outcome::Done,
                None => Outcome::Missing("no such file".to_owned()),
            },
            Request::CreateDir(path) => {
                self.dirs.push(path.to_vec());
                Outcome::Done
            }
            Request::Write(path, contents) => {
                self.held.insert(path.to_vec(), (*contents).to_owned());
                Outcome::Done
            }
            Request::Rename(from, to) => match self.held.remove(*from) {
                Some(contents) => {
                    self.held.insert(to.to_vec(), contents);
                    Outcome::Done
                }
                None => Outcome::Missing("no such file".to_owned()),
            },
        }
    }

    fn run(&mut self, change: Change) -> Result<(), AutostartError> {
        let mut change = change;
        loop {
            let outcome = self.perform(&change.request());
            match change.after(outcome) {
                Progress::Continue(next) => change = next,
                Progress::Finished(result) => return result,
            }
        }
    }

    fn read(&self, path: &[u8]) -> FileRead {
        match self.held.get(path) {
            Some(contents) => FileRead::Contents(contents.clone()),
            None => FileRead::Missing,
        }
    }
}

fn backend() -> (LinuxAutostart, Vec<u8>) {
    let dir = b"/tmp/x/config/autostart".to_vec();
    let entry = join(&dir, ENTRY_FILE.as_bytes());
    (
        LinuxAutostart::at(dir, "/usr/local/bin/duja".to_owned()),
        entry,
    )
}

fn enabled(autostart: &LinuxAutostart, files: &Files) -> bool {
    let entry = autostart.entry().expect("a directory");
    autostart.is_enabled(files.read(&entry)).expect("query")
}

fn set(autostart: &LinuxAutostart, files: &mut Files, on: bool) {
    let change = autostart.set_enabled(on, 4242).expect("begin");
    files.run(change).expect("change");
}

#[test]
fn enabling_creates_the_directory_and_the_entry() {
    let mut files = Files::new();
    let (autostart, entry) = backend();
    assert!(!enabled(&autostart, &files));

    set(&autostart, &mut files, true);

    assert!(files.held.contains_key(&entry), "the entry was not written");
    assert_eq!(files.dirs, [b"/tmp/x/config/autostart".to_vec()]);
    assert!(enabled(&autostart, &files));
    let contents = files.held.get(&entry).expect("read");
    assert!(contents.contains("/usr/local/bin/duja"), "{contents}");
}

#[test]
fn both_directions_are_idempotent() {
    let mut files = Files::new();
    let (autostart, _) = backend();

    set(&autostart, &mut files, false);
    assert!(!enabled(&autostart, &files));

    set(&autostart, &mut files, true);
    set(&autostart, &mut files, true);
    assert!(enabled(&autostart, &files));

    set(&autostart, &mut files, false);
    set(&autostart, &mut files, false);
    assert!(!enabled(&autostart, &files));
}

#[test]
fn disabling_removes_the_file_rather_than_marking_it() {
    let mut files = Files::new();
    let (autostart, entry) = backend();
    set(&autostart, &mut files, true);
    assert!(files.held.contains_key(&entry));

    set(&autostart, &mut files, false);

    assert!(
        !files.held.contains_key(&entry),
        "the entry was marked rather than deleted"
    );
}

#[test]
fn no_staging_file_is_left_behind() {
    let mut files = Files::new();
    let (autostart, entry) = backend();

    set(&autostart, &mut files, true);

    let names: Vec<Vec<u8>> = files.held.keys().cloned().collect();
    assert_eq!(names, [entry]);
}

#[test]
fn an_entry_disabled_by_the_desktop_reads_as_disabled() {
    let mut files = Files::new();
    let (autostart, entry) = backend();
    set(&autostart, &mut files, true);
    assert!(enabled(&autostart, &files));

    let disabled = files.held.get(&entry).expect("read").replace(
        "X-GNOME-Autostart-enabled=true",
        "X-GNOME-Autostart-enabled=false",
    );
    files.held.insert(entry, disabled);

    assert!(!enabled(&autostart, &files));
}

#[test]
fn a_relative_config_home_is_ignored_rather_than_honoured() {
    assert!(!absolute(b"relative/config"));
    assert!(!absolute(b""));
    assert!(absolute(b"/home/ana/.config"));

    let home: Option<&[u8]> = Some(b"/home/ana");
    for ignored in [&b"relative/config"[..], &b""[..]] {
        assert_eq!(
            autostart_dir(Some(ignored), home).expect("home is set"),
            b"/home/ana/.config/autostart".to_vec()
        );
    }
    assert_eq!(
        autostart_dir(Some(b"/etc/xdg/"), home).expect("absolute"),
        b"/etc/xdg/autostart".to_vec()
    );
}

#[test]
fn a_missing_home_surfaces_on_the_call_that_needs_it() {
    let autostart = linux::system(None, None, Ok("/usr/bin/duja".to_owned()));
    assert!(matches!(
        autostart.entry(),
        Err(AutostartError::ExePath(m)) if m == "HOME is not set"
    ));
    assert!(autostart.is_enabled(FileRead::Missing).is_err());
    assert!(autostart.set_enabled(false, 1).is_err());

    let no_exe = LinuxAutostart::system(None, Some(b"/home/ana"), Err("deleted".to_owned()));
    assert!(matches!(
        no_exe.set_enabled(true, 1),
        Err(AutostartError::ExePath(m)) if m == "deleted"
    ));
    assert!(no_exe.set_enabled(false, 1).is_ok());
    assert!(matches!(
        no_exe.is_enabled(FileRead::Failed("x: denied".to_owned())),
        Err(AutostartError::Io(m)) if m == "x: denied"
    ));
}

#[test]
fn a_failed_rename_discards_the_staging_file_and_keeps_the_entry() {
    let change = Change::write(b"/d", "e", 7, "new".to_owned(), Wording::Bare);
    let Progress::Continue(change) = change.after(Outcome::Done) else {
        panic!("the directory exists");
    };
    assert!(matches!(
        change.request(),
        Request::Write(path, "new") if path == &b"/d/e.tmp.7"[..]
    ));
    let Progress::Continue(change) = change.after(Outcome::Done) else {
        panic!("the staging file is written");
    };
    assert!(matches!(
        change.request(),
        Request::Rename(from, to) if from == &b"/d/e.tmp.7"[..] && to == &b"/d/e"[..]
    ));
    let Progress::Continue(change) = change.after(Outcome::Failed("/d/e: busy".to_owned())) else {
        panic!("the staging file is removed first");
    };
    assert!(matches!(
        change.request(),
        Request::Remove(path) if path == &b"/d/e.tmp.7"[..]
    ));
    assert!(matches!(
        change.after(Outcome::Failed("ignored".to_owned())),
        Progress::Finished(Err(AutostartError::Io(m))) if m == "/d/e: busy"
    ));
}

#[test]
fn each_failing_step_is_worded() {
    let fail = || Outcome::Failed("/p: no".to_owned());
    let wording = |change: Change| match change.after(fail()) {
        Progress::Finished(Err(AutostartError::Io(m))) => m,
        Progress::Continue(next) => match next.after(Outcome::Done) {
            Progress::Finished(Err(AutostartError::Io(m))) => m,
            _ => panic!("a discarded change fails"),
        },
        Progress::Finished(_) => panic!("a failed step fails the change"),
    };
    let start = || Change::write(b"/d", "e", 7, "new".to_owned(), Wording::Verbs);
    let step = |change: Change| match change.after(Outcome::Done) {
        Progress::Continue(next) => next,
        Progress::Finished(_) => panic!("more steps follow"),
    };
    assert_eq!(wording(start()), "creating /p: no");
    assert_eq!(wording(step(start())), "writing /p: no");
    assert_eq!(wording(step(step(start()))), "renaming into /p: no");
    assert_eq!(
        wording(Change::remove(b"/d", "e", 7, Wording::Verbs)),
        "removing /p: no"
    );
    assert_eq!(
        wording(Change::remove(b"/d", "e", 7, Wording::Bare)),
        "/p: no"
    );
    let missing = start().after(Outcome::Missing("/p: gone".to_owned()));
    assert!(matches!(
        missing,
        Progress::Finished(Err(AutostartError::Io(m))) if m == "creating /p: gone"
    ));
}

fn mac_backend() -> (MacAutostart, Vec<u8>) {
    let dir = b"/tmp/agents".to_vec();
    let plist = join(&dir, plist_file_name().as_bytes());
    (
        MacAutostart::at(
            dir,
            "/Applications/Duja.app/Contents/MacOS/duja".to_owned(),
        ),
        plist,
    )
}

fn mac_set(backend: &MacAutostart, files: &mut Files, on: bool) {
    let change = backend.set_enabled(on, 99).expect("begin");
    files.run(change).expect("change");
}

fn mac_enabled(backend: &MacAutostart, files: &Files) -> bool {
    backend
        .is_enabled(files.read(&backend.plist_path()))
        .expect("query")
}

#[test]
fn disabled_when_no_plist_exists() {
    let (backend, _) = mac_backend();
    assert!(!mac_enabled(&backend, &Files::new()));
}

#[test]
fn enable_writes_the_plist_then_reads_enabled() {
    let mut files = Files::new();
    let (backend, plist) = mac_backend();
    mac_set(&backend, &mut files, true);
    assert!(files.held.contains_key(&plist), "the plist file was written");
    assert!(mac_enabled(&backend, &files));

    let contents = files.held.get(&plist).expect("read plist");
    assert_eq!(
        parse_program_argument0(contents).as_deref(),
        Some("/Applications/Duja.app/Contents/MacOS/duja")
    );
}

#[test]
fn disable_removes_the_plist_and_is_idempotent() {
    let mut files = Files::new();
    let (backend, plist) = mac_backend();
    mac_set(&backend, &mut files, true);
    mac_set(&backend, &mut files, false);
    assert!(
        !files.held.contains_key(&plist),
        "the plist file was removed"
    );
    assert!(!mac_enabled(&backend, &files));
    mac_set(&backend, &mut files, false);
}

#[test]
fn mac_enable_is_idempotent() {
    let mut files = Files::new();
    let (backend, _) = mac_backend();
    mac_set(&backend, &mut files, true);
    mac_set(&backend, &mut files, true);
    assert!(mac_enabled(&backend, &files));
    assert_eq!(files.held.len(), 1);
}

#[test]
fn a_copy_on_a_mounted_volume_cannot_be_registered() {
    let exe = "/Volumes/Duja/Duja.app/Contents/MacOS/duja";
    let backend = MacAutostart::at(b"/tmp/agents".to_vec(), exe.to_owned());
    assert!(matches!(
        backend.set_enabled(true, 1),
        Err(AutostartError::Io(m)) if m.contains(exe)
    ));
    assert!(backend.set_enabled(false, 1).is_ok());
}

#[test]
fn the_mac_backend_resolves_its_directory_and_words_its_failures() {
    let home: Option<&[u8]> = Some(b"/Users/me");
    assert_eq!(
        launch_agents_dir(home),
        Some(b"/Users/me/Library/LaunchAgents".to_vec())
    );
    assert_eq!(launch_agents_dir(None), None);
    let backend = mac::system(Ok("/x/duja".to_owned()), home).expect("both are known");
    assert_eq!(
        backend.plist_path(),
        b"/Users/me/Library/LaunchAgents/io.github.itabajah.duja.plist".to_vec()
    );
    assert!(matches!(
        mac::system(Err("gone".to_owned()), home),
        Err(AutostartError::ExePath(m)) if m == "gone"
    ));
    assert!(matches!(
        mac::system(Ok("/x/duja".to_owned()), None),
        Err(AutostartError::Io(m)) if m == "no home directory for ~/Library/LaunchAgents"
    ));
    assert!(matches!(
        backend.is_enabled(FileRead::Failed("/p: denied".to_owned())),
        Err(AutostartError::Io(m)) if m == "reading /p: denied"
    ));
}

#[test]
fn paths_join_with_one_separator() {
    assert_eq!(join(b"/a", b"b"), b"/a/b".to_vec());
    assert_eq!(join(b"/a/", b"b"), b"/a/b".to_vec());
    assert_eq!(join(b"", b"b"), b"b".to_vec());
    assert_eq!(copy_bytes(b"\xff/x"), b"\xff/x".to_vec());
}
