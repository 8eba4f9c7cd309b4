//! A registration kept as one file: the steps that write or remove it, and what
//! each step's outcome leads to.
//!
//! A backend performs the request of a [`Change`], hands the outcome back, and
//! goes on until the change is finished. Writing is staged: the contents go to a
//! file beside the entry, which is then renamed over it, so that a reader sees
//! the old entry or the new one and nothing in between.

use vstd::prelude::*;

use super::{AutostartError, ErrorModel};
use crate::path;
use crate::text;

verus! {

/// What came of one file operation. The text names the path and the OS's
/// description of the failure.
#[derive(Debug)]
pub enum Outcome {
    /// It was done.
    Done,
    /// It failed because a file or directory was not there.
    Missing(String),
    /// It failed for another reason.
    Failed(String),
}

/// An outcome, with its text as a sequence.
pub ghost enum OutcomeModel {
    Done,
    Missing(Seq<char>),
    Failed(Seq<char>),
}

impl View for Outcome {
    type V = OutcomeModel;

    open spec fn view(&self) -> OutcomeModel {
        match self {
            Outcome::Done => OutcomeModel::Done,
            Outcome::Missing(what) => OutcomeModel::Missing(what@),
            Outcome::Failed(what) => OutcomeModel::Failed(what@),
        }
    }
}

/// What came of reading a file as text.
#[derive(Debug)]
pub enum FileRead {
    /// The file's contents.
    Contents(String),
    /// There is no such file.
    Missing,
    /// It could not be read; the text names the path and the failure.
    Failed(String),
}

/// How a backend words its failures.
#[derive(Debug, Clone, Copy, PartialEq, Eq, Structural)]
pub enum Wording {
    /// The path and the OS's description alone.
    Bare,
    /// The operation in front of them.
    Verbs,
}

/// The step of a change that comes next.
#[derive(Debug)]
pub enum Step {
    /// Remove the entry.
    Remove,
    /// Create the directory that holds the entry.
    CreateDir,
    /// Write the staging file.
    Write,
    /// Rename the staging file over the entry.
    Rename,
    /// Remove the staging file, after a failed rename with this error text.
    Discard(String),
}

/// A step, with its text as a sequence.
pub ghost enum StepModel {
    Remove,
    CreateDir,
    Write,
    Rename,
    Discard(Seq<char>),
}

impl View for Step {
    type V = StepModel;

    open spec fn view(&self) -> StepModel {
        match self {
            Step::Remove => StepModel::Remove,
            Step::CreateDir => StepModel::CreateDir,
            Step::Write => StepModel::Write,
            Step::Rename => StepModel::Rename,
            Step::Discard(error) => StepModel::Discard(error@),
        }
    }
}

/// What follows a step.
pub ghost enum NextModel {
    /// Another step.
    Go(StepModel),
    /// The change is made.
    Succeeded,
    /// The change failed, with this error text.
    Failed(Seq<char>),
}

/// The words in front of a failure of `step`.
pub open spec fn failure_prefix(step: StepModel, wording: Wording) -> Seq<char> {
    match wording {
        Wording::Bare => Seq::empty(),
        Wording::Verbs => match step {
            StepModel::Remove => "removing "@,
            StepModel::CreateDir => "creating "@,
            StepModel::Write => "writing "@,
            StepModel::Rename => "renaming into "@,
            StepModel::Discard(_) => Seq::empty(),
        },
    }
}

/// What follows `step` once it came out as `outcome`.
///
/// Removing an absent entry is success. A failed rename is reported after the
/// staging file has been removed, whatever came of that.
pub open spec fn next_step(step: StepModel, outcome: OutcomeModel, wording: Wording) -> NextModel {
    match step {
        StepModel::Discard(error) => NextModel::Failed(error),
        _ => match outcome {
            OutcomeModel::Done => match step {
                StepModel::CreateDir => NextModel::Go(StepModel::Write),
                StepModel::Write => NextModel::Go(StepModel::Rename),
                _ => NextModel::Succeeded,
            },
            OutcomeModel::Missing(what) => match step {
                StepModel::Remove => NextModel::Succeeded,
                StepModel::Rename => NextModel::Go(
                    StepModel::Discard(failure_prefix(step, wording) + what),
                ),
                _ => NextModel::Failed(failure_prefix(step, wording) + what),
            },
            OutcomeModel::Failed(what) => match step {
                StepModel::Rename => NextModel::Go(
                    StepModel::Discard(failure_prefix(step, wording) + what),
                ),
                _ => NextModel::Failed(failure_prefix(step, wording) + what),
            },
        },
    }
}

/// A change of a registration under way.
#[derive(Debug)]
pub struct Change {
    /// The directory that holds the entry.
    pub dir: Vec<u8>,
    /// The entry's path.
    pub entry: Vec<u8>,
    /// The staging file's path, beside the entry.
    pub staged: Vec<u8>,
    /// What the entry is to hold; unused when it is removed.
    pub contents: String,
    /// How failures are worded.
    pub wording: Wording,
    /// The step that comes next.
    pub step: Step,
}

/// A change, as its paths, contents and step.
pub ghost struct ChangeModel {
    pub dir: Seq<u8>,
    pub entry: Seq<u8>,
    pub staged: Seq<u8>,
    pub contents: Seq<char>,
    pub wording: Wording,
    pub step: StepModel,
}

impl View for Change {
    type V = ChangeModel;

    open spec fn view(&self) -> ChangeModel {
        ChangeModel {
            dir: self.dir@,
            entry: self.entry@,
            staged: self.staged@,
            contents: self.contents@,
            wording: self.wording,
            step: self.step@,
        }
    }
}

/// A file operation for the backend to perform.
#[derive(Debug)]
pub enum Request<'a> {
    /// Remove a file.
    Remove(&'a [u8]),
    /// Create a directory and those above it.
    CreateDir(&'a [u8]),
    /// Write a file whole.
    Write(&'a [u8], &'a str),
    /// Rename the first path to the second.
    Rename(&'a [u8], &'a [u8]),
}

/// A request, by its paths and contents.
pub ghost enum RequestModel {
    Remove(Seq<u8>),
    CreateDir(Seq<u8>),
    Write(Seq<u8>, Seq<char>),
    Rename(Seq<u8>, Seq<u8>),
}

impl View for Request<'_> {
    type V = RequestModel;

    open spec fn view(&self) -> RequestModel {
        match self {
            Request::Remove(path) => RequestModel::Remove(path@),
            Request::CreateDir(path) => RequestModel::CreateDir(path@),
            Request::Write(path, contents) => RequestModel::Write(path@, contents@),
            Request::Rename(from, to) => RequestModel::Rename(from@, to@),
        }
    }
}

/// The operation a change asks for.
pub open spec fn request_of(change: ChangeModel) -> RequestModel {
    match change.step {
        StepModel::Remove => RequestModel::Remove(change.entry),
        StepModel::CreateDir => RequestModel::CreateDir(change.dir),
        StepModel::Write => RequestModel::Write(change.staged, change.contents),
        StepModel::Rename => RequestModel::Rename(change.staged, change.entry),
        StepModel::Discard(_) => RequestModel::Remove(change.staged),
    }
}

/// Whether a change is finished, and how.
#[derive(Debug)]
pub enum Progress {
    /// Perform the change's next request.
    Continue(Change),
    /// This is the result.
    Finished(Result<(), AutostartError>),
}

/// The path of the file `name` in `dir`.
pub open spec fn entry_path(dir: Seq<u8>, name: Seq<char>) -> Seq<u8> {
    path::joined(dir, path::SEPARATOR, vstd::utf8::encode_utf8(name))
}

/// The name of the staging file for `name`, marked with a process id.
pub open spec fn staging_name(name: Seq<char>, pid: u32) -> Seq<char> {
    name + ".tmp."@ + text::decimal_digits(pid as nat)
}

/// The change that writes `contents` to the file `name` in `dir`.
pub open spec fn writing(
    dir: Seq<u8>,
    name: Seq<char>,
    pid: u32,
    contents: Seq<char>,
    wording: Wording,
) -> ChangeModel {
    ChangeModel {
        dir,
        entry: entry_path(dir, name),
        staged: entry_path(dir, staging_name(name, pid)),
        contents,
        wording,
        step: StepModel::CreateDir,
    }
}

/// The change that removes the file `name` in `dir`.
pub open spec fn removing(dir: Seq<u8>, name: Seq<char>, pid: u32, wording: Wording) -> ChangeModel {
    ChangeModel { step: StepModel::Remove, ..writing(dir, name, pid, Seq::empty(), wording) }
}

fn path_in(dir: &[u8], name: &str) -> (full: Vec<u8>)
    ensures
        full@ == entry_path(dir@, name@),
{
    path::join(dir, name.as_bytes())
}

fn staged_in(dir: &[u8], name: &str, pid: u32) -> (full: Vec<u8>)
    ensures
        full@ == entry_path(dir@, staging_name(name@, pid)),
{
    let mut staged: String = text::join2(name, ".tmp.");
    staged.append(text::decimal(pid as u64).as_str());
    path_in(dir, staged.as_str())
}

impl Change {
    /// Begin writing `contents` to the file `name` in `dir`.
    pub fn write(
        dir: &[u8],
        name: &str,
        pid: u32,
        contents: String,
        wording: Wording,
    ) -> (change: Change)
        ensures
            change@ == writing(dir@, name@, pid, contents@, wording),
    {
        Change {
            dir: path::copy_bytes(dir),
            entry: path_in(dir, name),
            staged: staged_in(dir, name, pid),
            contents,
            wording,
            step: Step::CreateDir,
        }
    }

    /// Begin removing the file `name` in `dir`.
    pub fn remove(dir: &[u8], name: &str, pid: u32, wording: Wording) -> (change: Change)
        ensures
            change@ == removing(dir@, name@, pid, wording),
    {
        let contents: String = String::new();
        assert(contents@ =~= Seq::<char>::empty());
        Change {
            dir: path::copy_bytes(dir),
            entry: path_in(dir, name),
            staged: staged_in(dir, name, pid),
            contents,
            wording,
            step: Step::Remove,
        }
    }

    /// The operation to perform next.
    pub fn request(&self) -> (request: Request<'_>)
        ensures
            request@ == request_of(self@),
    {
        match &self.step {
            Step::Remove => Request::Remove(self.entry.as_slice()),
            Step::CreateDir => Request::CreateDir(self.dir.as_slice()),
            Step::Write => Request::Write(self.staged.as_slice(), self.contents.as_str()),
            Step::Rename => Request::Rename(self.staged.as_slice(), self.entry.as_slice()),
            Step::Discard(_) => Request::Remove(self.staged.as_slice()),
        }
    }

    /// Take the outcome of the request, and go on or finish.
    pub fn after(self, outcome: Outcome) -> (progress: Progress)
        ensures
            match next_step(self@.step, outcome@, self@.wording) {
                NextModel::Go(step) => progress matches Progress::Continue(next) && next@ == (
                ChangeModel { step, ..self@ }),
                NextModel::Succeeded => progress matches Progress::Finished(Ok(_)),
                NextModel::Failed(what) => progress matches Progress::Finished(Err(e)) && e@
                    == ErrorModel::Io(what),
            },
    {
        let Change { dir, entry, staged, contents, wording, step } = self;
        match step {
            Step::Discard(error) => Progress::Finished(Err(AutostartError::Io(error))),
            Step::Remove => match outcome {
                Outcome::Failed(what) => Progress::Finished(
                    Err(AutostartError::Io(worded(wording, "removing ", what.as_str()))),
                ),
                _ => Progress::Finished(Ok(())),
            },
            Step::CreateDir => match outcome {
                Outcome::Done => Progress::Continue(
                    Change { dir, entry, staged, contents, wording, step: Step::Write },
                ),
                Outcome::Missing(what) | Outcome::Failed(what) => Progress::Finished(
                    Err(AutostartError::Io(worded(wording, "creating ", what.as_str()))),
                ),
            },
            Step::Write => match outcome {
                Outcome::Done => Progress::Continue(
                    Change { dir, entry, staged, contents, wording, step: Step::Rename },
                ),
                Outcome::Missing(what) | Outcome::Failed(what) => Progress::Finished(
                    Err(AutostartError::Io(worded(wording, "writing ", what.as_str()))),
                ),
            },
            Step::Rename => match outcome {
                Outcome::Done => Progress::Finished(Ok(())),
                Outcome::Missing(what) | Outcome::Failed(what) => {
                    let error: String = worded(wording, "renaming into ", what.as_str());
                    Progress::Continue(
                        Change { dir, entry, staged, contents, wording, step: Step::Discard(error) },
                    )
                },
            },
        }
    }
}

fn worded(wording: Wording, verb: &str, what: &str) -> (message: String)
    ensures
        message@ == match wording {
            Wording::Bare => Seq::<char>::empty() + what@,
            Wording::Verbs => verb@ + what@,
        },
{
    match wording {
        Wording::Bare => {
            assert(Seq::<char>::empty() + what@ =~= what@);
            what.to_owned()
        },
        Wording::Verbs => text::join2(verb, what),
    }
}

// -- What a change does to the files ----------------------------------------

/// A file system as the text that each path holds.
pub ghost struct Files {
    pub held: Map<Seq<u8>, Seq<char>>,
}

/// Whether performing `request` on `before` with this outcome can leave `after`.
///
/// A failed write may leave anything under the path it was writing; a rename is
/// whole or not at all.
pub open spec fn performs(
    before: Files,
    request: RequestModel,
    outcome: OutcomeModel,
    after: Files,
) -> bool {
    match request {
        RequestModel::Remove(path) => match outcome {
            OutcomeModel::Done => before.held.dom().contains(path) && after.held
                == before.held.remove(path),
            OutcomeModel::Missing(_) => !before.held.dom().contains(path) && after == before,
            OutcomeModel::Failed(_) => after == before,
        },
        RequestModel::CreateDir(_) => after == before,
        RequestModel::Write(path, contents) => match outcome {
            OutcomeModel::Done => after.held == before.held.insert(path, contents),
            _ => after.held.remove(path) == before.held.remove(path),
        },
        RequestModel::Rename(from, to) => match outcome {
            OutcomeModel::Done => before.held.dom().contains(from) && after.held
                == before.held.remove(from).insert(to, before.held[from]),
            _ => after == before,
        },
    }
}

/// How the files stand while `change` is under way, against those it began with.
pub open spec fn stands(change: ChangeModel, start: Files, now: Files) -> bool {
    match change.step {
        StepModel::Remove | StepModel::CreateDir | StepModel::Write => now == start,
        StepModel::Rename => now.held == start.held.insert(change.staged, change.contents),
        StepModel::Discard(_) => now.held.remove(change.staged) == start.held.remove(
            change.staged,
        ),
    }
}

/// The files after `change` succeeded.
pub open spec fn changed(change: ChangeModel, start: Files) -> Files {
    if change.step is Remove {
        Files { held: start.held.remove(change.entry) }
    } else {
        Files { held: start.held.remove(change.staged).insert(change.entry, change.contents) }
    }
}

/// The staging file is never the entry itself.
pub proof fn law_staging_is_beside_the_entry(dir: Seq<u8>, name: Seq<char>, pid: u32)
    ensures
        entry_path(dir, staging_name(name, pid)) != entry_path(dir, name),
{
    reveal_strlit(".tmp.");
    let plain = vstd::utf8::encode_utf8(name);
    let marked = vstd::utf8::encode_utf8(staging_name(name, pid));
    if entry_path(dir, staging_name(name, pid)) == entry_path(dir, name) {
        let at = entry_path(dir, name).len() - plain.len();
        assert(entry_path(dir, name).skip(at) =~= plain);
        assert(entry_path(dir, staging_name(name, pid)).skip(at) =~= marked);
        vstd::utf8::encode_utf8_decode_utf8(name);
        vstd::utf8::encode_utf8_decode_utf8(staging_name(name, pid));
    }
}

/// At every step of a change nothing but the staging file differs from the
/// start, until the change succeeds as a whole: the entry is never half written,
/// a failure leaves it as it was, success leaves it exactly as asked and leaves
/// no staging file behind.
pub proof fn law_entry_changes_whole_or_not_at_all(
    change: ChangeModel,
    start: Files,
    now: Files,
    outcome: OutcomeModel,
    then: Files,
)
    requires
        change.staged != change.entry,
        stands(change, start, now),
        performs(now, request_of(change), outcome, then),
    ensures
        match next_step(change.step, outcome, change.wording) {
            NextModel::Go(step) => stands((ChangeModel { step, ..change }), start, then),
            NextModel::Succeeded => then.held == changed(change, start).held,
            NextModel::Failed(_) => {
                &&& then.held.remove(change.staged) == start.held.remove(change.staged)
                &&& then.held.dom().contains(change.entry) == start.held.dom().contains(
                    change.entry,
                )
                &&& start.held.dom().contains(change.entry) ==> then.held[change.entry]
                    == start.held[change.entry]
            },
        },
{
    assert(now.held.remove(change.staged).dom().contains(change.entry)
        == now.held.dom().contains(change.entry));
    assert(then.held.remove(change.staged).dom().contains(change.entry)
        == then.held.dom().contains(change.entry));
    assert(start.held.remove(change.staged).dom().contains(change.entry)
        == start.held.dom().contains(change.entry));
    match next_step(change.step, outcome, change.wording) {
        NextModel::Go(_) => {
            if change.step is Rename {
                assert(then.held.remove(change.staged) =~= start.held.remove(change.staged));
            }
        },
        NextModel::Succeeded => {
            assert(then.held =~= changed(change, start).held);
        },
        NextModel::Failed(_) => {
            assert(then.held.remove(change.staged) =~= start.held.remove(change.staged));
            assert(then.held.remove(change.staged)[change.entry] == then.held[change.entry]
                || !then.held.dom().contains(change.entry));
            assert(start.held.remove(change.staged)[change.entry] == start.held[change.entry]
                || !start.held.dom().contains(change.entry));
        },
    }
}

/// Making the same change twice leaves what making it once left.
pub proof fn law_changes_are_idempotent(change: ChangeModel, start: Files)
    requires
        change.staged != change.entry,
    ensures
        changed(change, changed(change, start)).held == changed(change, start).held,
{
    assert(changed(change, changed(change, start)).held =~= changed(change, start).held);
}

/// Where every operation can be done, both changes succeed: writing takes its
/// three operations in order, removing its one, also when there is nothing to
/// remove.
pub proof fn law_unhindered_changes_succeed(wording: Wording, what: Seq<char>)
    ensures
        next_step(StepModel::CreateDir, OutcomeModel::Done, wording) == NextModel::Go(
            StepModel::Write,
        ),
        next_step(StepModel::Write, OutcomeModel::Done, wording) == NextModel::Go(
            StepModel::Rename,
        ),
        next_step(StepModel::Rename, OutcomeModel::Done, wording) == NextModel::Succeeded,
        next_step(StepModel::Remove, OutcomeModel::Done, wording) == NextModel::Succeeded,
        next_step(StepModel::Remove, OutcomeModel::Missing(what), wording) == NextModel::Succeeded,
{
}

/// A change names its files by the directory and the entry's name: what is written is
/// first staged under the entry's name with a mark and the process id behind it.
pub proof fn law_changes_name_their_files(
    dir: Seq<u8>,
    name: Seq<char>,
    pid: u32,
    contents: Seq<char>,
    wording: Wording,
)
    requires
        dir.len() > 0,
        dir[dir.len() - 1] != 0x2f,
    ensures
        ({
            let change = writing(dir, name, pid, contents, wording);
            let removal = removing(dir, name, pid, wording);
            let entry = dir + seq![0x2fu8] + vstd::utf8::encode_utf8(name);
            let staged = dir + seq![0x2fu8] + vstd::utf8::encode_utf8(
                name + ".tmp."@ + text::decimal_digits(pid as nat),
            );
            &&& change.dir == dir && change.entry == entry && change.staged == staged
            &&& change.contents == contents && change.wording == wording
            &&& change.step == StepModel::CreateDir
            &&& removal.entry == entry && removal.wording == wording
            &&& removal.step == StepModel::Remove
        }),
{
    path::law_one_separator_between_base_and_path(dir, vstd::utf8::encode_utf8(name));
    path::law_one_separator_between_base_and_path(
        dir,
        vstd::utf8::encode_utf8(staging_name(name, pid)),
    );
}

/// Each step asks for its own file operation: the directory is created, the staging
/// file written with the contents and renamed to the entry, or removed where the
/// rename failed; a removal removes the entry.
pub proof fn law_steps_ask_for_these_operations(change: ChangeModel)
    ensures
        change.step is Remove ==> request_of(change) == RequestModel::Remove(change.entry),
        change.step is CreateDir ==> request_of(change) == RequestModel::CreateDir(change.dir),
        change.step is Write ==> request_of(change) == RequestModel::Write(
            change.staged,
            change.contents,
        ),
        change.step is Rename ==> request_of(change) == RequestModel::Rename(
            change.staged,
            change.entry,
        ),
        change.step is Discard ==> request_of(change) == RequestModel::Remove(change.staged),
{
}

/// A failed step ends the change with its error, which is the system's own text, after
/// the verb of the step where failures are worded so. Only a failed rename has one
/// step more, that removes the staging file, and then reports the rename's error
/// whatever came of that.
pub proof fn law_failures_are_reported_as_they_came(
    what: Seq<char>,
    error: Seq<char>,
    outcome: OutcomeModel,
)
    requires
        outcome == OutcomeModel::Failed(what) || outcome == OutcomeModel::Missing(what),
    ensures
        next_step(StepModel::CreateDir, outcome, Wording::Bare) == NextModel::Failed(what),
        next_step(StepModel::Write, outcome, Wording::Bare) == NextModel::Failed(what),
        next_step(StepModel::Rename, outcome, Wording::Bare) == NextModel::Go(
            StepModel::Discard(what),
        ),
        next_step(StepModel::CreateDir, outcome, Wording::Verbs) == NextModel::Failed(
            "creating "@ + what,
        ),
        next_step(StepModel::Write, outcome, Wording::Verbs) == NextModel::Failed(
            "writing "@ + what,
        ),
        next_step(StepModel::Rename, outcome, Wording::Verbs) == NextModel::Go(
            StepModel::Discard("renaming into "@ + what),
        ),
        next_step(StepModel::Remove, OutcomeModel::Failed(what), Wording::Bare)
            == NextModel::Failed(what),
        next_step(StepModel::Remove, OutcomeModel::Failed(what), Wording::Verbs)
            == NextModel::Failed("removing "@ + what),
        next_step(StepModel::Discard(error), outcome, Wording::Bare) == NextModel::Failed(error),
        next_step(StepModel::Discard(error), OutcomeModel::Done, Wording::Bare)
            == NextModel::Failed(error),
        next_step(StepModel::Discard(error), outcome, Wording::Verbs) == NextModel::Failed(error),
        next_step(StepModel::Discard(error), OutcomeModel::Done, Wording::Verbs)
            == NextModel::Failed(error),
{
    assert(Seq::<char>::empty() + what =~= what);
}

} // verus!
