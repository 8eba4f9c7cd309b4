//! The Windows named-pipe transport: names and access, how a read waits, the
//! listener's loop, and how a client connects.

use vstd::prelude::*;

use super::{past, IpcTransportError, TransportModel, MAX_HANDLER_THREADS, POLL_INTERVAL};
use crate::text;

verus! {

/// The code of a name that does not exist.
pub const ERROR_FILE_NOT_FOUND: u32 = 2;

/// The code of a pipe whose other end was closed.
pub const ERROR_BROKEN_PIPE: u32 = 109;

/// The code of a pipe whose every instance is in use.
pub const ERROR_PIPE_BUSY: u32 = 231;

/// The code of a pipe with no other end.
pub const ERROR_PIPE_NOT_CONNECTED: u32 = 233;

/// The code of an instance that a client reached before it was waited for.
pub const ERROR_PIPE_CONNECTED: u32 = 535;

/// The default per-user pipe name, or one with a constant suffix if the user's
/// SID could not be read.
#[must_use]
pub fn default_pipe_name(sid: Option<&str>) -> (name: String)
    ensures
        name@ == "\\\\.\\pipe\\duja-"@ + match sid {
            Some(s) => s@,
            None => "anon"@,
        },
{
    let mut name: String = "\\\\.\\pipe\\duja-".to_owned();
    match sid {
        Some(s) => name.append(s),
        None => name.append("anon"),
    }
    name
}

/// The security descriptor, in text, that grants `sid` alone full access: no
/// inherited entries, no one else.
pub fn user_only_descriptor(sid: &str) -> (sddl: String)
    ensures
        sddl@ == "D:P(A;;GA;;;"@ + sid@ + ")"@,
{
    let mut sddl: String = "D:P(A;;GA;;;".to_owned();
    sddl.append(sid);
    sddl.append(")");
    sddl
}

// -- Starting -----------------------------------------------------------------

/// The operation that a start performs next.
#[derive(Debug, Clone, Copy, PartialEq, Eq, Structural)]
pub enum StartPhase {
    /// Read the current user's SID.
    ReadSid,
    /// Build the access list.
    BuildDescriptor,
    /// Create the first instance, which fails if anyone has the name.
    CreateFirst,
    /// Spawn the handler thread with this number.
    SpawnHandler(usize),
    /// Spawn the listener thread.
    SpawnListener,
}

/// Why an operation of a start failed.
#[derive(Debug)]
pub enum StartFailure {
    /// No more is known.
    Unknown,
    /// With this code.
    Code(u32),
    /// In the OS's words.
    Words(String),
}

/// What a start does next.
#[derive(Debug)]
pub enum StartStep {
    /// Perform this operation.
    Go(StartPhase),
    /// The server runs.
    Running,
    /// The start failed.
    Fail(IpcTransportError),
}

/// What follows an operation that succeeded; nothing follows the last.
pub open spec fn start_next(phase: StartPhase) -> Option<StartPhase> {
    match phase {
        StartPhase::ReadSid => Some(StartPhase::BuildDescriptor),
        StartPhase::BuildDescriptor => Some(StartPhase::CreateFirst),
        StartPhase::CreateFirst => Some(StartPhase::SpawnHandler(0)),
        StartPhase::SpawnHandler(i) => if i + 1 < MAX_HANDLER_THREADS {
            Some(StartPhase::SpawnHandler((i + 1) as usize))
        } else {
            Some(StartPhase::SpawnListener)
        },
        StartPhase::SpawnListener => None,
    }
}

/// The words for why an operation failed: a code in digits, or the OS's own.
pub open spec fn failure_words(failure: StartFailure) -> Seq<char> {
    match failure {
        StartFailure::Unknown => "unknown"@,
        StartFailure::Code(code) => text::decimal_digits(code as nat),
        StartFailure::Words(what) => what@,
    }
}

/// The error of a failed operation.
pub open spec fn start_error(phase: StartPhase, failure: StartFailure) -> Seq<char> {
    match phase {
        StartPhase::ReadSid => "could not read the current user SID"@,
        StartPhase::BuildDescriptor => "could not build the pipe DACL"@,
        StartPhase::CreateFirst => "could not create the pipe (win32 error "@ + failure_words(
            failure,
        ) + ")"@,
        _ => failure_words(failure),
    }
}

fn words_of(failure: StartFailure) -> (words: String)
    ensures
        words@ == failure_words(failure),
{
    match failure {
        StartFailure::Unknown => "unknown".to_owned(),
        StartFailure::Code(code) => text::decimal(code as u64),
        StartFailure::Words(what) => what,
    }
}

/// What a start does after an operation.
pub fn after_start(phase: StartPhase, outcome: Result<(), StartFailure>) -> (step: StartStep)
    ensures
        match outcome {
            Ok(_) => match start_next(phase) {
                Some(next) => step matches StartStep::Go(p) && p == next,
                None => step is Running,
            },
            Err(failure) => step matches StartStep::Fail(e) && e@ == TransportModel::Io(
                start_error(phase, failure),
            ),
        },
{
    match outcome {
        Ok(_) => match phase {
            StartPhase::ReadSid => StartStep::Go(StartPhase::BuildDescriptor),
            StartPhase::BuildDescriptor => StartStep::Go(StartPhase::CreateFirst),
            StartPhase::CreateFirst => StartStep::Go(StartPhase::SpawnHandler(0)),
            StartPhase::SpawnHandler(i) => if i < MAX_HANDLER_THREADS && i + 1
                < MAX_HANDLER_THREADS {
                StartStep::Go(StartPhase::SpawnHandler(i + 1))
            } else {
                StartStep::Go(StartPhase::SpawnListener)
            },
            StartPhase::SpawnListener => StartStep::Running,
        },
        Err(failure) => match phase {
            StartPhase::ReadSid => StartStep::Fail(
                IpcTransportError::Io("could not read the current user SID".to_owned()),
            ),
            StartPhase::BuildDescriptor => StartStep::Fail(
                IpcTransportError::Io("could not build the pipe DACL".to_owned()),
            ),
            StartPhase::CreateFirst => StartStep::Fail(
                IpcTransportError::Io(
                    text::join3(
                        "could not create the pipe (win32 error ",
                        words_of(failure).as_str(),
                        ")",
                    ),
                ),
            ),
            StartPhase::SpawnHandler(_) => StartStep::Fail(IpcTransportError::Io(words_of(failure))),
            StartPhase::SpawnListener => StartStep::Fail(IpcTransportError::Io(words_of(failure))),
        },
    }
}

// -- How a read waits ---------------------------------------------------------

/// What peeking at a pipe gave.
#[derive(Debug, Clone, Copy, PartialEq, Eq, Structural)]
pub enum Peek {
    /// This many bytes can be read.
    Available(u32),
    /// The other end is gone.
    Disconnected,
    /// Peeking failed.
    Failed,
}

/// What peeking gave, from the count it wrote or the code it failed with.
pub fn peek_available(outcome: Result<u32, u32>) -> (peek: Peek)
    ensures
        peek == match outcome {
            Ok(available) => Peek::Available(available),
            Err(code) => if code == ERROR_BROKEN_PIPE || code == ERROR_PIPE_NOT_CONNECTED {
                Peek::Disconnected
            } else {
                Peek::Failed
            },
        },
{
    match outcome {
        Ok(available) => Peek::Available(available),
        Err(code) => if code == ERROR_BROKEN_PIPE || code == ERROR_PIPE_NOT_CONNECTED {
            Peek::Disconnected
        } else {
            Peek::Failed
        },
    }
}

/// What a read does next.
#[derive(Debug, Clone, Copy, PartialEq, Eq, Structural)]
pub enum ReadStep {
    /// Return this many bytes.
    Return(usize),
    /// Peek at the pipe.
    Peek,
    /// Read this many bytes.
    Read(usize),
    /// Sleep for this many nanoseconds, and look again.
    Sleep(u64),
    /// The server is stopping.
    Stopping,
    /// The deadline passed.
    TimedOut,
    /// End with the OS's error.
    Fail,
}

/// What a read into `len` bytes does at the top of its loop.
pub open spec fn top_of_read(len: usize, stop: bool) -> ReadStep {
    if len == 0 {
        ReadStep::Return(0)
    } else if stop {
        ReadStep::Stopping
    } else {
        ReadStep::Peek
    }
}

/// What a read into `len` bytes does after peeking.
pub open spec fn peeked(peek: Peek, len: usize, deadline: Option<u64>, now: u64) -> ReadStep {
    match peek {
        Peek::Available(n) => if n > 0 {
            ReadStep::Read(
                if n as usize <= len {
                    n as usize
                } else {
                    len
                },
            )
        } else if super::is_past(deadline, now) {
            ReadStep::TimedOut
        } else {
            ReadStep::Sleep(POLL_INTERVAL)
        },
        Peek::Disconnected => ReadStep::Return(0),
        Peek::Failed => ReadStep::Fail,
    }
}

/// The top of a read's loop, for a buffer of `len` bytes.
pub fn read_top(len: usize, stop: bool) -> (step: ReadStep)
    ensures
        step == top_of_read(len, stop),
{
    if len == 0 {
        ReadStep::Return(0)
    } else if stop {
        ReadStep::Stopping
    } else {
        ReadStep::Peek
    }
}

/// What a read does after peeking, for a buffer of `len` bytes: it reads no more
/// than is there and no more than fits, and a closed pipe is the end of the
/// stream.
pub fn after_peek(peek: Peek, len: usize, deadline: Option<u64>, now: u64) -> (step: ReadStep)
    ensures
        step == peeked(peek, len, deadline, now),
{
    match peek {
        Peek::Available(n) => if n > 0 {
            let available: usize = n as usize;
            if available <= len {
                ReadStep::Read(available)
            } else {
                ReadStep::Read(len)
            }
        } else if past(deadline, now) {
            ReadStep::TimedOut
        } else {
            ReadStep::Sleep(POLL_INTERVAL)
        },
        Peek::Disconnected => ReadStep::Return(0),
        Peek::Failed => ReadStep::Fail,
    }
}

/// A read that finds nothing sleeps only before its deadline, ends with a timeout
/// from then on, and ends at once when the server stops: no writer holds a
/// handler for longer.
pub proof fn law_read_ends_by_its_deadline(len: usize, deadline: u64, now: u64)
    requires
        len > 0,
    ensures
        top_of_read(len, true) == ReadStep::Stopping,
        now >= deadline ==> peeked(Peek::Available(0), len, Some(deadline), now)
            == ReadStep::TimedOut,
        peeked(Peek::Available(0), len, Some(deadline), now) is Sleep ==> now < deadline,
{
}

/// What a read takes is there and fits: at least one byte, no more than were
/// available and no more than the buffer holds.
pub proof fn law_read_takes_what_is_there_and_fits(
    available: u32,
    len: usize,
    deadline: Option<u64>,
    now: u64,
)
    requires
        len > 0,
        available > 0,
    ensures
        peeked(Peek::Available(available), len, deadline, now) matches ReadStep::Read(n) && 0 < n
            && n <= len && n <= available,
{
}

// -- The listener's loop ------------------------------------------------------

/// What the listener does next.
#[derive(Debug, Clone, Copy, PartialEq, Eq, Structural)]
pub enum ListenerStep {
    /// Close the instance in hand, if there is one, and end.
    CloseAndExit,
    /// Wait for a client on the instance in hand.
    WaitForClient,
    /// Create an instance.
    Create,
    /// Sleep for this many nanoseconds, and look again.
    Sleep(u64),
    /// Hand the instance to a handler.
    HandOn,
    /// Close the instance, and look again.
    CloseAndLookAgain,
    /// Look again.
    LookAgain,
}

/// The top of the listener's loop; `pending` says whether an instance is in hand.
pub fn listener_top(stop: bool, pending: bool) -> (step: ListenerStep)
    ensures
        step == if stop {
            ListenerStep::CloseAndExit
        } else if pending {
            ListenerStep::WaitForClient
        } else {
            ListenerStep::Create
        },
{
    if stop {
        ListenerStep::CloseAndExit
    } else if pending {
        ListenerStep::WaitForClient
    } else {
        ListenerStep::Create
    }
}

/// After creating an instance: when all are in use the listener looks again
/// shortly.
pub fn after_create(created: bool) -> (step: ListenerStep)
    ensures
        step == if created {
            ListenerStep::WaitForClient
        } else {
            ListenerStep::Sleep(POLL_INTERVAL)
        },
{
    if created {
        ListenerStep::WaitForClient
    } else {
        ListenerStep::Sleep(POLL_INTERVAL)
    }
}

/// Whether a client is connected, from the code that waiting failed with, if it
/// did: one that came before the wait counts.
pub fn connect_instance(failure: Option<u32>) -> (connected: bool)
    ensures
        connected == (failure is None || failure == Some(ERROR_PIPE_CONNECTED)),
{
    match failure {
        None => true,
        Some(code) => code == ERROR_PIPE_CONNECTED,
    }
}

/// After waiting for a client; `stop` is the flag as it is then.
pub fn after_client(connected: bool, stop: bool) -> (step: ListenerStep)
    ensures
        step == if stop {
            ListenerStep::CloseAndExit
        } else if connected {
            ListenerStep::HandOn
        } else {
            ListenerStep::CloseAndLookAgain
        },
{
    if stop {
        ListenerStep::CloseAndExit
    } else if connected {
        ListenerStep::HandOn
    } else {
        ListenerStep::CloseAndLookAgain
    }
}

/// After handing an instance on: handlers that are gone end the listener.
pub fn after_hand_on(delivered: bool) -> (step: ListenerStep)
    ensures
        step == if delivered {
            ListenerStep::LookAgain
        } else {
            ListenerStep::CloseAndExit
        },
{
    if delivered {
        ListenerStep::LookAgain
    } else {
        ListenerStep::CloseAndExit
    }
}

/// Whether a connected client belongs to our session; one whose session, or
/// ours, is not known does not.
pub fn client_in_same_session(client: Option<u32>, ours: Option<u32>) -> (same: bool)
    ensures
        same == (client is Some && client == ours),
{
    match client {
        None => false,
        Some(theirs) => match ours {
            None => false,
            Some(own) => theirs == own,
        },
    }
}

/// What a handler does with what the channel gave it.
#[derive(Debug, Clone, Copy, PartialEq, Eq, Structural)]
pub enum HandlerStep {
    /// The channel is closed: end.
    Exit,
    /// Run one exchange, flush it, and close the instance.
    Serve,
    /// Close the instance without an answer.
    Close,
}

/// After receiving from the work channel: nothing is served while the server
/// stops, and nothing to a client of another session.
pub fn after_recv(received: bool, stop: bool, same_session: bool) -> (step: HandlerStep)
    ensures
        step == if !received {
            HandlerStep::Exit
        } else if stop || !same_session {
            HandlerStep::Close
        } else {
            HandlerStep::Serve
        },
{
    if !received {
        HandlerStep::Exit
    } else if stop || !same_session {
        HandlerStep::Close
    } else {
        HandlerStep::Serve
    }
}

// -- How a client connects ----------------------------------------------------

/// What a connecting client does next.
#[derive(Debug)]
pub enum ConnectStep {
    /// Use the handle.
    Use,
    /// Wait for a free instance for this many milliseconds.
    Wait(u32),
    /// Give up with this error.
    Fail(IpcTransportError),
}

/// What remains until a deadline, which is nothing once it has passed or where
/// there is none.
pub open spec fn remaining_at(deadline: Option<u64>, now: u64) -> u64 {
    match deadline {
        Some(d) => if now < d {
            (d - now) as u64
        } else {
            0
        },
        None => 0,
    }
}

/// What remains until a deadline in whole milliseconds, as far as they can be
/// counted.
pub open spec fn wait_millis(deadline: Option<u64>, now: u64) -> int {
    if remaining_at(deadline, now) / 1_000_000 > u32::MAX {
        u32::MAX as int
    } else {
        remaining_at(deadline, now) as int / 1_000_000
    }
}

/// A client that waits for a free instance is awake again by its deadline.
pub proof fn law_client_waits_within_its_budget(deadline: u64, now: u64)
    requires
        now <= deadline,
    ensures
        now + wait_millis(Some(deadline), now) * 1_000_000 <= deadline,
{
}

/// After opening the pipe; `code` is what a failed open reported. Busy instances
/// are waited for within what remains of the budget.
pub fn after_open(code: Option<u32>, deadline: Option<u64>, now: u64) -> (step: ConnectStep)
    ensures
        match code {
            None => step is Use,
            Some(c) => if c == ERROR_FILE_NOT_FOUND {
                step matches ConnectStep::Fail(e) && e@ == TransportModel::NotRunning
            } else if c != ERROR_PIPE_BUSY {
                step matches ConnectStep::Fail(e) && e@ == TransportModel::Io(
                    "win32 error "@ + text::decimal_digits(c as nat),
                )
            } else if remaining_at(deadline, now) == 0 {
                step matches ConnectStep::Fail(e) && e@ == TransportModel::Busy
            } else {
                step matches ConnectStep::Wait(ms) && ms == wait_millis(deadline, now)
            },
        },
{
    match code {
        None => ConnectStep::Use,
        Some(c) => {
            if c == ERROR_FILE_NOT_FOUND {
                return ConnectStep::Fail(IpcTransportError::NotRunning);
            }
            if c != ERROR_PIPE_BUSY {
                let mut message: String = "win32 error ".to_owned();
                message.append(text::decimal(c as u64).as_str());
                return ConnectStep::Fail(IpcTransportError::Io(message));
            }
            let remaining: u64 = match deadline {
                Some(d) => if now < d {
                    d - now
                } else {
                    0
                },
                None => 0,
            };
            if remaining == 0 {
                return ConnectStep::Fail(IpcTransportError::Busy);
            }
            let ms: u64 = remaining / 1_000_000;
            if ms > 0xffff_ffff {
                ConnectStep::Wait(0xffff_ffff)
            } else {
                ConnectStep::Wait(ms as u32)
            }
        },
    }
}

/// After waiting for a free instance: `None` to open the pipe again, or the
/// error once the deadline has passed.
pub fn after_wait(deadline: Option<u64>, now: u64) -> (error: Option<IpcTransportError>)
    ensures
        if super::is_past(deadline, now) {
            error matches Some(e) && e@ == TransportModel::Timeout
        } else {
            error is None
        },
{
    if past(deadline, now) {
        Some(IpcTransportError::Timeout)
    } else {
        None
    }
}

/// A start reads the user's SID, builds the access list, creates the first instance,
/// spawns two handlers and then the listener; the first three fail in words of their
/// own.
pub proof fn law_start_runs_in_this_order(failure: StartFailure, code: u32)
    ensures
        start_next(StartPhase::ReadSid) == Some(StartPhase::BuildDescriptor),
        start_next(StartPhase::BuildDescriptor) == Some(StartPhase::CreateFirst),
        start_next(StartPhase::CreateFirst) == Some(StartPhase::SpawnHandler(0)),
        start_next(StartPhase::SpawnHandler(0)) == Some(StartPhase::SpawnHandler(1)),
        start_next(StartPhase::SpawnHandler(1)) == Some(StartPhase::SpawnListener),
        start_next(StartPhase::SpawnListener) is None,
        start_error(StartPhase::ReadSid, failure) == "could not read the current user SID"@,
        start_error(StartPhase::BuildDescriptor, failure) == "could not build the pipe DACL"@,
        start_error(StartPhase::CreateFirst, StartFailure::Code(code))
            == "could not create the pipe (win32 error "@ + text::decimal_digits(code as nat) + ")"@,
        failure matches StartFailure::Words(what) ==> start_error(
            StartPhase::SpawnListener,
            failure,
        ) == what@ && start_error(StartPhase::SpawnHandler(0), failure) == what@,
{
}

/// A read of nothing is done at once and any other stops with the server. What is
/// there is read, as much as fits; nothing there is waited for shortly until the
/// deadline; and a closed pipe is the end of the stream.
pub proof fn law_reads_go_so(available: u32, len: usize, deadline: Option<u64>, now: u64, stop: bool)
    requires
        len > 0,
    ensures
        top_of_read(0, stop) == ReadStep::Return(0),
        top_of_read(len, true) == ReadStep::Stopping,
        top_of_read(len, false) == ReadStep::Peek,
        available > 0 && available <= len ==> peeked(Peek::Available(available), len, deadline, now)
            == ReadStep::Read(available as usize),
        available > len ==> peeked(Peek::Available(available), len, deadline, now)
            == ReadStep::Read(len),
        deadline is None ==> peeked(Peek::Available(0), len, deadline, now) == ReadStep::Sleep(
            5_000_000,
        ),
        deadline matches Some(d) ==> peeked(Peek::Available(0), len, deadline, now) == (if now >= d {
            ReadStep::TimedOut
        } else {
            ReadStep::Sleep(5_000_000)
        }),
        peeked(Peek::Disconnected, len, deadline, now) == ReadStep::Return(0),
        peeked(Peek::Failed, len, deadline, now) == ReadStep::Fail,
{
}

/// A client waits for the whole milliseconds that remain of its budget, as far as they
/// can be counted, and without a deadline nothing remains.
pub proof fn law_client_waits_for_what_remains(deadline: u64, now: u64)
    ensures
        remaining_at(None, now) == 0,
        now >= deadline ==> remaining_at(Some(deadline), now) == 0,
        now < deadline ==> remaining_at(Some(deadline), now) == deadline - now,
        now < deadline && (deadline - now) / 1_000_000 <= u32::MAX ==> wait_millis(
            Some(deadline),
            now,
        ) == (deadline - now) / 1_000_000,
        ERROR_FILE_NOT_FOUND == 2 && ERROR_BROKEN_PIPE == 109 && ERROR_PIPE_BUSY == 231,
        ERROR_PIPE_NOT_CONNECTED == 233 && ERROR_PIPE_CONNECTED == 535,
{
}

} // verus!
