//! The unix-socket transport: where the socket is, who may talk on it, how a
//! read or a write waits, and how a client connects.

use vstd::prelude::*;

use super::{deadline_after, past, IpcTransportError, TransportModel, POLL_INTERVAL};
use crate::path;
use crate::text;

verus! {

/// The slice that a wait blocks before it looks at the stop flag and the
/// deadline again, in nanoseconds.
pub const WAIT_SLICE: u64 = 50_000_000;

/// The bound on a single write to an accepted connection, in nanoseconds.
pub const WRITE_TIMEOUT: u64 = 5_000_000_000;

// -- Where the socket is ------------------------------------------------------

/// Which policy resolves the socket path.
#[derive(Debug, Clone, Copy, PartialEq, Eq, Structural)]
pub enum SocketPolicy {
    /// Under the home directory.
    MacOs,
    /// Under the runtime directory.
    Runtime,
}

/// `base` and a relative path joined into one.
pub fn join_text(base: &str, rel: &str) -> (full: String)
    ensures
        full@ == path::joined(base@, '/', rel@),
{
    let chars: Vec<char> = text::chars_of(base);
    let mut full: String = base.to_owned();
    if chars.len() > 0 && chars[chars.len() - 1] != '/' {
        full.push('/');
    }
    full.append(rel);
    full
}

/// The per-user fallback path under `/tmp`.
pub open spec fn fallback_path(uid: u32) -> Seq<char> {
    "/tmp/duja-"@ + text::decimal_digits(uid as nat) + "/ctl.sock"@
}

/// The socket's path below the directory that its policy prefers.
pub open spec fn socket_tail(policy: SocketPolicy) -> Seq<char> {
    match policy {
        SocketPolicy::MacOs => "Library/Application Support/duja/ctl.sock"@,
        SocketPolicy::Runtime => "duja/ctl.sock"@,
    }
}

/// The socket path for a policy, its preferred directory and a user.
pub open spec fn path_for(policy: SocketPolicy, dir: Option<&str>, uid: u32) -> Seq<char> {
    match dir {
        Some(d) => path::joined(d@, '/', socket_tail(policy)),
        None => fallback_path(uid),
    }
}

/// The default per-user socket path.
///
/// `dir` is the home directory or the runtime directory, as the policy has it,
/// if it is set; the fallback is a directory of the user's own under `/tmp`.
#[must_use]
pub fn default_pipe_name(policy: SocketPolicy, dir: Option<&str>, uid: u32) -> (name: String)
    ensures
        name@ == path_for(policy, dir, uid),
{
    match policy {
        SocketPolicy::MacOs => macos_socket_path(dir, uid),
        SocketPolicy::Runtime => linux_socket_path(dir, uid),
    }
}

/// The macOS path: under `~/Library/Application Support/duja`, or the fallback.
pub fn macos_socket_path(home: Option<&str>, uid: u32) -> (name: String)
    ensures
        name@ == path_for(SocketPolicy::MacOs, home, uid),
{
    match home {
        Some(home) => join_text(home, "Library/Application Support/duja/ctl.sock"),
        None => tmp_fallback(uid),
    }
}

/// The Linux path: under `$XDG_RUNTIME_DIR/duja`, or the fallback.
pub fn linux_socket_path(xdg: Option<&str>, uid: u32) -> (name: String)
    ensures
        name@ == path_for(SocketPolicy::Runtime, xdg, uid),
{
    match xdg {
        Some(dir) => join_text(dir, "duja/ctl.sock"),
        None => tmp_fallback(uid),
    }
}

/// The per-user fallback path, used when the preferred directory is not set.
pub fn tmp_fallback(uid: u32) -> (name: String)
    ensures
        name@ == fallback_path(uid),
{
    let mut name: String = "/tmp/duja-".to_owned();
    name.append(text::decimal(uid as u64).as_str());
    name.append("/ctl.sock");
    name
}

/// Two users never share a fallback path.
pub proof fn law_fallback_is_per_user(a: u32, b: u32)
    requires
        fallback_path(a) == fallback_path(b),
    ensures
        a == b,
{
    let head = "/tmp/duja-"@;
    let tail = "/ctl.sock"@;
    let da = text::decimal_digits(a as nat);
    let db = text::decimal_digits(b as nat);
    assert(fallback_path(a).len() == head.len() + da.len() + tail.len());
    assert(fallback_path(b).len() == head.len() + db.len() + tail.len());
    assert(fallback_path(a).subrange(head.len() as int, (head.len() + da.len()) as int) =~= da);
    assert(fallback_path(b).subrange(head.len() as int, (head.len() + db.len()) as int) =~= db);
    text::law_decimal_round_trip(a as u64);
    text::law_decimal_round_trip(b as u64);
}

// -- Who may talk -------------------------------------------------------------

/// Whether a peer with effective uid `peer` is served: only one that is known
/// and is our own.
pub fn peer_allowed(peer: Option<u32>, ours: u32) -> (allowed: bool)
    ensures
        allowed == (peer == Some(ours)),
{
    match peer {
        Some(uid) => uid == ours,
        None => false,
    }
}

// -- How a read or a write waits ----------------------------------------------

/// The slice to wait for at `now`: no more than [`WAIT_SLICE`], no more than
/// what remains until the deadline, and none once that has passed.
pub open spec fn slice_at(deadline: Option<u64>, now: u64) -> Option<u64> {
    match deadline {
        None => Some(WAIT_SLICE),
        Some(d) => if now >= d {
            None
        } else if d - now < WAIT_SLICE {
            Some((d - now) as u64)
        } else {
            Some(WAIT_SLICE)
        },
    }
}

/// The slice to wait for now, or an error once the deadline has passed.
pub fn slice_until(deadline: Option<u64>, now: u64) -> (slice: Result<u64, ()>)
    ensures
        match slice_at(deadline, now) {
            Some(s) => slice == Ok::<u64, ()>(s),
            None => slice is Err,
        },
{
    match deadline {
        None => Ok(WAIT_SLICE),
        Some(d) => if now >= d {
            Err(())
        } else if d - now < WAIT_SLICE {
            Ok(d - now)
        } else {
            Ok(WAIT_SLICE)
        },
    }
}

/// The `poll` timeout for a slice, in milliseconds: at least one, so that a
/// remainder below a millisecond does not become an immediate return.
pub fn poll_millis(slice: u64) -> (ms: i32)
    ensures
        ms == if slice / 1_000_000 > i32::MAX {
            i32::MAX as int
        } else if slice / 1_000_000 < 1 {
            1
        } else {
            slice as int / 1_000_000
        },
{
    let whole: u64 = slice / 1_000_000;
    if whole > 0x7fff_ffff {
        0x7fff_ffff
    } else if whole < 1 {
        1
    } else {
        whole as i32
    }
}

/// What `poll` said of readiness.
#[derive(Debug, Clone, Copy, PartialEq, Eq, Structural)]
pub enum Readiness {
    /// The operation can be tried.
    Ready,
    /// The slice elapsed, or a signal came: look again.
    NotYet,
    /// `poll` failed.
    Failed,
}

/// Readiness, from the value `poll` returned and whether a failure was an
/// interruption.
pub fn poll_ready(rc: i32, interrupted: bool) -> (readiness: Readiness)
    ensures
        readiness == if rc > 0 {
            Readiness::Ready
        } else if rc == 0 || interrupted {
            Readiness::NotYet
        } else {
            Readiness::Failed
        },
{
    if rc > 0 {
        Readiness::Ready
    } else if rc == 0 || interrupted {
        Readiness::NotYet
    } else {
        Readiness::Failed
    }
}

/// The direction of a transfer.
#[derive(Debug, Clone, Copy, PartialEq, Eq, Structural)]
pub enum Transfer {
    /// Reading into a buffer.
    Read,
    /// Writing from one.
    Write,
}

/// A transfer that the waiting itself ended.
#[derive(Debug, Clone, Copy, PartialEq, Eq, Structural)]
pub enum StreamError {
    /// The server is stopping: reported as an aborted connection, never as an
    /// interruption, which a framing layer would retry for ever.
    Stopping,
    /// The read's deadline passed.
    ReadTimeout,
    /// The write's deadline passed.
    WriteTimeout,
}

impl StreamError {
    /// The error's text.
    pub fn message(&self) -> (text: String)
        ensures
            text@ == match self {
                StreamError::Stopping => "ipc server stopping"@,
                StreamError::ReadTimeout => "ipc read timeout"@,
                StreamError::WriteTimeout => "ipc write timeout"@,
            },
    {
        match self {
            StreamError::Stopping => "ipc server stopping".to_owned(),
            StreamError::ReadTimeout => "ipc read timeout".to_owned(),
            StreamError::WriteTimeout => "ipc write timeout".to_owned(),
        }
    }
}

/// What a transfer does next.
#[derive(Debug, Clone, Copy, PartialEq, Eq, Structural)]
pub enum TransferStep {
    /// Return this many bytes.
    Return(usize),
    /// Wait for readiness for this many nanoseconds.
    Poll(u64),
    /// Try the operation.
    Perform,
    /// Look at the stop flag and the deadline again.
    LookAgain,
    /// End with this error.
    Stop(StreamError),
    /// End with the OS's error.
    Fail,
}

/// The deadline of a transfer that begins at `now`.
pub fn transfer_deadline(transfer: Transfer, armed: Option<u64>, now: u64) -> (deadline: Option<u64>)
    ensures
        deadline == match transfer {
            Transfer::Read => super::deadline_of_read(armed, now),
            Transfer::Write => super::instant_after(now, WRITE_TIMEOUT),
        },
{
    match transfer {
        Transfer::Read => super::read_deadline(armed, now),
        Transfer::Write => deadline_after(now, WRITE_TIMEOUT),
    }
}

/// What a transfer of `len` bytes does at the top of its loop.
pub open spec fn transfer_at(
    transfer: Transfer,
    len: usize,
    stop: bool,
    deadline: Option<u64>,
    now: u64,
) -> TransferStep {
    if len == 0 {
        TransferStep::Return(0)
    } else if stop {
        TransferStep::Stop(StreamError::Stopping)
    } else {
        match slice_at(deadline, now) {
            Some(slice) => TransferStep::Poll(slice),
            None => TransferStep::Stop(
                match transfer {
                    Transfer::Read => StreamError::ReadTimeout,
                    Transfer::Write => StreamError::WriteTimeout,
                },
            ),
        }
    }
}

/// The top of a transfer's loop: an empty buffer is done with, a stop flag ends
/// the transfer before its deadline does.
pub fn transfer_step(
    transfer: Transfer,
    len: usize,
    stop: bool,
    deadline: Option<u64>,
    now: u64,
) -> (step: TransferStep)
    ensures
        step == transfer_at(transfer, len, stop, deadline, now),
{
    if len == 0 {
        return TransferStep::Return(0);
    }
    if stop {
        return TransferStep::Stop(StreamError::Stopping);
    }
    match slice_until(deadline, now) {
        Ok(slice) => TransferStep::Poll(slice),
        Err(_) => match transfer {
            Transfer::Read => TransferStep::Stop(StreamError::ReadTimeout),
            Transfer::Write => TransferStep::Stop(StreamError::WriteTimeout),
        },
    }
}

/// What a transfer does after waiting.
pub fn after_poll(readiness: Readiness) -> (step: TransferStep)
    ensures
        step == match readiness {
            Readiness::Ready => TransferStep::Perform,
            Readiness::NotYet => TransferStep::LookAgain,
            Readiness::Failed => TransferStep::Fail,
        },
{
    match readiness {
        Readiness::Ready => TransferStep::Perform,
        Readiness::NotYet => TransferStep::LookAgain,
        Readiness::Failed => TransferStep::Fail,
    }
}

/// What came of the operation itself.
#[derive(Debug, Clone, Copy, PartialEq, Eq, Structural)]
pub enum Performed {
    /// This many bytes were moved.
    Moved(usize),
    /// The readiness had raced away.
    WouldBlock,
    /// A signal came.
    Interrupted,
    /// It failed.
    Failed,
}

/// What a transfer does after trying the operation.
pub fn after_perform(performed: Performed) -> (step: TransferStep)
    ensures
        step == match performed {
            Performed::Moved(n) => TransferStep::Return(n),
            Performed::WouldBlock | Performed::Interrupted => TransferStep::LookAgain,
            Performed::Failed => TransferStep::Fail,
        },
{
    match performed {
        Performed::Moved(n) => TransferStep::Return(n),
        Performed::WouldBlock => TransferStep::LookAgain,
        Performed::Interrupted => TransferStep::LookAgain,
        Performed::Failed => TransferStep::Fail,
    }
}

/// A wait that is granted is not empty, is no longer than a slice, and ends by
/// the deadline.
pub proof fn law_wait_ends_by_the_deadline(
    transfer: Transfer,
    len: usize,
    stop: bool,
    deadline: Option<u64>,
    now: u64,
)
    ensures
        transfer_at(transfer, len, stop, deadline, now) matches TransferStep::Poll(slice) ==> {
            &&& !stop
            &&& 0 < slice <= WAIT_SLICE
            &&& deadline matches Some(d) ==> now + slice <= d
        },
{
}

/// Once its deadline has passed, or the stop flag is set, a transfer waits no
/// more, however often it looks.
pub proof fn law_ended_transfer_stays_ended(
    transfer: Transfer,
    len: usize,
    deadline: u64,
    earlier: u64,
    later: u64,
)
    requires
        deadline <= earlier <= later,
        len > 0,
    ensures
        transfer_at(transfer, len, false, Some(deadline), earlier) is Stop,
        transfer_at(transfer, len, false, Some(deadline), later) is Stop,
        transfer_at(transfer, len, true, Some(deadline), later) == TransferStep::Stop(
            StreamError::Stopping,
        ),
{
}

// -- How a client connects ----------------------------------------------------

/// What came of one connect attempt.
#[derive(Debug)]
pub enum Connected {
    /// It connected.
    Yes,
    /// There is no socket.
    NotFound,
    /// There is a socket and no listener.
    Refused,
    /// The backlog was full.
    WouldBlock,
    /// A signal came.
    Interrupted,
    /// Another failure, in the OS's words.
    Failed(String),
}

/// What a connecting client does next.
#[derive(Debug)]
pub enum ConnectStep {
    /// Use the connection.
    Use,
    /// Sleep for this many nanoseconds, and try again.
    Retry(u64),
    /// Give up with this error.
    Fail(IpcTransportError),
}

/// What a client does after a connect attempt: no server is an answer at once, a
/// full backlog is retried until the deadline.
pub fn after_connect(connected: Connected, deadline: Option<u64>, now: u64) -> (step: ConnectStep)
    ensures
        match connected {
            Connected::Yes => step is Use,
            Connected::NotFound | Connected::Refused => step matches ConnectStep::Fail(e) && e@
                == TransportModel::NotRunning,
            Connected::WouldBlock | Connected::Interrupted => if super::is_past(deadline, now) {
                step matches ConnectStep::Fail(e) && e@ == TransportModel::Busy
            } else {
                step matches ConnectStep::Retry(pause) && pause == POLL_INTERVAL
            },
            Connected::Failed(what) => step matches ConnectStep::Fail(e) && e@
                == TransportModel::Io(what@),
        },
{
    match connected {
        Connected::Yes => ConnectStep::Use,
        Connected::NotFound => ConnectStep::Fail(IpcTransportError::NotRunning),
        Connected::Refused => ConnectStep::Fail(IpcTransportError::NotRunning),
        Connected::WouldBlock => retry_until(deadline, now),
        Connected::Interrupted => retry_until(deadline, now),
        Connected::Failed(what) => ConnectStep::Fail(IpcTransportError::Io(what)),
    }
}

fn retry_until(deadline: Option<u64>, now: u64) -> (step: ConnectStep)
    ensures
        if super::is_past(deadline, now) {
            step matches ConnectStep::Fail(e) && e@ == TransportModel::Busy
        } else {
            step matches ConnectStep::Retry(pause) && pause == POLL_INTERVAL
        },
{
    if past(deadline, now) {
        ConnectStep::Fail(IpcTransportError::Busy)
    } else {
        ConnectStep::Retry(POLL_INTERVAL)
    }
}

/// The socket is at a fixed place below the preferred directory where that is set, and
/// in a directory of the user's own under `/tmp` where it is not.
pub proof fn law_socket_is_at_a_fixed_place(dir: &str, uid: u32)
    requires
        dir@.len() > 0,
        dir@[dir@.len() - 1] != '/',
    ensures
        path_for(SocketPolicy::MacOs, Some(dir), uid) == dir@ + seq!['/']
            + "Library/Application Support/duja/ctl.sock"@,
        path_for(SocketPolicy::Runtime, Some(dir), uid) == dir@ + seq!['/'] + "duja/ctl.sock"@,
        path_for(SocketPolicy::MacOs, None, uid) == "/tmp/duja-"@ + text::decimal_digits(uid as nat)
            + "/ctl.sock"@,
        path_for(SocketPolicy::Runtime, None, uid) == "/tmp/duja-"@ + text::decimal_digits(
            uid as nat,
        ) + "/ctl.sock"@,
{
    assert(dir@.push('/') =~= dir@ + seq!['/']);
}

/// A wait is a slice of fifty milliseconds, or what remains until the deadline where
/// that is less, and there is none from the deadline on.
pub proof fn law_slices_are_what_remains_up_to_a_limit(deadline: u64, now: u64)
    ensures
        slice_at(None, now) == Some(50_000_000u64),
        slice_at(Some(deadline), now) is None <==> now >= deadline,
        now < deadline && deadline - now >= 50_000_000 ==> slice_at(Some(deadline), now) == Some(
            50_000_000u64,
        ),
        now < deadline && deadline - now < 50_000_000 ==> slice_at(Some(deadline), now) == Some(
            (deadline - now) as u64,
        ),
{
}

/// A transfer of nothing is done at once; any other ends when the server stops, then
/// when its deadline has passed, with the error of its direction, and waits for a slice
/// otherwise.
pub proof fn law_transfers_stop_time_out_or_wait(
    transfer: Transfer,
    len: usize,
    stop: bool,
    deadline: Option<u64>,
    now: u64,
)
    ensures
        transfer_at(transfer, 0, stop, deadline, now) == TransferStep::Return(0),
        len > 0 && stop ==> transfer_at(transfer, len, stop, deadline, now) == TransferStep::Stop(
            StreamError::Stopping,
        ),
        len > 0 && !stop && deadline is None ==> transfer_at(transfer, len, stop, deadline, now)
            == TransferStep::Poll(50_000_000),
        deadline matches Some(d) ==> len > 0 && !stop && now >= d ==> transfer_at(
            transfer,
            len,
            stop,
            deadline,
            now,
        ) == TransferStep::Stop(
            if transfer == Transfer::Read {
                StreamError::ReadTimeout
            } else {
                StreamError::WriteTimeout
            },
        ),
        deadline matches Some(d) ==> len > 0 && !stop && now < d ==> transfer_at(
            transfer,
            len,
            stop,
            deadline,
            now,
        ) is Poll,
{
}

} // verus!
