//! Binding the unix socket: the liveness probe, the takeover of a stale socket,
//! the bind lock, and the unlink at shutdown.
//!
//! The whole sequence runs under an exclusive lock. An unlink destroys a running
//! server's endpoint if it is wrong, so every uncertain answer refuses it.

use vstd::prelude::*;

use super::unix_socket::{poll_ready, slice_until, Readiness};
use super::{past, unix_socket, IpcTransportError, TransportModel, POLL_INTERVAL};
use crate::text;

verus! {

/// How long the bind lock is waited for, in nanoseconds.
pub const LOCK_WAIT: u64 = 5_000_000_000;

/// How long the liveness probe may wait, in nanoseconds.
pub const PROBE_BUDGET: u64 = 250_000_000;

// -- The liveness probe -------------------------------------------------------

/// What one connect attempt says about the endpoint.
#[derive(Debug, Clone, Copy, PartialEq, Eq, Structural)]
pub enum Attempt {
    /// The connect completed. Only a live listener produces this.
    Connected,
    /// The listener's queue is full. Also only a live listener.
    BacklogFull,
    /// The kernel took the connect but has not finished it.
    InFlight,
    /// The kernel refused: no listener on Linux, no listener or a full queue on the
    /// BSDs.
    Refused,
    /// Nothing at the path.
    Vanished,
    /// Anything else.
    Undecidable,
}

/// The probe's answer: a decision about whether to destroy an inode.
#[derive(Debug, Clone, Copy, PartialEq, Eq, Structural)]
pub enum Liveness {
    /// Do not unlink: something is listening, or might be.
    Live,
    /// An unlink is permitted, if the socket is ours.
    Stale,
    /// Nothing to unlink; bind straight away.
    Vanished,
    /// Do not unlink: the probe could not answer.
    Undecidable,
}

/// The error numbers that the probe tells apart, as the platform has them.
#[derive(Debug, Clone, Copy, PartialEq, Eq, Structural)]
pub struct ErrnoCodes {
    /// No listener.
    pub refused: i32,
    /// A full queue.
    pub again: i32,
    /// A connect under way.
    pub in_progress: i32,
    /// A connect already under way.
    pub already: i32,
    /// A signal came.
    pub interrupted: i32,
    /// No such path.
    pub no_entry: i32,
}

impl ErrnoCodes {
    /// No two of them are the same number, and none is zero.
    pub open spec fn distinct(self) -> bool {
        let codes = seq![
            0i32,
            self.refused,
            self.again,
            self.in_progress,
            self.already,
            self.interrupted,
            self.no_entry,
        ];
        codes.no_duplicates()
    }
}

/// The numbers of Linux on most machines.
pub open spec fn linux_codes() -> ErrnoCodes {
    ErrnoCodes {
        refused: 111,
        again: 11,
        in_progress: 115,
        already: 114,
        interrupted: 4,
        no_entry: 2,
    }
}

/// The numbers of Linux on MIPS, and of the Solaris family.
pub open spec fn mips_codes() -> ErrnoCodes {
    ErrnoCodes {
        refused: 146,
        again: 11,
        in_progress: 150,
        already: 149,
        interrupted: 4,
        no_entry: 2,
    }
}

/// The numbers of Linux on SPARC.
pub open spec fn sparc_codes() -> ErrnoCodes {
    ErrnoCodes {
        refused: 61,
        again: 11,
        in_progress: 36,
        already: 37,
        interrupted: 4,
        no_entry: 2,
    }
}

/// The numbers of Apple's systems, and of the BSDs.
pub open spec fn apple_codes() -> ErrnoCodes {
    ErrnoCodes {
        refused: 61,
        again: 35,
        in_progress: 36,
        already: 37,
        interrupted: 4,
        no_entry: 2,
    }
}

/// The numbers of the Windows C runtime.
pub open spec fn windows_codes() -> ErrnoCodes {
    ErrnoCodes {
        refused: 107,
        again: 11,
        in_progress: 112,
        already: 103,
        interrupted: 4,
        no_entry: 2,
    }
}

impl ErrnoCodes {
    /// Whether these are the numbers of one of the platforms that this library is
    /// for.
    pub open spec fn known(self) -> bool {
        ||| self == linux_codes()
        ||| self == mips_codes()
        ||| self == sparc_codes()
        ||| self == apple_codes()
        ||| self == windows_codes()
    }
}

/// The constants of the `libc` crate: `ECONNREFUSED`, `EAGAIN`, `EINPROGRESS`,
/// `EALREADY`, `EINTR` and `ENOENT`. They are the numbers of one platform out of
/// Linux, the Solaris family, Apple's systems, the BSDs and Windows; which one is
/// not said, it differs between machines. The library is for no other platform.
#[verifier::external_body]
fn native_codes() -> (codes: ErrnoCodes)
    ensures
        codes.known(),
{
    ErrnoCodes {
        refused: libc::ECONNREFUSED,
        again: libc::EAGAIN,
        in_progress: libc::EINPROGRESS,
        already: libc::EALREADY,
        interrupted: libc::EINTR,
        no_entry: libc::ENOENT,
    }
}

/// What a connect error number says.
pub open spec fn classified(raw: i32, codes: ErrnoCodes) -> Attempt {
    if raw == codes.refused {
        Attempt::Refused
    } else if raw == codes.again {
        Attempt::BacklogFull
    } else if raw == codes.in_progress || raw == codes.already || raw == codes.interrupted {
        Attempt::InFlight
    } else if raw == codes.no_entry {
        Attempt::Vanished
    } else {
        Attempt::Undecidable
    }
}

/// Map a connect error number to what it says, on a platform with these numbers.
pub fn classify_with(raw: i32, codes: ErrnoCodes) -> (attempt: Attempt)
    ensures
        attempt == classified(raw, codes),
{
    if raw == codes.refused {
        Attempt::Refused
    } else if raw == codes.again {
        Attempt::BacklogFull
    } else if raw == codes.in_progress || raw == codes.already || raw == codes.interrupted {
        Attempt::InFlight
    } else if raw == codes.no_entry {
        Attempt::Vanished
    } else {
        Attempt::Undecidable
    }
}

/// Map a connect error number of this platform to what it says, which is what it
/// says on one of the known platforms. It is never a completed connect, and three
/// numbers say the same on all of them: zero, which is no error, says nothing.
pub fn classify(raw: i32) -> (attempt: Attempt)
    ensures
        exists|codes: ErrnoCodes| #[trigger] codes.known() && attempt == classified(raw, codes),
        attempt != Attempt::Connected,
        raw == 0 ==> attempt == Attempt::Undecidable,
        raw == 2 ==> attempt == Attempt::Vanished,
        raw == 4 ==> attempt == Attempt::InFlight,
{
    classify_with(raw, native_codes())
}

/// What one attempt settles; a connect that is still in flight settles nothing.
pub open spec fn settled(attempt: Attempt) -> Option<Liveness> {
    match attempt {
        Attempt::Connected | Attempt::BacklogFull => Some(Liveness::Live),
        Attempt::Refused => Some(Liveness::Stale),
        Attempt::Vanished => Some(Liveness::Vanished),
        Attempt::Undecidable => Some(Liveness::Undecidable),
        Attempt::InFlight => None,
    }
}

/// What one attempt settles, or `None` if the probe should look again.
pub fn settle(attempt: Attempt) -> (liveness: Option<Liveness>)
    ensures
        liveness == settled(attempt),
{
    match attempt {
        Attempt::Connected => Some(Liveness::Live),
        Attempt::BacklogFull => Some(Liveness::Live),
        Attempt::Refused => Some(Liveness::Stale),
        Attempt::Vanished => Some(Liveness::Vanished),
        Attempt::Undecidable => Some(Liveness::Undecidable),
        Attempt::InFlight => None,
    }
}

/// What a probe does next.
#[derive(Debug, Clone, Copy, PartialEq, Eq, Structural)]
pub enum ProbeStep {
    /// The attempt is over.
    Over(Attempt),
    /// Wait for the same socket for this many nanoseconds.
    Poll(u64),
    /// Ask the socket what became of its connect.
    AskSocket,
    /// Look at the deadline again.
    LookAgain,
    /// The probe itself failed.
    Failed,
}

/// What a probe's connect call gave.
#[derive(Debug, Clone, Copy, PartialEq, Eq, Structural)]
pub enum Connecting {
    /// It connected.
    Connected,
    /// It reported this error number.
    Error(i32),
    /// There was no socket or no address to connect with.
    Unable,
}

/// What a probe does after its connect call, on a platform with these error
/// numbers: only a connect in flight is waited for.
pub open spec fn connect_step(connecting: Connecting, codes: ErrnoCodes) -> ProbeStep {
    match connecting {
        Connecting::Connected => ProbeStep::Over(Attempt::Connected),
        Connecting::Error(raw) => if classified(raw, codes) == Attempt::InFlight {
            ProbeStep::LookAgain
        } else {
            ProbeStep::Over(classified(raw, codes))
        },
        Connecting::Unable => ProbeStep::Failed,
    }
}

/// After the connect call, on a platform with these error numbers.
pub fn after_probe_connect_with(connecting: Connecting, codes: ErrnoCodes) -> (step: ProbeStep)
    ensures
        step == connect_step(connecting, codes),
{
    match connecting {
        Connecting::Connected => ProbeStep::Over(Attempt::Connected),
        Connecting::Error(raw) => {
            let attempt: Attempt = classify_with(raw, codes);
            if attempt == Attempt::InFlight {
                ProbeStep::LookAgain
            } else {
                ProbeStep::Over(attempt)
            }
        },
        Connecting::Unable => ProbeStep::Failed,
    }
}

/// After the connect call, on this platform.
pub fn after_probe_connect(connecting: Connecting) -> (step: ProbeStep)
    ensures
        exists|codes: ErrnoCodes| #[trigger]
            codes.known() && step == connect_step(connecting, codes),
        connecting == Connecting::Connected ==> step == ProbeStep::Over(Attempt::Connected),
        connecting == Connecting::Unable ==> step == ProbeStep::Failed,
        connecting == Connecting::Error(0) ==> step == ProbeStep::Over(Attempt::Undecidable),
        connecting == Connecting::Error(2) ==> step == ProbeStep::Over(Attempt::Vanished),
        connecting == Connecting::Error(4) ==> step == ProbeStep::LookAgain,
{
    after_probe_connect_with(connecting, native_codes())
}

/// While a connect is in flight: wait until the deadline, then leave it so.
pub fn while_in_flight(deadline: Option<u64>, now: u64) -> (step: ProbeStep)
    ensures
        step == match unix_socket::slice_at(deadline, now) {
            Some(slice) => ProbeStep::Poll(slice),
            None => ProbeStep::Over(Attempt::InFlight),
        },
{
    match slice_until(deadline, now) {
        Ok(slice) => ProbeStep::Poll(slice),
        Err(_) => ProbeStep::Over(Attempt::InFlight),
    }
}

/// After waiting for a connect in flight.
pub fn after_probe_poll(rc: i32, interrupted: bool) -> (step: ProbeStep)
    ensures
        step == if rc > 0 {
            ProbeStep::AskSocket
        } else if rc == 0 || interrupted {
            ProbeStep::LookAgain
        } else {
            ProbeStep::Failed
        },
{
    match poll_ready(rc, interrupted) {
        Readiness::Ready => ProbeStep::AskSocket,
        Readiness::NotYet => ProbeStep::LookAgain,
        Readiness::Failed => ProbeStep::Failed,
    }
}

/// What a probe does after asking the socket: its connect succeeded, or failed
/// with a number, whatever that says.
pub open spec fn socket_step(answer: Connecting, codes: ErrnoCodes) -> ProbeStep {
    match answer {
        Connecting::Connected => ProbeStep::Over(Attempt::Connected),
        Connecting::Error(raw) => ProbeStep::Over(classified(raw, codes)),
        Connecting::Unable => ProbeStep::Failed,
    }
}

/// After asking the socket, on a platform with these error numbers.
pub fn after_socket_error_with(answer: Connecting, codes: ErrnoCodes) -> (step: ProbeStep)
    ensures
        step == socket_step(answer, codes),
{
    match answer {
        Connecting::Connected => ProbeStep::Over(Attempt::Connected),
        Connecting::Error(raw) => ProbeStep::Over(classify_with(raw, codes)),
        Connecting::Unable => ProbeStep::Failed,
    }
}

/// After asking the socket, on this platform.
pub fn after_socket_error(answer: Connecting) -> (step: ProbeStep)
    ensures
        exists|codes: ErrnoCodes| #[trigger] codes.known() && step == socket_step(answer, codes),
        answer == Connecting::Connected ==> step == ProbeStep::Over(Attempt::Connected),
        answer == Connecting::Unable ==> step == ProbeStep::Failed,
        answer == Connecting::Error(0) ==> step == ProbeStep::Over(Attempt::Undecidable),
        answer == Connecting::Error(2) ==> step == ProbeStep::Over(Attempt::Vanished),
        answer == Connecting::Error(4) ==> step == ProbeStep::Over(Attempt::InFlight),
{
    after_socket_error_with(answer, native_codes())
}

/// What a whole probe says: a connect that is still in flight was taken by
/// something, and a probe that failed says nothing.
pub open spec fn verdict(attempt: Result<Attempt, ()>) -> Liveness {
    match attempt {
        Ok(a) => match settled(a) {
            Some(liveness) => liveness,
            None => Liveness::Live,
        },
        Err(_) => Liveness::Undecidable,
    }
}

/// Is anything listening? From what the attempt gave.
pub fn probe_liveness(attempt: Result<Attempt, ()>) -> (liveness: Liveness)
    ensures
        liveness == verdict(attempt),
{
    match attempt {
        Ok(a) => match settle(a) {
            Some(liveness) => liveness,
            None => Liveness::Live,
        },
        Err(_) => Liveness::Undecidable,
    }
}

// -- The socket's directory ---------------------------------------------------

/// What is known of a directory that exists, by its path itself and not what a
/// symbolic link may point to.
#[derive(Debug, Clone, Copy, PartialEq, Eq, Structural)]
pub struct DirFacts {
    /// Whether it is a directory, and no symbolic link to one.
    pub is_dir: bool,
    /// The owner's uid.
    pub uid: u32,
    /// The permission bits.
    pub mode: u32,
}

/// What to do with the socket's directory.
#[derive(Debug, Clone, Copy, PartialEq, Eq, Structural)]
pub enum DirVerdict {
    /// It is ours and private.
    Use,
    /// It is ours and others may look into it: take that from them.
    Tighten,
    /// It is not a directory, not ours, or one that others can write to.
    Refuse,
}

/// The bits that let others write.
pub const OTHERS_WRITE: u32 = 0o022;

/// The bits that let others do anything.
pub const OTHERS_ANY: u32 = 0o077;

/// Whether a directory may hold the socket: only our own, which nobody else can
/// write to; one that others can merely read is made private first.
pub fn private_dir(facts: DirFacts, euid: u32) -> (verdict: DirVerdict)
    ensures
        verdict == if !facts.is_dir || facts.uid != euid || facts.mode & 0o022 != 0 {
            DirVerdict::Refuse
        } else if facts.mode & 0o077 != 0 {
            DirVerdict::Tighten
        } else {
            DirVerdict::Use
        },
{
    if !facts.is_dir || facts.uid != euid || facts.mode & OTHERS_WRITE != 0 {
        DirVerdict::Refuse
    } else if facts.mode & OTHERS_ANY != 0 {
        DirVerdict::Tighten
    } else {
        DirVerdict::Use
    }
}

// -- Binding ------------------------------------------------------------------

/// The operation that a bind performs next.
#[derive(Debug, Clone, Copy, PartialEq, Eq, Structural)]
pub enum BindPhase {
    /// Prepare the private parent directory.
    PrepareDir,
    /// Take the bind lock.
    Lock,
    /// Bind.
    Bind,
    /// Probe the socket that is in the way.
    Probe,
    /// Inspect what is at the path.
    Inspect,
    /// Unlink it.
    Unlink,
    /// Bind again, with the path free.
    Rebind,
}

/// What a bind does next.
#[derive(Debug)]
pub enum BindStep {
    /// Perform this operation.
    Go(BindPhase),
    /// The socket is bound.
    Bound,
    /// The bind failed.
    Fail(IpcTransportError),
}

/// What came of a bind call.
#[derive(Debug)]
pub enum Binding {
    /// It is bound.
    Bound,
    /// Something is at the path; the words are the OS's.
    InUse(String),
    /// Another failure, in the OS's words.
    Failed(String),
}

/// What is at the path, by the path itself and not what it may point to.
#[derive(Debug)]
pub enum Inspection {
    /// A socket or something else, and its owner.
    Found {
        /// Whether it is a socket.
        is_socket: bool,
        /// The owner's uid.
        uid: u32,
    },
    /// It could not be inspected, in the OS's words.
    Failed(String),
}

/// Whether an operation of a bind can lead to another.
pub open spec fn leads_to(from: BindPhase, to: BindPhase) -> bool {
    match from {
        BindPhase::PrepareDir => to == BindPhase::Lock,
        BindPhase::Lock => to == BindPhase::Bind,
        BindPhase::Bind => to == BindPhase::Probe,
        BindPhase::Probe => to == BindPhase::Inspect || to == BindPhase::Rebind,
        BindPhase::Inspect => to == BindPhase::Unlink,
        BindPhase::Unlink => to == BindPhase::Rebind,
        BindPhase::Rebind => false,
    }
}

/// After preparing the directory.
pub fn after_prepare(outcome: Result<(), String>) -> (step: BindStep)
    ensures
        match outcome {
            Ok(_) => step matches BindStep::Go(p) && p == BindPhase::Lock,
            Err(what) => step matches BindStep::Fail(e) && e@ == TransportModel::Io(what@),
        },
        step matches BindStep::Go(p) ==> leads_to(BindPhase::PrepareDir, p),
{
    match outcome {
        Ok(_) => BindStep::Go(BindPhase::Lock),
        Err(what) => BindStep::Fail(IpcTransportError::Io(what)),
    }
}

/// After taking the lock; its failure is reported as it is.
pub fn after_lock(outcome: Result<(), IpcTransportError>) -> (step: BindStep)
    ensures
        match outcome {
            Ok(_) => step matches BindStep::Go(p) && p == BindPhase::Bind,
            Err(err) => step matches BindStep::Fail(e) && e == err,
        },
        step matches BindStep::Go(p) ==> leads_to(BindPhase::Lock, p),
{
    match outcome {
        Ok(_) => BindStep::Go(BindPhase::Bind),
        Err(e) => BindStep::Fail(e),
    }
}

/// After a bind: the first one probes a path that is in use, the one after a
/// takeover (`rebind`) fails on it like on anything else.
pub fn after_bind(binding: Binding, rebind: bool) -> (step: BindStep)
    ensures
        match binding {
            Binding::Bound => step is Bound,
            Binding::InUse(what) => if rebind {
                step matches BindStep::Fail(e) && e@ == TransportModel::Io(what@)
            } else {
                step matches BindStep::Go(p) && p == BindPhase::Probe
            },
            Binding::Failed(what) => step matches BindStep::Fail(e) && e@ == TransportModel::Io(
                what@,
            ),
        },
        step matches BindStep::Go(p) ==> !rebind && leads_to(BindPhase::Bind, p),
{
    match binding {
        Binding::Bound => BindStep::Bound,
        Binding::InUse(what) => if rebind {
            BindStep::Fail(IpcTransportError::Io(what))
        } else {
            BindStep::Go(BindPhase::Probe)
        },
        Binding::Failed(what) => BindStep::Fail(IpcTransportError::Io(what)),
    }
}

/// The text that refuses a takeover, for a verdict that refuses it.
pub open spec fn takeover_refusal(liveness: Liveness) -> Option<Seq<char>> {
    match liveness {
        Liveness::Live => Some("another duja IPC server is already listening on this socket"@),
        Liveness::Undecidable => Some(
            "could not determine whether the socket at this path is live; refusing to unlink it"@,
        ),
        Liveness::Vanished | Liveness::Stale => None,
    }
}

/// What follows a verdict that does not refuse.
pub open spec fn takeover_next(liveness: Liveness) -> BindPhase {
    if liveness == Liveness::Stale {
        BindPhase::Inspect
    } else {
        BindPhase::Rebind
    }
}

/// After the probe of a socket in the way: a live or undecidable one is left
/// alone, a vanished one frees the path, a stale one is looked at more closely.
pub fn after_probe(liveness: Liveness) -> (step: BindStep)
    ensures
        match takeover_refusal(liveness) {
            Some(text) => step matches BindStep::Fail(e) && e@ == TransportModel::Io(text),
            None => step matches BindStep::Go(p) && p == takeover_next(liveness),
        },
        step matches BindStep::Go(p) ==> leads_to(BindPhase::Probe, p),
{
    match liveness {
        Liveness::Live => BindStep::Fail(
            IpcTransportError::Io(
                "another duja IPC server is already listening on this socket".to_owned(),
            ),
        ),
        Liveness::Undecidable => BindStep::Fail(
            IpcTransportError::Io(
                "could not determine whether the socket at this path is live; refusing to unlink it".to_owned(),
            ),
        ),
        Liveness::Vanished => BindStep::Go(BindPhase::Rebind),
        Liveness::Stale => BindStep::Go(BindPhase::Inspect),
    }
}

/// Why what is at the path must not be unlinked, if it must not: it has to be a
/// socket, and ours.
pub open spec fn unlink_refusal(path: Seq<char>, inspection: Inspection, euid: u32) -> Option<
    Seq<char>,
> {
    match inspection {
        Inspection::Failed(what) => Some("cannot inspect "@ + path + (": "@ + what@)),
        Inspection::Found { is_socket, uid } => if !is_socket {
            Some(
                path
                    + " exists and is not a socket; refusing to unlink it - remove it by hand if it is left over"@,
            )
        } else if uid != euid {
            Some(path + " is owned by another user; refusing to unlink it"@)
        } else {
            None
        },
    }
}

/// The last check before an unlink. `path` is the path's text for the message.
pub fn unlink_target_is_ours(path: &str, inspection: Inspection, euid: u32) -> (ours: Result<
    (),
    IpcTransportError,
>)
    ensures
        match unlink_refusal(path@, inspection, euid) {
            None => ours is Ok,
            Some(text) => ours matches Err(e) && e@ == TransportModel::Io(text),
        },
{
    match inspection {
        Inspection::Failed(what) => {
            let detail: String = text::join2(": ", what.as_str());
            Err(
                IpcTransportError::Io(text::join3("cannot inspect ", path, detail.as_str())),
            )
        },
        Inspection::Found { is_socket, uid } => if !is_socket {
            Err(
                IpcTransportError::Io(
                    text::join2(
                        path,
                        " exists and is not a socket; refusing to unlink it - remove it by hand if it is left over",
                    ),
                ),
            )
        } else if uid != euid {
            Err(
                IpcTransportError::Io(
                    text::join2(path, " is owned by another user; refusing to unlink it"),
                ),
            )
        } else {
            Ok(())
        },
    }
}

/// After inspecting what is at the path.
pub fn after_inspect(path: &str, inspection: Inspection, euid: u32) -> (step: BindStep)
    ensures
        match unlink_refusal(path@, inspection, euid) {
            None => step matches BindStep::Go(p) && p == BindPhase::Unlink,
            Some(text) => step matches BindStep::Fail(e) && e@ == TransportModel::Io(text),
        },
        step matches BindStep::Go(p) ==> leads_to(BindPhase::Inspect, p),
{
    match unlink_target_is_ours(path, inspection, euid) {
        Ok(_) => BindStep::Go(BindPhase::Unlink),
        Err(e) => BindStep::Fail(e),
    }
}

/// After the unlink.
pub fn after_unlink(outcome: Result<(), String>) -> (step: BindStep)
    ensures
        match outcome {
            Ok(_) => step matches BindStep::Go(p) && p == BindPhase::Rebind,
            Err(what) => step matches BindStep::Fail(e) && e@ == TransportModel::Io(what@),
        },
        step matches BindStep::Go(p) ==> leads_to(BindPhase::Unlink, p),
{
    match outcome {
        Ok(_) => BindStep::Go(BindPhase::Rebind),
        Err(what) => BindStep::Fail(IpcTransportError::Io(what)),
    }
}

/// How far along a bind an operation is.
pub open spec fn progress(phase: BindPhase) -> int {
    match phase {
        BindPhase::PrepareDir => 0,
        BindPhase::Lock => 1,
        BindPhase::Bind => 2,
        BindPhase::Probe => 3,
        BindPhase::Inspect => 4,
        BindPhase::Unlink => 5,
        BindPhase::Rebind => 6,
    }
}

/// A bind only goes forward, so it ends and performs no operation twice; and an
/// unlink comes only after an inspection, that only after a probe, that only
/// after a bind that found the path in use, and that only under the lock in a
/// prepared directory.
pub proof fn law_unlink_comes_after_every_check(from: BindPhase, to: BindPhase)
    requires
        leads_to(from, to),
    ensures
        progress(from) < progress(to) <= 6,
        to == BindPhase::Unlink ==> from == BindPhase::Inspect,
        to == BindPhase::Inspect ==> from == BindPhase::Probe,
        to == BindPhase::Probe ==> from == BindPhase::Bind,
        to == BindPhase::Bind ==> from == BindPhase::Lock,
        to == BindPhase::Lock ==> from == BindPhase::PrepareDir,
{
}

/// Nothing but a refusal leads towards an unlink: every other attempt, and a
/// probe that failed, is refused or finds the path free.
pub proof fn law_only_a_refusal_authorises_an_unlink(attempt: Result<Attempt, ()>)
    ensures
        (takeover_refusal(verdict(attempt)) is None && takeover_next(verdict(attempt))
            == BindPhase::Inspect) <==> attempt == Ok::<Attempt, ()>(Attempt::Refused),
        settled(Attempt::InFlight) is None,
{
}

/// And of what was refused, only a socket that this user owns is unlinked.
pub proof fn law_only_our_own_socket_is_unlinked(path: Seq<char>, inspection: Inspection, euid: u32)
    ensures
        unlink_refusal(path, inspection, euid) is None <==> (inspection matches Inspection::Found {
            is_socket,
            uid,
        } && is_socket && uid == euid),
{
}

/// A probe that could wait for its whole budget stays well inside the time that
/// others wait for the lock it is made under.
pub proof fn law_probe_is_short_against_the_lock()
    ensures
        4 * PROBE_BUDGET < LOCK_WAIT,
{
}

/// Each error number says one thing, where the platform tells them apart.
pub proof fn law_error_numbers_are_told_apart(codes: ErrnoCodes)
    requires
        codes.distinct(),
    ensures
        classified(codes.refused, codes) == Attempt::Refused,
        classified(codes.again, codes) == Attempt::BacklogFull,
        classified(codes.in_progress, codes) == Attempt::InFlight,
        classified(codes.already, codes) == Attempt::InFlight,
        classified(codes.interrupted, codes) == Attempt::InFlight,
        classified(codes.no_entry, codes) == Attempt::Vanished,
        classified(0, codes) == Attempt::Undecidable,
{
    let all = seq![
        0i32,
        codes.refused,
        codes.again,
        codes.in_progress,
        codes.already,
        codes.interrupted,
        codes.no_entry,
    ];
    assert(all.no_duplicates());
    assert forall|i: int, j: int| 0 <= i < j < 7 implies all[i] != all[j] by {}
    assert(all[0] == 0 && all[1] == codes.refused && all[2] == codes.again && all[3]
        == codes.in_progress && all[4] == codes.already && all[5] == codes.interrupted && all[6]
        == codes.no_entry);
}

/// On every known platform the numbers differ from each other and from zero.
pub proof fn law_known_numbers_are_distinct(codes: ErrnoCodes)
    requires
        codes.known(),
    ensures
        codes.distinct(),
{
}

/// Whatever platform this is, a number is a refusal only where it stands for one,
/// and the number that any of them has for a full queue is a refusal on none.
///
/// This speaks of the numbers alone. A kernel may answer with a refusal where the
/// queue is full, as the BSDs' do, and then nothing tells a busy server from a
/// dead one.
pub proof fn law_full_queue_is_never_a_refusal(here: ErrnoCodes, there: ErrnoCodes, raw: i32)
    requires
        here.known(),
        there.known(),
    ensures
        classified(raw, here) == Attempt::Refused <==> raw == here.refused,
        classified(there.again, here) != Attempt::Refused,
        verdict(Ok(classified(there.again, here))) != Liveness::Stale,
{
}

// -- The bind lock ------------------------------------------------------------

/// The path of the lock beside a socket.
pub fn bind_lock_path(socket: &str) -> (path: String)
    ensures
        path@ == socket@ + ".lock"@,
{
    let mut path: String = socket.to_owned();
    path.append(".lock");
    path
}

/// What came of one attempt at the lock.
#[derive(Debug)]
pub enum Locking {
    /// It is held.
    Locked,
    /// Another process holds it.
    Held,
    /// The attempt failed, in the OS's words.
    Failed(String),
}

/// What taking the lock does next.
#[derive(Debug)]
pub enum LockStep {
    /// The lock is held.
    Acquired,
    /// Sleep for this many nanoseconds, and try again.
    Retry(u64),
    /// Give up with this error.
    Fail(IpcTransportError),
}

/// The error of a lock file that could not be opened.
pub fn lock_not_opened(lock_path: &str, what: &str) -> (error: IpcTransportError)
    ensures
        error@ == TransportModel::Io("cannot open "@ + lock_path@ + (": "@ + what@)),
{
    let detail: String = text::join2(": ", what);
    IpcTransportError::Io(text::join3("cannot open ", lock_path, detail.as_str()))
}

/// Whether a contended lock is tried again: only before a deadline that exists.
pub open spec fn may_retry_lock(deadline: Option<u64>, now: u64) -> bool {
    deadline matches Some(d) && now < d
}

/// The lock is waited for no longer than its bound: no attempt after that is
/// followed by another, and a clock that could not hold the bound gives up at
/// once.
pub proof fn law_lock_wait_is_bounded(start: u64, now: u64)
    ensures
        may_retry_lock(super::instant_after(start, LOCK_WAIT), now) ==> now < start + LOCK_WAIT,
{
}

/// After an attempt at the lock: a contended lock is retried until the deadline,
/// and without a deadline it is given up at once.
pub fn after_flock(
    locking: Locking,
    lock_path: &str,
    deadline: Option<u64>,
    now: u64,
) -> (step: LockStep)
    ensures
        match locking {
            Locking::Locked => step is Acquired,
            Locking::Failed(what) => step matches LockStep::Fail(e) && e@ == TransportModel::Io(
                "cannot lock "@ + lock_path@ + (": "@ + what@),
            ),
            Locking::Held => if !may_retry_lock(deadline, now) {
                step matches LockStep::Fail(e) && e@ == TransportModel::Io(
                    lock_path@ + " was held by another process for longer than 5s"@,
                )
            } else {
                step matches LockStep::Retry(pause) && pause == POLL_INTERVAL
            },
        },
{
    match locking {
        Locking::Locked => LockStep::Acquired,
        Locking::Failed(what) => {
            let detail: String = text::join2(": ", what.as_str());
            LockStep::Fail(
                IpcTransportError::Io(text::join3("cannot lock ", lock_path, detail.as_str())),
            )
        },
        Locking::Held => if deadline.is_none() || past(deadline, now) {
            LockStep::Fail(
                IpcTransportError::Io(
                    text::join2(lock_path, " was held by another process for longer than 5s"),
                ),
            )
        } else {
            LockStep::Retry(POLL_INTERVAL)
        },
    }
}

// -- The unlink at shutdown ---------------------------------------------------

/// The device and inode numbers of a socket.
#[derive(Debug, Clone, Copy, PartialEq, Eq, Structural)]
pub struct SocketIdentity {
    /// Device number.
    pub dev: u64,
    /// Inode number.
    pub ino: u64,
}

/// Whether the socket at the path may be unlinked: its identity was known when
/// it was bound, the lock is held, and it is still the one at the path.
pub open spec fn still_ours(
    bound: Option<SocketIdentity>,
    locked: bool,
    present: Option<SocketIdentity>,
) -> bool {
    bound is Some && locked && present == bound
}

/// Whether to unlink the socket at shutdown.
pub fn unlink_if_ours(
    bound: Option<SocketIdentity>,
    locked: bool,
    present: Option<SocketIdentity>,
) -> (unlink: bool)
    ensures
        unlink == still_ours(bound, locked, present),
{
    match bound {
        None => false,
        Some(ours) => match present {
            None => false,
            Some(there) => locked && there.dev == ours.dev && there.ino == ours.ino,
        },
    }
}

/// A server that shuts down does not unlink the socket of a successor, nor
/// anything that it could not serialise against or tell apart.
pub proof fn law_successor_keeps_its_socket(
    bound: Option<SocketIdentity>,
    locked: bool,
    successor: SocketIdentity,
)
    requires
        bound != Some(successor),
    ensures
        !still_ours(bound, locked, Some(successor)),
        !still_ours(bound, false, bound),
        !still_ours(None, locked, Some(successor)),
{
}

/// What an attempt settles: a completed connect and a full queue mean a live server, a
/// refusal a stale socket, a missing path that it is gone; a connect still in flight
/// settles nothing and counts as live in the end, and what cannot be decided, like a
/// probe that failed, stays so.
pub proof fn law_attempts_settle_so()
    ensures
        verdict(Ok(Attempt::Connected)) == Liveness::Live,
        verdict(Ok(Attempt::BacklogFull)) == Liveness::Live,
        verdict(Ok(Attempt::InFlight)) == Liveness::Live,
        verdict(Ok(Attempt::Refused)) == Liveness::Stale,
        verdict(Ok(Attempt::Vanished)) == Liveness::Vanished,
        verdict(Ok(Attempt::Undecidable)) == Liveness::Undecidable,
        verdict(Err(())) == Liveness::Undecidable,
        settled(Attempt::Connected) == Some(Liveness::Live),
        settled(Attempt::BacklogFull) == Some(Liveness::Live),
        settled(Attempt::Refused) == Some(Liveness::Stale),
        settled(Attempt::Vanished) == Some(Liveness::Vanished),
        settled(Attempt::Undecidable) == Some(Liveness::Undecidable),
        settled(Attempt::InFlight) is None,
{
}

/// A number that is none of the six tells nothing, and only a connect in flight is
/// waited for: every other answer of the connect call, and every answer of the socket,
/// ends the attempt with what it says.
pub proof fn law_only_a_connect_in_flight_is_waited_for(raw: i32, codes: ErrnoCodes)
    ensures
        raw != codes.refused && raw != codes.again && raw != codes.in_progress && raw
            != codes.already && raw != codes.interrupted && raw != codes.no_entry ==> classified(
            raw,
            codes,
        ) == Attempt::Undecidable,
        connect_step(Connecting::Connected, codes) == ProbeStep::Over(Attempt::Connected),
        connect_step(Connecting::Unable, codes) == ProbeStep::Failed,
        classified(raw, codes) == Attempt::InFlight ==> connect_step(Connecting::Error(raw), codes)
            == ProbeStep::LookAgain,
        classified(raw, codes) != Attempt::InFlight ==> connect_step(Connecting::Error(raw), codes)
            == ProbeStep::Over(classified(raw, codes)),
        socket_step(Connecting::Connected, codes) == ProbeStep::Over(Attempt::Connected),
        socket_step(Connecting::Unable, codes) == ProbeStep::Failed,
        socket_step(Connecting::Error(raw), codes) == ProbeStep::Over(classified(raw, codes)),
{
}

/// A takeover is refused, in these words, while a server lives or may live; it goes on
/// to an inspection where the socket is stale, and binds at once where it is gone.
pub proof fn law_takeovers_are_refused_in_these_words(path: Seq<char>, uid: u32, euid: u32)
    ensures
        takeover_refusal(Liveness::Live) == Some(
            "another duja IPC server is already listening on this socket"@,
        ),
        takeover_refusal(Liveness::Undecidable) == Some(
            "could not determine whether the socket at this path is live; refusing to unlink it"@,
        ),
        takeover_refusal(Liveness::Stale) is None && takeover_next(Liveness::Stale)
            == BindPhase::Inspect,
        takeover_refusal(Liveness::Vanished) is None && takeover_next(Liveness::Vanished)
            == BindPhase::Rebind,
        unlink_refusal(path, Inspection::Found { is_socket: false, uid }, euid) == Some(
            path
                + " exists and is not a socket; refusing to unlink it - remove it by hand if it is left over"@,
        ),
        uid != euid ==> unlink_refusal(path, Inspection::Found { is_socket: true, uid }, euid)
            == Some(path + " is owned by another user; refusing to unlink it"@),
        unlink_refusal(path, Inspection::Found { is_socket: true, uid: euid }, euid) is None,
{
}

/// A server that shuts down unlinks the socket that it bound, if that is still the one
/// at the path and the lock is held, and in no other case.
pub proof fn law_own_socket_is_unlinked(
    bound: Option<SocketIdentity>,
    locked: bool,
    present: Option<SocketIdentity>,
)
    ensures
        still_ours(bound, locked, present) <==> {
            &&& locked
            &&& bound is Some && present is Some
            &&& bound->0.dev == present->0.dev && bound->0.ino == present->0.ino
        },
{
    if bound is Some && present is Some && bound->0.dev == present->0.dev && bound->0.ino
        == present->0.ino {
        assert(bound->0 == present->0);
    }
}

/// A lock that another holds is tried again for five seconds from the first attempt,
/// and no longer.
pub proof fn law_lock_is_tried_until_its_bound(start: u64, now: u64)
    ensures
        start + 5_000_000_000 <= u64::MAX ==> (may_retry_lock(
            super::instant_after(start, LOCK_WAIT),
            now,
        ) <==> now < start + 5_000_000_000),
        !may_retry_lock(None, now),
{
}

} // verus!
