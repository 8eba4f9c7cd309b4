//! Local IPC transport: the decisions of the named-pipe and unix-socket servers
//! and clients.
//!
//! Instants are nanoseconds on a monotonic clock, and durations are nanoseconds.
//! A deadline is `None` where adding the budget to the clock would overflow.

use vstd::prelude::*;

use crate::text;

pub mod noop;
pub mod unix_bind;
pub mod unix_server;
pub mod unix_socket;
pub mod win_pipe;

verus! {

/// The maximum number of concurrent connections the server keeps alive.
pub const MAX_CONNECTIONS: u32 = 4;

/// The size of the handler thread pool that serves accepted connections.
pub const MAX_HANDLER_THREADS: usize = 2;

/// The read timeout enforced on an accepted connection, in nanoseconds.
pub const READ_TIMEOUT: u64 = 5_000_000_000;

/// The short backoff, in nanoseconds: at the connection cap, after a transient
/// accept fault, between connect attempts and between attempts at the bind lock.
pub const POLL_INTERVAL: u64 = 5_000_000;

/// A failure from the local IPC transport.
#[derive(Debug)]
#[non_exhaustive]
pub enum IpcTransportError {
    /// No server is listening (the app is not running).
    NotRunning,
    /// The server is up but every instance is busy.
    Busy,
    /// The connect attempt exceeded the caller's timeout.
    Timeout,
    /// The peer failed the identity check and was refused.
    Forbidden,
    /// A protocol-level failure during the exchange.
    Protocol(String),
    /// An OS transport failure, described in text.
    Io(String),
    /// This platform has no IPC transport.
    Unsupported,
}

/// An error, with its text as a sequence.
pub ghost enum TransportModel {
    NotRunning,
    Busy,
    Timeout,
    Forbidden,
    Protocol(Seq<char>),
    Io(Seq<char>),
    Unsupported,
}

impl View for IpcTransportError {
    type V = TransportModel;

    open spec fn view(&self) -> TransportModel {
        match self {
            IpcTransportError::NotRunning => TransportModel::NotRunning,
            IpcTransportError::Busy => TransportModel::Busy,
            IpcTransportError::Timeout => TransportModel::Timeout,
            IpcTransportError::Forbidden => TransportModel::Forbidden,
            IpcTransportError::Protocol(m) => TransportModel::Protocol(m@),
            IpcTransportError::Io(m) => TransportModel::Io(m@),
            IpcTransportError::Unsupported => TransportModel::Unsupported,
        }
    }
}

impl IpcTransportError {
    /// The message a user sees.
    pub fn to_string(&self) -> (message: String)
        ensures
            message@ == match self@ {
                TransportModel::NotRunning => "the Duja IPC server is not running"@,
                TransportModel::Busy => "the Duja IPC server is busy: all "@
                    + text::decimal_digits(MAX_CONNECTIONS as nat) + " instances are in use"@,
                TransportModel::Timeout => "timed out connecting to the Duja IPC server"@,
                TransportModel::Forbidden => "the IPC peer failed the session identity check"@,
                TransportModel::Protocol(m) => "ipc protocol error: "@ + m,
                TransportModel::Io(m) => "ipc transport error: "@ + m,
                TransportModel::Unsupported => "local IPC is not supported on this platform"@,
            },
    {
        match self {
            IpcTransportError::NotRunning => "the Duja IPC server is not running".to_owned(),
            IpcTransportError::Busy => {
                let mut message: String = "the Duja IPC server is busy: all ".to_owned();
                message.append(text::decimal(MAX_CONNECTIONS as u64).as_str());
                message.append(" instances are in use");
                message
            },
            IpcTransportError::Timeout => "timed out connecting to the Duja IPC server".to_owned(),
            IpcTransportError::Forbidden => {
                "the IPC peer failed the session identity check".to_owned()
            },
            IpcTransportError::Protocol(m) => text::join2("ipc protocol error: ", m.as_str()),
            IpcTransportError::Io(m) => text::join2("ipc transport error: ", m.as_str()),
            IpcTransportError::Unsupported => {
                "local IPC is not supported on this platform".to_owned()
            },
        }
    }
}

/// Whether a deadline has passed at `now`; one that does not exist never does.
pub open spec fn is_past(deadline: Option<u64>, now: u64) -> bool {
    deadline matches Some(d) && now >= d
}

/// Whether a deadline has passed.
pub fn past(deadline: Option<u64>, now: u64) -> (yes: bool)
    ensures
        yes == is_past(deadline, now),
{
    match deadline {
        Some(d) => now >= d,
        None => false,
    }
}

/// The instant `budget` after `now`, if the clock can hold it.
pub open spec fn instant_after(now: u64, budget: u64) -> Option<u64> {
    if now + budget <= u64::MAX {
        Some((now + budget) as u64)
    } else {
        None
    }
}

/// The deadline `budget` after `now`.
pub fn deadline_after(now: u64, budget: u64) -> (deadline: Option<u64>)
    ensures
        deadline == instant_after(now, budget),
{
    now.checked_add(budget)
}

/// The deadline that a read must respect: the one armed for the whole exchange,
/// else a fresh budget for this read.
pub open spec fn deadline_of_read(armed: Option<u64>, now: u64) -> Option<u64> {
    match armed {
        Some(_) => armed,
        None => instant_after(now, READ_TIMEOUT),
    }
}

/// The deadline that a read must respect.
pub fn read_deadline(armed: Option<u64>, now: u64) -> (deadline: Option<u64>)
    ensures
        deadline == deadline_of_read(armed, now),
{
    match armed {
        Some(_) => armed,
        None => deadline_after(now, READ_TIMEOUT),
    }
}

/// An exchange's armed deadline is the deadline of each of its reads, whenever
/// the read comes: a peer that sends byte by byte does not renew it.
pub proof fn law_armed_deadline_is_never_renewed(start: u64, budget: u64, now: u64)
    requires
        start + budget <= u64::MAX,
    ensures
        deadline_of_read(instant_after(start, budget), now) == Some((start + budget) as u64),
        now >= start + budget ==> is_past(
            deadline_of_read(instant_after(start, budget), now),
            now,
        ),
{
}

// -- In-flight connections ----------------------------------------------------

/// The slots that are taken after one more was asked for.
pub open spec fn taken_after_take(taken: nat) -> nat {
    if taken < MAX_CONNECTIONS {
        taken + 1
    } else {
        taken
    }
}

/// The slots that are taken after one was given back.
pub open spec fn taken_after_release(taken: nat) -> nat {
    if taken > 0 {
        (taken - 1) as nat
    } else {
        0
    }
}

/// The connections that are accepted and not yet done with.
///
/// Only the listener takes a slot, and it does so only while there is room.
#[derive(Debug)]
pub struct Slots {
    active: u32,
}

impl Slots {
    /// How many slots are taken; never more than the cap.
    pub closed spec fn taken(&self) -> nat {
        self.active as nat
    }

    #[verifier::type_invariant]
    spec fn within_cap(self) -> bool {
        self.active <= MAX_CONNECTIONS
    }

    /// All slots free.
    pub fn new() -> (slots: Self)
        ensures
            slots.taken() == 0,
    {
        Slots { active: 0 }
    }

    /// Whether another connection may be accepted.
    pub fn has_room(&self) -> (room: bool)
        ensures
            room == (self.taken() < MAX_CONNECTIONS),
            self.taken() <= MAX_CONNECTIONS,
    {
        proof {
            use_type_invariant(self);
        }
        self.active < MAX_CONNECTIONS
    }

    /// Take a slot for an accepted connection, if there is one.
    pub fn take(&mut self) -> (taken: bool)
        ensures
            taken == (old(self).taken() < MAX_CONNECTIONS),
            final(self).taken() == taken_after_take(old(self).taken()),
            final(self).taken() <= MAX_CONNECTIONS,
    {
        proof {
            use_type_invariant(&*self);
        }
        if self.active < MAX_CONNECTIONS {
            self.active = self.active + 1;
            true
        } else {
            false
        }
    }

    /// Give a slot back: its connection was served, dropped or never handed on.
    pub fn release(&mut self)
        ensures
            final(self).taken() == taken_after_release(old(self).taken()),
    {
        proof {
            use_type_invariant(&*self);
        }
        if self.active > 0 {
            self.active = self.active - 1;
        }
    }
}

/// A deadline has passed from its instant on, and one that does not exist never has.
/// A deadline is the budget after now, where the clock can hold that; a read has the
/// deadline that was armed, and five seconds of its own where none was.
pub proof fn law_deadlines_are_instants(deadline: u64, budget: u64, now: u64)
    ensures
        !is_past(None, now),
        is_past(Some(deadline), now) <==> now >= deadline,
        now + budget <= u64::MAX ==> instant_after(now, budget) == Some((now + budget) as u64),
        now + budget > u64::MAX ==> instant_after(now, budget) is None,
        deadline_of_read(Some(deadline), now) == Some(deadline),
        now + 5_000_000_000 <= u64::MAX ==> deadline_of_read(None, now) == Some(
            (now + 5_000_000_000) as u64,
        ),
        now + 5_000_000_000 > u64::MAX ==> deadline_of_read(None, now) is None,
{
}

/// There are four slots: one is taken while fewer are, none beyond that, and one given
/// back is free again.
pub proof fn law_there_are_four_slots(taken: nat)
    ensures
        taken < 4 ==> taken_after_take(taken) == taken + 1,
        taken >= 4 ==> taken_after_take(taken) == taken,
        taken > 0 ==> taken_after_release(taken) == taken - 1,
        taken_after_release(0) == 0,
        MAX_CONNECTIONS == 4,
        MAX_HANDLER_THREADS == 2,
        POLL_INTERVAL == 5_000_000,
{
}

} // verus!
