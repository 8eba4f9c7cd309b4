//! The unix-socket server: its start and the unwinding of a failed one, the
//! listener's and the handlers' loops, and the shutdown.

use vstd::prelude::*;

use super::unix_socket::{peer_allowed, WAIT_SLICE};
use super::{
    deadline_after, IpcTransportError, TransportModel, MAX_CONNECTIONS, MAX_HANDLER_THREADS,
    POLL_INTERVAL, READ_TIMEOUT,
};
use super::unix_bind;
use crate::text;

verus! {

/// The listener thread's name.
pub const LISTENER_NAME: &'static str = "duja-ipc-listener";

/// The name of the handler thread number `i`.
pub fn handler_name(i: usize) -> (name: String)
    ensures
        name@ == "duja-ipc-handler-"@ + text::decimal_digits(i as nat),
{
    let mut name: String = "duja-ipc-handler-".to_owned();
    name.append(text::decimal(i as u64).as_str());
    name
}

// -- Starting -----------------------------------------------------------------

/// The operation that a start performs next, on a socket that is bound.
#[derive(Debug, Clone, Copy, PartialEq, Eq, Structural)]
pub enum StartPhase {
    /// Restrict the socket's mode to its owner.
    SetMode,
    /// Make the listener non-blocking.
    SetNonblocking,
    /// Spawn the handler thread with this number.
    SpawnHandler(usize),
    /// Spawn the listener thread.
    SpawnListener,
}

/// How a failed start is undone: raise the stop flag if threads run, join those,
/// then unlink the socket if it is still ours.
#[derive(Debug)]
pub struct Unwinding {
    /// Whether to raise the stop flag and close the work channel.
    pub stop: bool,
    /// How many handler threads to join.
    pub join: usize,
    /// Whether to unlink the socket that was bound, after that, if it is still
    /// ours.
    pub unlink: bool,
    /// What to report after that.
    pub error: IpcTransportError,
}

/// What a start does next.
#[derive(Debug)]
pub enum StartStep {
    /// Perform this operation.
    Go(StartPhase),
    /// The server runs.
    Running,
    /// Undo, and fail.
    Unwind(Unwinding),
}

/// What follows an operation that succeeded; nothing follows the last.
pub open spec fn start_next(phase: StartPhase) -> Option<StartPhase> {
    match phase {
        StartPhase::SetMode => Some(StartPhase::SetNonblocking),
        StartPhase::SetNonblocking => Some(StartPhase::SpawnHandler(0)),
        StartPhase::SpawnHandler(i) => if i + 1 < MAX_HANDLER_THREADS {
            Some(StartPhase::SpawnHandler((i + 1) as usize))
        } else {
            Some(StartPhase::SpawnListener)
        },
        StartPhase::SpawnListener => None,
    }
}

/// How many handler threads run when an operation is performed.
pub open spec fn handlers_before(phase: StartPhase) -> nat {
    match phase {
        StartPhase::SetMode | StartPhase::SetNonblocking => 0,
        StartPhase::SpawnHandler(i) => i as nat,
        StartPhase::SpawnListener => MAX_HANDLER_THREADS as nat,
    }
}

/// Whether an operation comes after the threads' shared state was made.
pub open spec fn spawns(phase: StartPhase) -> bool {
    phase is SpawnHandler || phase is SpawnListener
}

/// The first operation of a start.
pub fn start() -> (phase: StartPhase)
    ensures
        phase == StartPhase::SetMode,
{
    StartPhase::SetMode
}

/// What a start does after an operation.
pub fn after_start(phase: StartPhase, outcome: Result<(), String>) -> (step: StartStep)
    ensures
        match outcome {
            Ok(_) => match start_next(phase) {
                Some(next) => step matches StartStep::Go(p) && p == next,
                None => step is Running,
            },
            Err(what) => {
                &&& step matches StartStep::Unwind(u)
                &&& u.stop == spawns(phase)
                &&& u.join == handlers_before(phase)
                &&& u.unlink
                &&& u.error@ == TransportModel::Io(what@)
            },
        },
{
    match outcome {
        Ok(_) => match phase {
            StartPhase::SetMode => StartStep::Go(StartPhase::SetNonblocking),
            StartPhase::SetNonblocking => StartStep::Go(StartPhase::SpawnHandler(0)),
            StartPhase::SpawnHandler(i) => if i < MAX_HANDLER_THREADS && i + 1
                < MAX_HANDLER_THREADS {
                StartStep::Go(StartPhase::SpawnHandler(i + 1))
            } else {
                StartStep::Go(StartPhase::SpawnListener)
            },
            StartPhase::SpawnListener => StartStep::Running,
        },
        Err(what) => {
            let error: IpcTransportError = IpcTransportError::Io(what);
            let (stop, join): (bool, usize) = match phase {
                StartPhase::SetMode => (false, 0),
                StartPhase::SetNonblocking => (false, 0),
                StartPhase::SpawnHandler(i) => (true, i),
                StartPhase::SpawnListener => (true, MAX_HANDLER_THREADS),
            };
            StartStep::Unwind(Unwinding { stop, join, unlink: true, error })
        },
    }
}

/// What a server holds while it starts.
pub ghost struct Held {
    pub handlers: nat,
    pub listener: bool,
    pub socket: bool,
}

/// What is held after an operation succeeded.
pub open spec fn held_after(held: Held, phase: StartPhase) -> Held {
    match phase {
        StartPhase::SpawnHandler(_) => Held { handlers: held.handlers + 1, ..held },
        StartPhase::SpawnListener => Held { listener: true, ..held },
        _ => held,
    }
}

/// Whether what is held is what an operation expects: the socket is bound before
/// the first one.
pub open spec fn expected(held: Held, phase: StartPhase) -> bool {
    &&& held.handlers == handlers_before(phase)
    &&& !held.listener
    &&& held.socket
    &&& phase matches StartPhase::SpawnHandler(i) ==> i < MAX_HANDLER_THREADS
}

/// What is held after an unwinding: the handlers end once the stop flag is up, and
/// the joined ones are gone; the socket is gone if it was unlinked.
pub open spec fn unwound(held: Held, stop: bool, join: nat, unlink: bool) -> Held {
    Held {
        handlers: if stop && join <= held.handlers {
            (held.handlers - join) as nat
        } else {
            held.handlers
        },
        listener: held.listener,
        socket: held.socket && !unlink,
    }
}

/// A start spawns every handler once and the listener last. A failure at any
/// operation joins exactly the handlers that run and unlinks the socket, so a
/// failed start leaves neither a thread nor the socket behind; the unlink is
/// granted for the socket that was bound, under the lock.
pub proof fn law_failed_start_leaves_neither_thread_nor_socket(
    held: Held,
    phase: StartPhase,
    step: StartStep,
    what: String,
    bound: unix_bind::SocketIdentity,
)
    requires
        expected(held, phase),
        call_ensures(after_start, (phase, Err::<(), String>(what)), step),
    ensures
        expected((Held { handlers: 0, listener: false, socket: true }), StartPhase::SetMode),
        match start_next(phase) {
            Some(next) => expected(held_after(held, phase), next),
            None => held_after(held, phase) == (Held {
                handlers: MAX_HANDLER_THREADS as nat,
                listener: true,
                socket: true,
            }),
        },
        step matches StartStep::Unwind(u) && unwound(held, u.stop, u.join as nat, u.unlink) == (
        Held { handlers: 0, listener: false, socket: false }),
        unix_bind::still_ours(Some(bound), true, Some(bound)),
{
}

// -- The listener's loop ------------------------------------------------------

/// What came of an `accept`.
#[derive(Debug, Clone, Copy, PartialEq, Eq, Structural)]
pub enum Accepted {
    /// A connection.
    Connection,
    /// None is pending.
    WouldBlock,
    /// A signal came.
    Interrupted,
    /// A transient fault.
    Failed,
}

/// What the listener does next.
#[derive(Debug, Clone, Copy, PartialEq, Eq, Structural)]
pub enum ListenerStep {
    /// End, closing what is in hand.
    Exit,
    /// Sleep for this many nanoseconds, and look again.
    Sleep(u64),
    /// Accept a connection.
    Accept,
    /// Take a slot and hand the connection to a handler.
    HandOn,
    /// Look again at once.
    LookAgain,
    /// Give the slot back, and end.
    ReleaseAndExit,
}

/// What the listener does at the top of its loop.
pub open spec fn top_step(stop: bool, has_room: bool) -> ListenerStep {
    if stop {
        ListenerStep::Exit
    } else if !has_room {
        ListenerStep::Sleep(POLL_INTERVAL)
    } else {
        ListenerStep::Accept
    }
}

/// What the listener does after handing a connection on.
pub open spec fn hand_on_step(delivered: bool) -> ListenerStep {
    if delivered {
        ListenerStep::LookAgain
    } else {
        ListenerStep::ReleaseAndExit
    }
}

/// The top of the listener's loop: excess connections wait in the backlog.
pub fn listener_top(stop: bool, has_room: bool) -> (step: ListenerStep)
    ensures
        step == top_step(stop, has_room),
{
    if stop {
        ListenerStep::Exit
    } else if !has_room {
        ListenerStep::Sleep(POLL_INTERVAL)
    } else {
        ListenerStep::Accept
    }
}

/// After an `accept`; `stop` is the flag as it is then.
pub fn after_accept(accepted: Accepted, stop: bool) -> (step: ListenerStep)
    ensures
        step == match accepted {
            Accepted::Connection => if stop {
                ListenerStep::Exit
            } else {
                ListenerStep::HandOn
            },
            Accepted::WouldBlock => ListenerStep::Sleep(WAIT_SLICE),
            Accepted::Interrupted => ListenerStep::LookAgain,
            Accepted::Failed => ListenerStep::Sleep(POLL_INTERVAL),
        },
{
    match accepted {
        Accepted::Connection => if stop {
            ListenerStep::Exit
        } else {
            ListenerStep::HandOn
        },
        Accepted::WouldBlock => ListenerStep::Sleep(WAIT_SLICE),
        Accepted::Interrupted => ListenerStep::LookAgain,
        Accepted::Failed => ListenerStep::Sleep(POLL_INTERVAL),
    }
}

/// After handing a connection on: handlers that are gone end the listener.
pub fn after_hand_on(delivered: bool) -> (step: ListenerStep)
    ensures
        step == hand_on_step(delivered),
{
    if delivered {
        ListenerStep::LookAgain
    } else {
        ListenerStep::ReleaseAndExit
    }
}

// -- A handler's loop ---------------------------------------------------------

/// What a handler does with what the channel gave it.
#[derive(Debug, Clone, Copy, PartialEq, Eq, Structural)]
pub enum HandlerStep {
    /// The channel is closed: end.
    Exit,
    /// Serve the connection, then give its slot back.
    Serve,
    /// Close the connection, and give its slot back.
    Drop,
}

/// What a handler does after receiving from the work channel.
pub open spec fn recv_step(received: bool, stop: bool) -> HandlerStep {
    if !received {
        HandlerStep::Exit
    } else if stop {
        HandlerStep::Drop
    } else {
        HandlerStep::Serve
    }
}

/// After receiving from the work channel.
pub fn after_recv(received: bool, stop: bool) -> (step: HandlerStep)
    ensures
        step == recv_step(received, stop),
{
    if !received {
        HandlerStep::Exit
    } else if stop {
        HandlerStep::Drop
    } else {
        HandlerStep::Serve
    }
}

/// How a connection is served.
#[derive(Debug, Clone, Copy, PartialEq, Eq, Structural)]
pub enum ServeStep {
    /// Close it without an answer.
    Refuse,
    /// Run one exchange, all of whose reads end by this deadline.
    Exchange(Option<u64>),
}

/// Verify the peer, then arm one deadline for the whole exchange.
pub fn serve_connection(peer: Option<u32>, ours: u32, now: u64) -> (step: ServeStep)
    ensures
        step == if peer == Some(ours) {
            ServeStep::Exchange(super::instant_after(now, READ_TIMEOUT))
        } else {
            ServeStep::Refuse
        },
{
    if peer_allowed(peer, ours) {
        ServeStep::Exchange(deadline_after(now, READ_TIMEOUT))
    } else {
        ServeStep::Refuse
    }
}

// -- Slots over time ----------------------------------------------------------

/// Where the connections of a server are: accepted and in the channel or with a
/// handler, and the slots that count them.
pub ghost struct Traffic {
    pub in_hand: nat,
    pub slots: nat,
}

/// One thing that happens to a server's connections.
pub ghost enum Moved {
    /// The listener accepted one, took a slot and tried to hand it on.
    Accepted { delivered: bool },
    /// A handler is done with what the channel gave it.
    Handled { received: bool, stop: bool },
}

/// Whether it can happen: the listener accepts only from the top of its loop, and
/// the channel gives only what is in hand.
pub open spec fn can_move(traffic: Traffic, moved: Moved) -> bool {
    match moved {
        Moved::Accepted { .. } => top_step(false, traffic.slots < MAX_CONNECTIONS)
            == ListenerStep::Accept,
        Moved::Handled { received, .. } => received ==> traffic.in_hand > 0,
    }
}

/// The traffic after it happened.
pub open spec fn traffic_after(traffic: Traffic, moved: Moved) -> Traffic {
    match moved {
        Moved::Accepted { delivered } => {
            let slots = super::taken_after_take(traffic.slots);
            match hand_on_step(delivered) {
                ListenerStep::ReleaseAndExit => Traffic {
                    in_hand: traffic.in_hand,
                    slots: super::taken_after_release(slots),
                },
                _ => Traffic { in_hand: traffic.in_hand + 1, slots },
            }
        },
        Moved::Handled { received, stop } => match recv_step(received, stop) {
            HandlerStep::Exit => traffic,
            HandlerStep::Serve | HandlerStep::Drop => Traffic {
                in_hand: (traffic.in_hand - 1) as nat,
                slots: super::taken_after_release(traffic.slots),
            },
        },
    }
}

/// Slots count exactly the connections in hand, and stay within the cap: the
/// listener accepts only while there is room, and each connection gives its slot
/// back once, whether it was served, dropped or never delivered.
pub proof fn law_connections_stay_within_the_cap(traffic: Traffic, moved: Moved)
    requires
        traffic.slots == traffic.in_hand <= MAX_CONNECTIONS,
        can_move(traffic, moved),
    ensures
        traffic_after(traffic, moved).slots == traffic_after(traffic, moved).in_hand,
        traffic_after(traffic, moved).slots <= MAX_CONNECTIONS,
{
}

// -- Shutting down ------------------------------------------------------------

/// What a shutdown does.
#[derive(Debug, Clone, Copy, PartialEq, Eq, Structural)]
pub enum ShutdownStep {
    /// Nothing: it was done before.
    Nothing,
    /// Join the listener, then the handlers, then unlink the socket if it is
    /// still ours.
    JoinAndUnlink,
}

/// What a shutdown does, from the stop flag it found when it raised it.
pub fn stop_and_join(was_stopped: bool) -> (step: ShutdownStep)
    ensures
        step == if was_stopped {
            ShutdownStep::Nothing
        } else {
            ShutdownStep::JoinAndUnlink
        },
{
    if was_stopped {
        ShutdownStep::Nothing
    } else {
        ShutdownStep::JoinAndUnlink
    }
}

/// A start restricts the mode, makes the listener non-blocking, spawns two handlers and
/// then the listener, and nothing comes after that. A failure stops and joins what runs
/// by then.
pub proof fn law_start_runs_in_this_order()
    ensures
        start_next(StartPhase::SetMode) == Some(StartPhase::SetNonblocking),
        start_next(StartPhase::SetNonblocking) == Some(StartPhase::SpawnHandler(0)),
        start_next(StartPhase::SpawnHandler(0)) == Some(StartPhase::SpawnHandler(1)),
        start_next(StartPhase::SpawnHandler(1)) == Some(StartPhase::SpawnListener),
        start_next(StartPhase::SpawnListener) is None,
        handlers_before(StartPhase::SetMode) == 0,
        handlers_before(StartPhase::SetNonblocking) == 0,
        handlers_before(StartPhase::SpawnHandler(0)) == 0,
        handlers_before(StartPhase::SpawnHandler(1)) == 1,
        handlers_before(StartPhase::SpawnListener) == 2,
        !spawns(StartPhase::SetMode) && !spawns(StartPhase::SetNonblocking),
        spawns(StartPhase::SpawnHandler(0)) && spawns(StartPhase::SpawnHandler(1)),
        spawns(StartPhase::SpawnListener),
{
}

/// Stopping comes before everything else in both loops. Until then the listener accepts
/// while there is room and waits shortly while there is none, a handler serves what it
/// receives, and an end of the channel ends either.
pub proof fn law_loops_stop_first(flag: bool)
    ensures
        top_step(true, flag) == ListenerStep::Exit,
        top_step(false, true) == ListenerStep::Accept,
        top_step(false, false) == ListenerStep::Sleep(5_000_000),
        hand_on_step(true) == ListenerStep::LookAgain,
        hand_on_step(false) == ListenerStep::ReleaseAndExit,
        recv_step(false, flag) == HandlerStep::Exit,
        recv_step(true, true) == HandlerStep::Drop,
        recv_step(true, false) == HandlerStep::Serve,
{
}

} // verus!
