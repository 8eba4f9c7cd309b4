//! The listeners' loops, one step at a time: what to do after a wait, after a
//! receive and after a send.

use vstd::prelude::*;

use crate::linux_events;
use crate::text;
use crate::{PlatformError, PlatformEvent};

verus! {

/// The multicast group the kernel broadcasts uevents on.
pub const KERNEL_GROUP: u32 = 1;

/// The port id that lets the kernel assign one.
pub const AUTO_PORT_ID: u32 = 0;

/// Receive buffer for one uevent datagram, in bytes.
pub const BUFFER_LEN: usize = 8192;

/// What a wait reported of one descriptor.
#[derive(Debug, Clone, Copy, PartialEq, Eq, Structural)]
pub struct Readiness {
    /// Something to read.
    pub input: bool,
    /// The other end is gone.
    pub hangup: bool,
    /// An error is pending.
    pub error: bool,
}

impl Readiness {
    /// Whether anything at all was reported.
    pub open spec fn any(self) -> bool {
        self.input || self.hangup || self.error
    }

    /// Whether anything at all was reported.
    pub fn is_any(&self) -> (yes: bool)
        ensures
            yes == self.any(),
    {
        self.input || self.hangup || self.error
    }
}

/// How a wait on the socket and the stop pipe ended.
#[derive(Debug, Clone, Copy, PartialEq, Eq, Structural)]
pub enum PollOutcome {
    /// At least one descriptor is ready.
    Ready { socket: Readiness, stop: Readiness },
    /// A signal interrupted the wait.
    Interrupted,
    /// The wait itself failed.
    Failed,
}

/// What the listener does after a wait.
#[derive(Debug, Clone, Copy, PartialEq, Eq, Structural)]
pub enum PollStep {
    /// Wait again.
    Wait,
    /// Receive a datagram.
    Receive,
    /// End the thread.
    Stop,
}

/// The step that a wait leads to.
pub open spec fn poll_step(outcome: PollOutcome) -> PollStep {
    match outcome {
        PollOutcome::Interrupted => PollStep::Wait,
        PollOutcome::Failed => PollStep::Stop,
        PollOutcome::Ready { socket, stop } => if stop.any() {
            PollStep::Stop
        } else if socket.any() {
            PollStep::Receive
        } else {
            PollStep::Wait
        },
    }
}

/// The step after a wait.
///
/// The stop pipe is looked at first: at shutdown the socket may be ready too,
/// and draining it would delay the join. The error bits of the socket count as
/// readiness, because only a receive clears them.
pub fn after_poll(outcome: PollOutcome) -> (step: PollStep)
    ensures
        step == poll_step(outcome),
{
    match outcome {
        PollOutcome::Interrupted => PollStep::Wait,
        PollOutcome::Failed => PollStep::Stop,
        PollOutcome::Ready { socket, stop } => if stop.is_any() {
            PollStep::Stop
        } else if socket.is_any() {
            PollStep::Receive
        } else {
            PollStep::Wait
        },
    }
}

/// How a receive ended.
#[derive(Debug, Clone, Copy)]
pub enum RecvOutcome<'a> {
    /// A datagram, cut to the bytes received.
    Datagram(&'a [u8]),
    /// A signal interrupted it, or there was nothing after all.
    Retry,
    /// The kernel dropped broadcasts because the receive buffer was full.
    Overrun,
    /// The socket is broken.
    Failed,
}

/// What a listener does with what it got.
#[derive(Debug, Clone, Copy, PartialEq, Eq, Structural)]
pub enum ListenStep {
    /// Go on waiting.
    Wait,
    /// Send this event, then go on.
    Emit(PlatformEvent),
    /// End the thread.
    Stop,
}

/// The step after a receive.
///
/// An overrun counts as a display change: plugging a dock produces exactly the
/// burst that overflows the buffer, and an extra re-enumeration is cheap.
pub fn after_recv(outcome: RecvOutcome<'_>) -> (step: ListenStep)
    ensures
        step == match outcome {
            RecvOutcome::Datagram(datagram) => if linux_events::is_display_change(datagram@) {
                ListenStep::Emit(PlatformEvent::DisplaysChanged)
            } else {
                ListenStep::Wait
            },
            RecvOutcome::Retry => ListenStep::Wait,
            RecvOutcome::Overrun => ListenStep::Emit(PlatformEvent::DisplaysChanged),
            RecvOutcome::Failed => ListenStep::Stop,
        },
{
    match outcome {
        RecvOutcome::Datagram(datagram) => match linux_events::classify_uevent(datagram) {
            Some(event) => ListenStep::Emit(event),
            None => ListenStep::Wait,
        },
        RecvOutcome::Retry => ListenStep::Wait,
        RecvOutcome::Overrun => ListenStep::Emit(PlatformEvent::DisplaysChanged),
        RecvOutcome::Failed => ListenStep::Stop,
    }
}

/// The step after a send: a consumer that is gone ends the thread.
pub fn after_send(delivered: bool) -> (step: ListenStep)
    ensures
        step == (if delivered {
            ListenStep::Wait
        } else {
            ListenStep::Stop
        }),
{
    if delivered {
        ListenStep::Wait
    } else {
        ListenStep::Stop
    }
}

/// Shutdown is prompt and errors are consumed: once the stop pipe reports
/// anything the listener ends whatever the socket says, and until then a socket
/// with a pending error is received from, which is what clears it.
pub proof fn law_stop_wins_and_errors_are_received(socket: Readiness, stop: Readiness)
    ensures
        stop.any() ==> poll_step(PollOutcome::Ready { socket, stop }) == PollStep::Stop,
        !stop.any() && socket.error ==> poll_step(PollOutcome::Ready { socket, stop })
            == PollStep::Receive,
        !stop.any() && !socket.any() ==> poll_step(PollOutcome::Ready { socket, stop })
            == PollStep::Wait,
{
}

/// Anything that a wait reports of the stop pipe ends the listener, be it data, a
/// hangup or an error; anything that it reports of the socket alone is received; an
/// interrupted wait is repeated and a failed one ends the listener.
pub proof fn law_any_report_counts(socket: Readiness, stop: Readiness)
    ensures
        stop.input || stop.hangup || stop.error ==> poll_step(PollOutcome::Ready { socket, stop })
            == PollStep::Stop,
        !stop.input && !stop.hangup && !stop.error && (socket.input || socket.hangup
            || socket.error) ==> poll_step(PollOutcome::Ready { socket, stop })
            == PollStep::Receive,
        !stop.input && !stop.hangup && !stop.error && !socket.input && !socket.hangup
            && !socket.error ==> poll_step(PollOutcome::Ready { socket, stop }) == PollStep::Wait,
        poll_step(PollOutcome::Interrupted) == PollStep::Wait,
        poll_step(PollOutcome::Failed) == PollStep::Stop,
{
}

/// Whether the pump starts, from what opening the netlink socket gave. The sleep
/// listener is not asked: without a system bus the pump runs on display changes
/// alone.
pub fn pump_started(uevent: Result<(), String>) -> (started: Result<(), PlatformError>)
    ensures
        match uevent {
            Ok(_) => started is Ok,
            Err(what) => started matches Err(PlatformError::Init(m)) && m@
                == "uevent netlink socket: "@ + what@,
        },
{
    match uevent {
        Ok(_) => Ok(()),
        Err(what) => Err(
            PlatformError::Init(text::join2("uevent netlink socket: ", what.as_str())),
        ),
    }
}

/// One message of the sleep signal's stream.
#[derive(Debug, Clone, Copy, PartialEq, Eq, Structural)]
pub enum SleepMessage {
    /// The signal, with its boolean.
    PrepareForSleep(bool),
    /// A message whose body is not a boolean.
    Unreadable,
    /// The stream failed, which is how a closed connection ends it.
    Closed,
}

/// The step after a message of the sleep signal's stream.
pub fn after_sleep_message(message: SleepMessage) -> (step: ListenStep)
    ensures
        step == match message {
            SleepMessage::PrepareForSleep(going) => ListenStep::Emit(
                if going {
                    PlatformEvent::Suspending
                } else {
                    PlatformEvent::Resumed
                },
            ),
            SleepMessage::Unreadable => ListenStep::Wait,
            SleepMessage::Closed => ListenStep::Stop,
        },
{
    match message {
        SleepMessage::PrepareForSleep(going) => ListenStep::Emit(
            linux_events::classify_prepare_for_sleep(going),
        ),
        SleepMessage::Unreadable => ListenStep::Wait,
        SleepMessage::Closed => ListenStep::Stop,
    }
}

} // verus!
