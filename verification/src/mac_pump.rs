//! The macOS event pump's thread: the order in which its sources are registered,
//! what a failure undoes, and the order of the teardown.

use vstd::prelude::*;

use crate::text;
use crate::PlatformError;

verus! {

/// A source that the pump's thread registers on its run loop.
#[derive(Debug, Clone, Copy, PartialEq, Eq, Structural)]
pub enum Source {
    /// The display-reconfiguration callback, without which there is no pump.
    Displays,
    /// The source that keeps the run loop alive and stops it when signalled.
    Stop,
    /// System power notifications, where the host has them.
    Power,
}

/// What came of registering a source.
#[derive(Debug, Clone, Copy, PartialEq, Eq, Structural)]
pub enum Registered {
    /// It is live.
    Yes,
    /// It is not; the code is what the system returned, if it returned one.
    No(i32),
}

/// What the thread does next.
#[derive(Debug)]
pub enum PumpStep {
    /// Register this source.
    Register(Source),
    /// Report that every source is live, and run the loop if asked to.
    ReportReady,
    /// Undo what was registered, and report this error.
    Fail(PlatformError),
}

/// The text of a mandatory source that could not be registered.
pub open spec fn failure_text(source: Source, code: int) -> Seq<char> {
    match source {
        Source::Displays => "CGDisplayRegisterReconfigurationCallback failed: CGError "@
            + text::signed_digits(code),
        _ => "CFRunLoopSourceCreate returned null"@,
    }
}

/// What follows a source that is live, or one that can be done without.
pub open spec fn next_source(source: Source) -> Option<Source> {
    match source {
        Source::Displays => Some(Source::Stop),
        Source::Stop => Some(Source::Power),
        Source::Power => None,
    }
}

/// After trying to register a source: the power source is the only one whose
/// absence is no failure.
pub fn after_register(source: Source, registered: Registered) -> (step: PumpStep)
    ensures
        match registered {
            Registered::No(code) if source != Source::Power => {
                step matches PumpStep::Fail(PlatformError::Init(m)) && m@ == failure_text(
                    source,
                    code as int,
                )
            },
            _ => match next_source(source) {
                Some(next) => step matches PumpStep::Register(s) && s == next,
                None => step is ReportReady,
            },
        },
        source == Source::Power ==> step is ReportReady,
        source == Source::Displays && registered == Registered::Yes ==> step == PumpStep::Register(
            Source::Stop,
        ),
        source == Source::Stop && registered == Registered::Yes ==> step == PumpStep::Register(
            Source::Power,
        ),
        source != Source::Power && registered != Registered::Yes ==> step is Fail,
{
    match source {
        Source::Displays => match registered {
            Registered::Yes => PumpStep::Register(Source::Stop),
            Registered::No(code) => PumpStep::Fail(
                PlatformError::Init(
                    text::join2(
                        "CGDisplayRegisterReconfigurationCallback failed: CGError ",
                        text::signed_decimal(code).as_str(),
                    ),
                ),
            ),
        },
        Source::Stop => match registered {
            Registered::Yes => PumpStep::Register(Source::Power),
            Registered::No(_) => PumpStep::Fail(
                PlatformError::Init("CFRunLoopSourceCreate returned null".to_owned()),
            ),
        },
        Source::Power => PumpStep::ReportReady,
    }
}

/// What the two calls that register for system power lead to.
#[derive(Debug, Clone, Copy, PartialEq, Eq, Structural)]
pub enum PowerSetup {
    /// The host has no such notifications.
    Unavailable,
    /// The connection was made but has no source: undo it.
    Undo,
    /// Add the source to the run loop.
    Add,
}

/// What to do with the root port, the notification port and its source.
pub fn power_setup(root_port: u32, has_port: bool, has_source: bool) -> (setup: PowerSetup)
    ensures
        setup == if root_port == 0 || !has_port {
            PowerSetup::Unavailable
        } else if !has_source {
            PowerSetup::Undo
        } else {
            PowerSetup::Add
        },
{
    if root_port == 0 || !has_port {
        PowerSetup::Unavailable
    } else if !has_source {
        PowerSetup::Undo
    } else {
        PowerSetup::Add
    }
}

/// The sources to tear down, from those that are live in the order they were
/// registered: the last one first.
pub fn teardown_order(live: &[Source]) -> (order: Vec<Source>)
    ensures
        order@ == live@.reverse(),
{
    let mut order: Vec<Source> = Vec::new();
    let mut i: usize = live.len();
    while i > 0
        invariant
            i <= live.len(),
            order@.len() == live.len() - i,
            forall|j: int| 0 <= j < order@.len() ==> order@[j] == live@[live@.len() - 1 - j],
        decreases i,
    {
        i -= 1;
        order.push(live[i]);
    }
    assert(order@ =~= live@.reverse());
    order
}

/// What the thread that spawned the pump gets, from what the event thread
/// reported: nothing at all means that it ended before it could.
pub fn after_init<H>(report: Option<Result<H, PlatformError>>) -> (handle: Result<H, PlatformError>)
    ensures
        match report {
            Some(Ok(h)) => handle matches Ok(got) && got == h,
            Some(Err(e)) => handle matches Err(err) && err == e,
            None => handle matches Err(PlatformError::Init(m)) && m@
                == "event thread exited before initialization"@,
        },
{
    match report {
        Some(result) => result,
        None => Err(PlatformError::Init("event thread exited before initialization".to_owned())),
    }
}

/// The sources that are live when `source` is about to be registered.
pub open spec fn live_before(source: Source) -> Seq<Source> {
    match source {
        Source::Displays => Seq::empty(),
        Source::Stop => seq![Source::Displays],
        Source::Power => seq![Source::Displays, Source::Stop],
    }
}

/// Each source is registered once and in order, and at a failure the live ones
/// are exactly those before it: tearing them down from the last to the first
/// leaves the display callback for the end, which reaches the pump's state.
pub proof fn law_sources_are_registered_once(source: Source)
    ensures
        match next_source(source) {
            Some(next) => live_before(next) == live_before(source).push(source),
            None => live_before(source).push(source).no_duplicates(),
        },
        !live_before(source).contains(source),
        live_before(source).len() > 0 ==> live_before(source).reverse().last() == Source::Displays,
{
    match next_source(source) {
        Some(next) => {
            assert(live_before(next) =~= live_before(source).push(source));
        },
        None => {},
    }
}

/// A pump needs its display callback and its stop source, in this order, and reports
/// ready once the power source was tried; what failed is told by its system call,
/// with the code where there is one.
pub proof fn law_registration_runs_in_this_order(code: int)
    ensures
        next_source(Source::Displays) == Some(Source::Stop),
        next_source(Source::Stop) == Some(Source::Power),
        next_source(Source::Power) is None,
        failure_text(Source::Displays, code)
            == "CGDisplayRegisterReconfigurationCallback failed: CGError "@ + text::signed_digits(
            code,
        ),
        failure_text(Source::Stop, code) == "CFRunLoopSourceCreate returned null"@,
{
}

} // verus!
