//! One blocking probe at a time, with a deadline.
//!
//! A probe of a wedged display server may never return, and nothing cancels it.
//! The caller gives up at the deadline, and a latch per call site caps the cost
//! at one parked worker: while a probe is outstanding, later calls are refused
//! at once. The worker clears the latch when it ends, however it ends, so that
//! one bad probe does not disable the site for good.

use vstd::prelude::*;

verus! {

/// The worker's thread name.
pub const THREAD_NAME: &'static str = "duja-bounded-probe";

/// A call site's latch: set while a probe is outstanding.
#[derive(Debug)]
pub struct Latch {
    outstanding: bool,
}

impl Latch {
    /// Whether a probe is outstanding.
    pub closed spec fn is_set(&self) -> bool {
        self.outstanding
    }

    /// A clear latch.
    pub fn new() -> (latch: Self)
        ensures
            !latch.is_set(),
    {
        Latch { outstanding: false }
    }

    /// Whether a probe is outstanding.
    pub fn outstanding(&self) -> (set: bool)
        ensures
            set == self.is_set(),
    {
        self.outstanding
    }

    /// Claim the site: succeeds if nothing was outstanding, and leaves the latch
    /// set either way.
    pub fn claim(&mut self) -> (claimed: bool)
        ensures
            claimed == !old(self).is_set(),
            final(self).is_set(),
    {
        let claimed: bool = !self.outstanding;
        self.outstanding = true;
        claimed
    }

    /// Clear the latch: the worker ended, or could not be spawned.
    pub fn release(&mut self)
        ensures
            !final(self).is_set(),
    {
        self.outstanding = false;
    }
}

impl Default for Latch {
    fn default() -> (latch: Self)
        ensures
            !latch.is_set(),
    {
        Latch::new()
    }
}

/// What to do after trying to claim the site.
#[derive(Debug, Clone, Copy, PartialEq, Eq, Structural)]
pub enum ClaimStep {
    /// A probe is outstanding: give no answer, at once.
    Refuse,
    /// Spawn the worker.
    Spawn,
}

/// What to do after trying to spawn the worker.
#[derive(Debug, Clone, Copy, PartialEq, Eq, Structural)]
pub enum SpawnStep {
    /// No worker will clear the latch: clear it, and give no answer.
    ReleaseAndRefuse,
    /// Wait for the worker until the deadline.
    Wait,
}

/// What waiting for the worker gave.
#[derive(Debug)]
pub enum Received<T> {
    /// The worker's answer.
    Answer(Option<T>),
    /// The deadline passed first.
    TimedOut,
    /// The worker ended without an answer.
    Disconnected,
}

/// The step that follows trying to claim the site.
pub open spec fn claim_step(claimed: bool) -> ClaimStep {
    if claimed {
        ClaimStep::Spawn
    } else {
        ClaimStep::Refuse
    }
}

/// The step that follows trying to spawn the worker.
pub open spec fn spawn_step(spawned: bool) -> SpawnStep {
    if spawned {
        SpawnStep::Wait
    } else {
        SpawnStep::ReleaseAndRefuse
    }
}

/// After claiming: a site that was not claimed is refused.
pub fn after_claim(claimed: bool) -> (step: ClaimStep)
    ensures
        step == claim_step(claimed),
{
    if claimed {
        ClaimStep::Spawn
    } else {
        ClaimStep::Refuse
    }
}

/// After spawning: only a worker that runs is waited for.
pub fn after_spawn(spawned: bool) -> (step: SpawnStep)
    ensures
        step == spawn_step(spawned),
{
    if spawned {
        SpawnStep::Wait
    } else {
        SpawnStep::ReleaseAndRefuse
    }
}

/// The call's result: the worker's answer if it came in time, else none.
pub fn after_wait<T>(received: Received<T>) -> (answer: Option<T>)
    ensures
        answer == match received {
            Received::Answer(a) => a,
            _ => None,
        },
{
    match received {
        Received::Answer(answer) => answer,
        Received::TimedOut => None,
        Received::Disconnected => None,
    }
}

/// Only a claimed site spawns a worker, and only a worker that runs is waited for.
pub proof fn law_workers_follow_claims()
    ensures
        claim_step(true) == ClaimStep::Spawn,
        claim_step(false) == ClaimStep::Refuse,
        spawn_step(true) == SpawnStep::Wait,
        spawn_step(false) == SpawnStep::ReleaseAndRefuse,
{
}

// -- A site over time -------------------------------------------------------

/// A call site: its latch and the workers that are parked in it.
pub ghost struct Site {
    pub outstanding: bool,
    pub workers: nat,
}

/// The site after a call, whose worker could or could not be spawned. Claiming
/// leaves the latch set, and succeeds if it was clear.
pub open spec fn called(site: Site, spawned: bool) -> Site {
    match claim_step(!site.outstanding) {
        ClaimStep::Refuse => Site { outstanding: true, workers: site.workers },
        ClaimStep::Spawn => match spawn_step(spawned) {
            SpawnStep::Wait => Site { outstanding: true, workers: site.workers + 1 },
            SpawnStep::ReleaseAndRefuse => Site { outstanding: false, workers: site.workers },
        },
    }
}

/// The site after one worker ended, by returning or by unwinding: its end
/// releases the latch.
pub open spec fn ended(site: Site) -> Site {
    Site { outstanding: false, workers: (site.workers - 1) as nat }
}

/// What holds of a site: the latch is set exactly while its one worker lives.
pub open spec fn consistent(site: Site) -> bool {
    site.workers == if site.outstanding {
        1nat
    } else {
        0nat
    }
}

/// A call and a worker's end both keep the site consistent: however often it is
/// called, no more than one worker is ever parked there.
pub proof fn law_at_most_one_worker(site: Site, spawned: bool)
    requires
        consistent(site),
    ensures
        consistent(called(site, spawned)),
        called(site, spawned).workers <= 1,
        site.workers > 0 ==> consistent(ended(site)),
{
}

/// A call while a probe is outstanding changes nothing; once that probe's worker
/// has ended the site takes a probe again.
pub proof fn law_refusal_is_a_latch_not_a_fuse(site: Site, spawned: bool)
    requires
        consistent(site),
        site.outstanding,
    ensures
        called(site, spawned) == site,
        called(ended(site), true) == site,
{
}

} // verus!
