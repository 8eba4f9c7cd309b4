use duja_platform::installer_guard::{InstallerGuard, INSTALLER_GUARD_MUTEX_NAME};
use duja_platform::linux_deadline::{
    after_claim, after_spawn, after_wait, ClaimStep, Latch, Received, SpawnStep, THREAD_NAME,
};
use duja_platform::{version, PlatformError, PlatformEvent};

#[test]
fn platform_event_is_a_plain_value() {
    let a = PlatformEvent::DisplaysChanged;
    let b = a;
    assert_eq!(a, b);
    assert_eq!(format!("{a:?}"), "DisplaysChanged");
}

#[test]
fn error_is_display_and_debug() {
    let e = PlatformError::Init("boom".into());
    assert!(e.to_string().contains("boom"));
    assert!(format!("{e:?}").contains("Init"));
}

#[test]
fn errors_name_what_failed() {
    assert_eq!(
        PlatformError::ThreadSpawn("no".to_owned()).to_string(),
        "failed to start the platform event thread: no"
    );
    assert_eq!(
        PlatformError::Init("no".to_owned()).to_string(),
        "failed to initialize the platform event source: no"
    );
    assert_eq!(version(), "0.3.0");
}

#[test]
fn guard_name_is_the_fixed_installer_string() {
    assert_eq!(INSTALLER_GUARD_MUTEX_NAME, r"Local\duja-installer-guard");
}

#[test]
fn stub_guard_holds_nothing() {
    assert!(!InstallerGuard::acquire().is_held());
}

/// One call at a site: whether its worker could be spawned, and what came of
/// waiting for it.
fn probe<T>(latch: &mut Latch, spawned: bool, received: Received<T>) -> Option<T> {
    if after_claim(latch.claim()) == ClaimStep::Refuse {
        return None;
    }
    match after_spawn(spawned) {
        SpawnStep::ReleaseAndRefuse => {
            latch.release();
            None
        }
        SpawnStep::Wait => after_wait(received),
    }
}

#[test]
fn a_probe_that_answers_in_time_is_returned_verbatim() {
    let mut latch = Latch::new();
    assert_eq!(
        probe(&mut latch, true, Received::Answer(Some(41 + 1))),
        Some(42)
    );
    latch.release();
    assert_eq!(
        probe(&mut latch, true, Received::Answer(Option::<u8>::None)),
        None
    );
    latch.release();
    assert!(!latch.outstanding(), "a finished probe clears the latch");
}

#[test]
fn a_second_call_while_one_is_outstanding_does_not_spawn_another() {
    let mut latch = Latch::default();
    assert_eq!(probe(&mut latch, true, Received::<u8>::TimedOut), None);
    assert!(latch.outstanding());
    assert_eq!(probe(&mut latch, true, Received::Answer(Some(2))), None);
    latch.release();
    assert_eq!(probe(&mut latch, true, Received::Answer(Some(3))), Some(3));
}

#[test]
fn a_panicking_probe_does_not_disable_the_call_site_forever() {
    let mut latch = Latch::new();
    assert_eq!(probe(&mut latch, true, Received::<u8>::Disconnected), None);
    latch.release();
    assert_eq!(probe(&mut latch, true, Received::Answer(Some(9))), Some(9));
}

#[test]
fn a_worker_that_cannot_be_spawned_leaves_the_site_usable() {
    let mut latch = Latch::new();
    assert_eq!(probe(&mut latch, false, Received::Answer(Some(1))), None);
    assert!(!latch.outstanding());
    assert_eq!(probe(&mut latch, true, Received::Answer(Some(2))), Some(2));
}

#[test]
fn the_worker_is_named_so_a_parked_one_can_be_identified() {
    assert_eq!(THREAD_NAME, "duja-bounded-probe");
}
