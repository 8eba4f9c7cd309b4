use duja_platform::linux_uevent::{
    after_poll, after_recv, after_send, after_sleep_message, pump_started, ListenStep,
    PollOutcome, PollStep, Readiness, RecvOutcome, SleepMessage,
};
use duja_platform::linux_x11::{
    existing_atom, has_current_resources, lit_crtcs, monitors_from, pointer_position, strut_query,
    struts, xsettings_selection, CrtcInfo, StrutReads,
};
use duja_platform::linux_geometry::{X11Screen, X11Strut};
use duja_platform::mac_pump::{
    after_init, after_register, power_setup, teardown_order, PowerSetup, PumpStep, Registered,
    Source,
};
use duja_platform::{PlatformError, PlatformEvent};

const QUIET: Readiness = Readiness {
    input: false,
    hangup: false,
    error: false,
};

#[test]
fn the_stop_pipe_is_looked_at_first() {
    let input = Readiness {
        input: true,
        ..QUIET
    };
    let hangup = Readiness {
        hangup: true,
        ..QUIET
    };
    let error = Readiness {
        error: true,
        ..QUIET
    };
    for stop in [input, hangup, error] {
        assert_eq!(
            after_poll(PollOutcome::Ready {
                socket: input,
                stop
            }),
            PollStep::Stop
        );
    }
    for socket in [input, hangup, error] {
        assert_eq!(
            after_poll(PollOutcome::Ready {
                socket,
                stop: QUIET
            }),
            PollStep::Receive
        );
    }
    assert_eq!(
        after_poll(PollOutcome::Ready {
            socket: QUIET,
            stop: QUIET
        }),
        PollStep::Wait
    );
    assert_eq!(after_poll(PollOutcome::Interrupted), PollStep::Wait);
    assert_eq!(after_poll(PollOutcome::Failed), PollStep::Stop);
}

#[test]
fn an_overrun_counts_as_a_display_change() {
    assert_eq!(
        after_recv(RecvOutcome::Overrun),
        ListenStep::Emit(PlatformEvent::DisplaysChanged)
    );
    assert_eq!(
        after_recv(RecvOutcome::Datagram(b"x\0ACTION=add\0SUBSYSTEM=drm\0")),
        ListenStep::Emit(PlatformEvent::DisplaysChanged)
    );
    assert_eq!(
        after_recv(RecvOutcome::Datagram(b"x\0ACTION=add\0SUBSYSTEM=usb\0")),
        ListenStep::Wait
    );
    assert_eq!(after_recv(RecvOutcome::Retry), ListenStep::Wait);
    assert_eq!(after_recv(RecvOutcome::Failed), ListenStep::Stop);
    assert_eq!(after_send(true), ListenStep::Wait);
    assert_eq!(after_send(false), ListenStep::Stop);
}

#[test]
fn a_sleep_message_is_forwarded_skipped_or_the_end() {
    assert_eq!(
        after_sleep_message(SleepMessage::PrepareForSleep(true)),
        ListenStep::Emit(PlatformEvent::Suspending)
    );
    assert_eq!(
        after_sleep_message(SleepMessage::PrepareForSleep(false)),
        ListenStep::Emit(PlatformEvent::Resumed)
    );
    assert_eq!(
        after_sleep_message(SleepMessage::Unreadable),
        ListenStep::Wait
    );
    assert_eq!(after_sleep_message(SleepMessage::Closed), ListenStep::Stop);
}

#[test]
fn only_the_netlink_socket_is_mandatory() {
    assert!(pump_started(Ok(())).is_ok());
    assert!(matches!(
        pump_started(Err("EPERM".to_owned())),
        Err(PlatformError::Init(m)) if m == "uevent netlink socket: EPERM"
    ));
}

#[test]
fn the_x11_replies_are_read_by_their_rules() {
    assert_eq!(existing_atom(0), None);
    assert_eq!(existing_atom(7), Some(7));
    assert!(has_current_resources(1, 3));
    assert!(has_current_resources(2, 0));
    assert!(!has_current_resources(1, 2));
    assert_eq!(pointer_position(true, -3, 9), Some((-3, 9)));
    assert_eq!(pointer_position(false, -3, 9), None);
    assert_eq!(xsettings_selection(12), "_XSETTINGS_S12");
}

#[test]
fn only_lit_crtcs_become_monitors() {
    let lit = CrtcInfo {
        x: -5,
        y: 6,
        width: 100,
        height: 50,
        first_output: Some(3),
    };
    let off = CrtcInfo { width: 0, ..lit };
    let unattached = CrtcInfo {
        first_output: None,
        ..lit
    };
    let kept = lit_crtcs(&[off, lit, unattached]);
    assert_eq!(kept, vec![lit]);
    let monitors = monitors_from(&[(kept[0], None)]);
    assert_eq!(monitors.len(), 1);
    assert_eq!(monitors[0].bounds.x, -5);
    assert_eq!(monitors[0].bounds.w, 100);
    assert_eq!(monitors[0].mm_width, 0);
    let sized = monitors_from(&[(kept[0], Some((344, 194)))]);
    assert_eq!((sized[0].mm_width, sized[0].mm_height), (344, 194));
}

#[test]
fn struts_come_from_the_windows_that_reserve_something() {
    assert_eq!(strut_query(None, Some(1), Some(2)), None);
    assert_eq!(strut_query(Some(9), None, None), None);
    let query = strut_query(Some(9), None, Some(2)).expect("the legacy property is known");
    assert_eq!((query.client_list, query.partial, query.legacy), (9, None, Some(2)));

    let screen = X11Screen {
        width: 1920,
        height: 1080,
    };
    let reads = [
        StrutReads {
            partial: None,
            legacy: None,
        },
        StrutReads {
            partial: None,
            legacy: Some(vec![0, 0, 30, 0]),
        },
        StrutReads {
            partial: Some(vec![40, 0, 0, 0, 0, 1079, 0, 0, 0, 0, 0, 0]),
            legacy: None,
        },
    ];
    assert_eq!(
        struts(&reads, screen),
        vec![
            X11Strut::from_legacy([0, 0, 30, 0], screen),
            X11Strut::from_partial([40, 0, 0, 0, 0, 1079, 0, 0, 0, 0, 0, 0]),
        ]
    );
}

#[test]
fn the_mac_sources_are_registered_in_order_and_torn_down_in_reverse() {
    assert!(matches!(
        after_register(Source::Displays, Registered::Yes),
        PumpStep::Register(Source::Stop)
    ));
    assert!(matches!(
        after_register(Source::Stop, Registered::Yes),
        PumpStep::Register(Source::Power)
    ));
    for registered in [Registered::Yes, Registered::No(0)] {
        assert!(matches!(
            after_register(Source::Power, registered),
            PumpStep::ReportReady
        ));
    }
    assert!(matches!(
        after_register(Source::Displays, Registered::No(-1001)),
        PumpStep::Fail(PlatformError::Init(m))
            if m == "CGDisplayRegisterReconfigurationCallback failed: CGError -1001"
    ));
    assert!(matches!(
        after_register(Source::Stop, Registered::No(0)),
        PumpStep::Fail(PlatformError::Init(m)) if m == "CFRunLoopSourceCreate returned null"
    ));
    assert_eq!(
        teardown_order(&[Source::Displays, Source::Stop, Source::Power]),
        vec![Source::Power, Source::Stop, Source::Displays]
    );
}

#[test]
fn power_notifications_may_be_absent_or_half_made() {
    assert_eq!(power_setup(0, true, true), PowerSetup::Unavailable);
    assert_eq!(power_setup(7, false, true), PowerSetup::Unavailable);
    assert_eq!(power_setup(7, true, false), PowerSetup::Undo);
    assert_eq!(power_setup(7, true, true), PowerSetup::Add);
}

#[test]
fn the_spawner_learns_what_the_thread_reported() {
    assert_eq!(after_init(Some(Ok(5))).expect("a handle"), 5);
    assert!(matches!(
        after_init::<u8>(Some(Err(PlatformError::Init("x".to_owned())))),
        Err(PlatformError::Init(m)) if m == "x"
    ));
    assert!(matches!(
        after_init::<u8>(None),
        Err(PlatformError::Init(m)) if m == "event thread exited before initialization"
    ));
}
