use duja_platform::ipc::unix_bind::{
    after_bind, after_flock, after_inspect, after_lock, after_prepare, after_probe,
    after_probe_connect, after_probe_connect_with, after_probe_poll, after_socket_error,
    after_socket_error_with, after_unlink, bind_lock_path, classify, classify_with,
    lock_not_opened, private_dir, probe_liveness, settle, unlink_if_ours, unlink_target_is_ours,
    while_in_flight, Attempt, BindPhase, BindStep, Binding, Connecting, DirFacts, DirVerdict, ErrnoCodes, Inspection,
    Liveness, LockStep, Locking, ProbeStep, SocketIdentity, LOCK_WAIT, PROBE_BUDGET,
};
use duja_platform::ipc::unix_server::{
    after_accept, after_hand_on, after_recv, after_start, handler_name, listener_top,
    serve_connection, start, stop_and_join, Accepted, HandlerStep, ListenerStep, ServeStep,
    ShutdownStep, StartPhase, StartStep, LISTENER_NAME,
};
use duja_platform::ipc::unix_socket::{
    after_connect, after_perform, after_poll, default_pipe_name, join_text, linux_socket_path,
    macos_socket_path, peer_allowed, poll_millis, poll_ready, slice_until, tmp_fallback,
    transfer_deadline, transfer_step, ConnectStep, Connected, Performed, Readiness, SocketPolicy,
    StreamError, Transfer, TransferStep, WAIT_SLICE, WRITE_TIMEOUT,
};
use duja_platform::ipc::{
    deadline_after, noop, past, read_deadline, IpcTransportError, Slots, MAX_CONNECTIONS,
    MAX_HANDLER_THREADS, POLL_INTERVAL, READ_TIMEOUT,
};
use rustix::net::{AddressFamily, SocketAddrUnix, SocketFlags, SocketType};

const ALL_ATTEMPTS: [Attempt; 6] = [
    Attempt::Connected,
    Attempt::BacklogFull,
    Attempt::InFlight,
    Attempt::Refused,
    Attempt::Vanished,
    Attempt::Undecidable,
];

/// The text of an I/O failure.
fn io_text(error: IpcTransportError) -> String {
    match error {
        IpcTransportError::Io(text) => text,
        other => panic!("not an I/O failure: {other:?}"),
    }
}

#[test]
fn default_socket_path_is_per_user_and_well_formed() {
    for policy in [SocketPolicy::MacOs, SocketPolicy::Runtime] {
        for dir in [None, Some("/run/user/1000")] {
            let name = default_pipe_name(policy, dir, 1000);
            assert!(name.contains("duja"), "name = {name}");
            assert!(name.ends_with("ctl.sock"), "name = {name}");
        }
    }
}

#[test]
fn peer_allowed_only_for_matching_uid() {
    assert!(peer_allowed(Some(1000), 1000));
    assert!(!peer_allowed(Some(0), 1000), "root peer must be refused");
    assert!(!peer_allowed(Some(1001), 1000), "other user refused");
    assert!(!peer_allowed(None, 1000), "unreadable creds refused");
}

#[test]
fn tmp_fallback_is_per_uid_and_dedicated() {
    let path = tmp_fallback(1000);
    assert_eq!(path, "/tmp/duja-1000/ctl.sock");
    assert_eq!(path.strip_suffix("/ctl.sock"), Some("/tmp/duja-1000"));
}

#[test]
fn macos_path_uses_application_support_then_tmp() {
    let with_home = macos_socket_path(Some("/Users/alice"), 501);
    assert_eq!(
        with_home,
        "/Users/alice/Library/Application Support/duja/ctl.sock"
    );
    assert_eq!(macos_socket_path(None, 501), "/tmp/duja-501/ctl.sock");
}

#[test]
fn linux_path_uses_xdg_runtime_then_tmp() {
    let with_xdg = linux_socket_path(Some("/run/user/1000"), 1000);
    assert_eq!(with_xdg, "/run/user/1000/duja/ctl.sock");
    assert_eq!(linux_socket_path(None, 1000), "/tmp/duja-1000/ctl.sock");
}

#[test]
fn a_connect_errno_classifies_by_what_it_proves() {
    assert_eq!(classify(libc::ECONNREFUSED), Attempt::Refused);
    assert_eq!(classify(libc::EAGAIN), Attempt::BacklogFull);
    assert_eq!(classify(libc::EINPROGRESS), Attempt::InFlight);
    assert_eq!(classify(libc::EALREADY), Attempt::InFlight);
    assert_eq!(classify(libc::EINTR), Attempt::InFlight);
    assert_eq!(classify(libc::ENOENT), Attempt::Vanished);
    assert_eq!(classify(libc::EACCES), Attempt::Undecidable);
    assert_eq!(classify(libc::ENOTSOCK), Attempt::Undecidable);
    assert_eq!(classify(0), Attempt::Undecidable);
}

#[test]
fn some_error_numbers_say_the_same_everywhere() {
    assert_eq!(classify(2), Attempt::Vanished);
    assert_eq!(classify(4), Attempt::InFlight);
    assert_ne!(classify(11), Attempt::Refused);
    assert_ne!(classify(35), Attempt::Refused);
    assert_eq!(
        after_probe_connect(Connecting::Error(2)),
        ProbeStep::Over(Attempt::Vanished)
    );
    assert_eq!(after_probe_connect(Connecting::Error(4)), ProbeStep::LookAgain);
    assert_eq!(
        after_probe_connect(Connecting::Error(libc::ECONNREFUSED)),
        ProbeStep::Over(Attempt::Refused)
    );
    assert_eq!(
        after_socket_error(Connecting::Error(4)),
        ProbeStep::Over(Attempt::InFlight)
    );
    assert_eq!(
        after_socket_error(Connecting::Error(libc::EAGAIN)),
        ProbeStep::Over(Attempt::BacklogFull)
    );
}

#[test]
fn nothing_but_a_refusal_authorises_an_unlink() {
    for attempt in ALL_ATTEMPTS {
        if attempt == Attempt::Refused {
            continue;
        }
        assert_ne!(
            settle(attempt),
            Some(Liveness::Stale),
            "{attempt:?} authorised an unlink"
        );
    }
    assert_eq!(settle(Attempt::Refused), Some(Liveness::Stale));
}

#[test]
fn a_full_backlog_settles_as_live_without_waiting() {
    assert_eq!(settle(Attempt::BacklogFull), Some(Liveness::Live));
    assert_eq!(settle(Attempt::Connected), Some(Liveness::Live));
    assert_eq!(settle(Attempt::InFlight), None);
}

#[test]
fn the_probe_budget_is_small_against_the_bind_lock() {
    assert!(
        PROBE_BUDGET.saturating_mul(4) < LOCK_WAIT,
        "PROBE_BUDGET {PROBE_BUDGET:?} is not comfortably inside LOCK_WAIT {LOCK_WAIT:?}"
    );
}

#[test]
fn a_live_server_with_a_full_backlog_is_not_unlinked() {
    let socket = || {
        rustix::net::socket_with(
            AddressFamily::UNIX,
            SocketType::STREAM,
            SocketFlags::NONBLOCK,
            None,
        )
        .expect("a unix socket must be creatable")
    };
    let name = format!("duja-backlog-{:p}", &MAX_CONNECTIONS);
    let addr = SocketAddrUnix::new_abstract_name(name.as_bytes()).expect("the name fits");
    let listener = socket();
    rustix::net::bind(&listener, &addr).expect("the listener must bind");
    rustix::net::listen(&listener, 1).expect("the listener must listen");

    let mut queued = Vec::new();
    let mut refusal = None;
    for _ in 0..64_u32 {
        let client = socket();
        match rustix::net::connect(&client, &addr) {
            Ok(()) => queued.push(client),
            Err(errno) => {
                refusal = Some(errno.raw_os_error());
                break;
            }
        }
    }
    assert_eq!(refusal, Some(libc::EAGAIN), "the backlog did not fill");

    let raw = refusal.expect("a refusal");
    assert_eq!(
        after_probe_connect(Connecting::Error(raw)),
        ProbeStep::Over(Attempt::BacklogFull)
    );
    let step = after_probe(probe_liveness(Ok(Attempt::BacklogFull)));
    assert!(matches!(
        step,
        BindStep::Fail(IpcTransportError::Io(m))
            if m == "another duja IPC server is already listening on this socket"
    ));
}

#[test]
fn a_symlink_at_the_endpoint_is_not_followed_and_not_unlinked() {
    let step = after_probe(probe_liveness(Ok(Attempt::Refused)));
    assert!(matches!(step, BindStep::Go(BindPhase::Inspect)));
    let inspected = after_inspect(
        "/d/ctl.sock",
        Inspection::Found {
            is_socket: false,
            uid: 1000,
        },
        1000,
    );
    match inspected {
        BindStep::Fail(error) => assert!(io_text(error).contains("is not a socket")),
        other => panic!("expected the socket-type guard to refuse, got {other:?}"),
    }
}

#[test]
fn a_refusal_from_something_that_is_not_a_socket_is_not_believed() {
    let error = unlink_target_is_ours(
        "/d/ctl.sock",
        Inspection::Found {
            is_socket: false,
            uid: 7,
        },
        7,
    )
    .expect_err("a file is no socket");
    assert_eq!(
        io_text(error),
        "/d/ctl.sock exists and is not a socket; refusing to unlink it - remove it by hand if it \
         is left over"
    );
}

#[test]
fn slice_until_caps_and_expires() {
    let now = 1_000_000_000_000;
    assert_eq!(slice_until(None, now), Ok(WAIT_SLICE));
    let far = now.checked_add(30_000_000_000);
    assert_eq!(slice_until(far, now), Ok(WAIT_SLICE));
    let past = now.checked_sub(1_000_000_000);
    assert_eq!(slice_until(past, now), Err(()));
    assert_eq!(slice_until(Some(now), now), Err(()));
    assert_eq!(slice_until(Some(now + 7), now), Ok(7));
}

#[test]
fn errors_say_what_a_client_should_know() {
    let cases = [
        (
            IpcTransportError::NotRunning,
            "the Duja IPC server is not running",
        ),
        (
            IpcTransportError::Busy,
            "the Duja IPC server is busy: all 4 instances are in use",
        ),
        (
            IpcTransportError::Timeout,
            "timed out connecting to the Duja IPC server",
        ),
        (
            IpcTransportError::Forbidden,
            "the IPC peer failed the session identity check",
        ),
        (
            IpcTransportError::Protocol("bad".to_owned()),
            "ipc protocol error: bad",
        ),
        (
            IpcTransportError::Io("no".to_owned()),
            "ipc transport error: no",
        ),
        (
            IpcTransportError::Unsupported,
            "local IPC is not supported on this platform",
        ),
    ];
    for (error, message) in cases {
        assert_eq!(error.to_string(), message);
    }
}

#[test]
fn the_placeholder_transport_connects_nowhere() {
    assert_eq!(noop::default_pipe_name(), "duja-ipc-unsupported");
    let server = noop::PipeServer::serve(|| ()).expect("it starts nothing");
    server.shutdown();
    assert!(noop::PipeServer::serve_named("x", || ()).is_ok());
    assert!(matches!(
        noop::PipeClient::connect(5),
        Err(IpcTransportError::NotRunning)
    ));
    assert!(matches!(
        noop::PipeClient::connect_named("x", 5),
        Err(IpcTransportError::NotRunning)
    ));
}

#[test]
fn an_armed_deadline_is_shared_by_every_read() {
    let armed = deadline_after(1_000, READ_TIMEOUT);
    assert_eq!(armed, Some(5_000_001_000));
    for now in [1_000, 2_000_000_000, 4_999_999_999] {
        assert_eq!(read_deadline(armed, now), armed);
        assert_eq!(transfer_deadline(Transfer::Read, armed, now), armed);
    }
    assert!(past(armed, 5_000_001_000));
    assert!(!past(armed, 5_000_000_999));
    assert!(!past(None, u64::MAX));
    assert_eq!(read_deadline(None, 7), Some(7 + READ_TIMEOUT));
    assert_eq!(deadline_after(u64::MAX, 1), None);
    assert_eq!(
        transfer_deadline(Transfer::Write, armed, 7),
        Some(7 + WRITE_TIMEOUT)
    );
}

#[test]
fn a_transfer_stops_times_out_or_waits() {
    let deadline = Some(100);
    assert_eq!(
        transfer_step(Transfer::Read, 0, true, deadline, 500),
        TransferStep::Return(0)
    );
    assert_eq!(
        transfer_step(Transfer::Read, 1, true, deadline, 500),
        TransferStep::Stop(StreamError::Stopping)
    );
    assert_eq!(
        transfer_step(Transfer::Read, 1, false, deadline, 100),
        TransferStep::Stop(StreamError::ReadTimeout)
    );
    assert_eq!(
        transfer_step(Transfer::Write, 1, false, deadline, 100),
        TransferStep::Stop(StreamError::WriteTimeout)
    );
    assert_eq!(
        transfer_step(Transfer::Write, 1, false, deadline, 40),
        TransferStep::Poll(60)
    );
    assert_eq!(StreamError::Stopping.message(), "ipc server stopping");
    assert_eq!(StreamError::ReadTimeout.message(), "ipc read timeout");
    assert_eq!(StreamError::WriteTimeout.message(), "ipc write timeout");

    assert_eq!(poll_ready(1, false), Readiness::Ready);
    assert_eq!(poll_ready(0, false), Readiness::NotYet);
    assert_eq!(poll_ready(-1, true), Readiness::NotYet);
    assert_eq!(poll_ready(-1, false), Readiness::Failed);
    assert_eq!(after_poll(Readiness::Ready), TransferStep::Perform);
    assert_eq!(after_poll(Readiness::NotYet), TransferStep::LookAgain);
    assert_eq!(after_poll(Readiness::Failed), TransferStep::Fail);
    assert_eq!(after_perform(Performed::Moved(3)), TransferStep::Return(3));
    assert_eq!(after_perform(Performed::WouldBlock), TransferStep::LookAgain);
    assert_eq!(
        after_perform(Performed::Interrupted),
        TransferStep::LookAgain
    );
    assert_eq!(after_perform(Performed::Failed), TransferStep::Fail);
}

#[test]
fn a_poll_timeout_is_never_zero() {
    assert_eq!(poll_millis(0), 1);
    assert_eq!(poll_millis(999_999), 1);
    assert_eq!(poll_millis(WAIT_SLICE), 50);
    assert_eq!(poll_millis(u64::MAX), i32::MAX);
}

#[test]
fn a_client_retries_a_full_backlog_until_its_deadline() {
    let deadline = Some(10);
    assert!(matches!(
        after_connect(Connected::Yes, deadline, 99),
        ConnectStep::Use
    ));
    for none in [Connected::NotFound, Connected::Refused] {
        assert!(matches!(
            after_connect(none, deadline, 0),
            ConnectStep::Fail(IpcTransportError::NotRunning)
        ));
    }
    for busy in [Connected::WouldBlock, Connected::Interrupted] {
        assert!(matches!(
            after_connect(busy, deadline, 9),
            ConnectStep::Retry(POLL_INTERVAL)
        ));
    }
    assert!(matches!(
        after_connect(Connected::WouldBlock, deadline, 10),
        ConnectStep::Fail(IpcTransportError::Busy)
    ));
    assert!(matches!(
        after_connect(Connected::WouldBlock, None, u64::MAX),
        ConnectStep::Retry(_)
    ));
    assert!(matches!(
        after_connect(Connected::Failed("x".to_owned()), deadline, 0),
        ConnectStep::Fail(IpcTransportError::Io(m)) if m == "x"
    ));
}

#[test]
fn paths_join_in_text_too() {
    assert_eq!(join_text("/run", "a/b"), "/run/a/b");
    assert_eq!(join_text("/run/", "a"), "/run/a");
    assert_eq!(join_text("", "a"), "a");
}

#[test]
fn the_bind_sequence_unlinks_only_our_own_stale_socket() {
    assert!(matches!(
        after_prepare(Ok(())),
        BindStep::Go(BindPhase::Lock)
    ));
    assert!(matches!(
        after_prepare(Err("denied".to_owned())),
        BindStep::Fail(IpcTransportError::Io(m)) if m == "denied"
    ));
    assert!(matches!(after_lock(Ok(())), BindStep::Go(BindPhase::Bind)));
    assert!(matches!(
        after_lock(Err(IpcTransportError::Timeout)),
        BindStep::Fail(IpcTransportError::Timeout)
    ));
    assert!(matches!(
        after_bind(Binding::Bound, false),
        BindStep::Bound
    ));
    assert!(matches!(
        after_bind(Binding::InUse("in use".to_owned()), false),
        BindStep::Go(BindPhase::Probe)
    ));
    assert!(matches!(
        after_bind(Binding::InUse("in use".to_owned()), true),
        BindStep::Fail(IpcTransportError::Io(m)) if m == "in use"
    ));
    assert!(matches!(
        after_bind(Binding::Failed("x".to_owned()), false),
        BindStep::Fail(IpcTransportError::Io(m)) if m == "x"
    ));
    assert!(matches!(
        after_probe(Liveness::Vanished),
        BindStep::Go(BindPhase::Rebind)
    ));
    match after_probe(Liveness::Undecidable) {
        BindStep::Fail(error) => assert_eq!(
            io_text(error),
            "could not determine whether the socket at this path is live; refusing to unlink it"
        ),
        other => panic!("undecidable must refuse, got {other:?}"),
    }
    let ours = Inspection::Found {
        is_socket: true,
        uid: 1000,
    };
    assert!(matches!(
        after_inspect("/s", ours, 1000),
        BindStep::Go(BindPhase::Unlink)
    ));
    let foreign = Inspection::Found {
        is_socket: true,
        uid: 0,
    };
    match after_inspect("/s", foreign, 1000) {
        BindStep::Fail(error) => assert_eq!(
            io_text(error),
            "/s is owned by another user; refusing to unlink it"
        ),
        other => panic!("a foreign socket must be refused, got {other:?}"),
    }
    match after_inspect("/s", Inspection::Failed("gone".to_owned()), 1000) {
        BindStep::Fail(error) => assert_eq!(io_text(error), "cannot inspect /s: gone"),
        other => panic!("an unreadable path must be refused, got {other:?}"),
    }
    assert!(matches!(
        after_unlink(Ok(())),
        BindStep::Go(BindPhase::Rebind)
    ));
    assert!(matches!(
        after_unlink(Err("busy".to_owned())),
        BindStep::Fail(IpcTransportError::Io(m)) if m == "busy"
    ));
}

#[test]
fn a_probe_in_flight_waits_on_the_same_socket() {
    let codes = ErrnoCodes {
        refused: 1,
        again: 2,
        in_progress: 3,
        already: 4,
        interrupted: 5,
        no_entry: 6,
    };
    assert_eq!(classify_with(6, codes), Attempt::Vanished);
    assert_eq!(classify_with(7, codes), Attempt::Undecidable);
    assert_eq!(
        after_probe_connect_with(Connecting::Error(3), codes),
        ProbeStep::LookAgain
    );
    assert_eq!(
        after_probe_connect_with(Connecting::Error(1), codes),
        ProbeStep::Over(Attempt::Refused)
    );
    assert_eq!(
        after_probe_connect(Connecting::Connected),
        ProbeStep::Over(Attempt::Connected)
    );
    assert_eq!(
        after_probe_connect(Connecting::Unable),
        ProbeStep::Failed
    );
    assert_eq!(
        after_probe_connect(Connecting::Error(libc::EINPROGRESS)),
        ProbeStep::LookAgain
    );
    assert_eq!(while_in_flight(Some(10), 4), ProbeStep::Poll(6));
    assert_eq!(
        while_in_flight(Some(10), 10),
        ProbeStep::Over(Attempt::InFlight)
    );
    assert_eq!(after_probe_poll(1, false), ProbeStep::AskSocket);
    assert_eq!(after_probe_poll(-1, true), ProbeStep::LookAgain);
    assert_eq!(after_probe_poll(-1, false), ProbeStep::Failed);
    assert_eq!(
        after_socket_error_with(Connecting::Error(1), codes),
        ProbeStep::Over(Attempt::Refused)
    );
    assert_eq!(
        after_socket_error(Connecting::Error(libc::ECONNREFUSED)),
        ProbeStep::Over(Attempt::Refused)
    );
    assert_eq!(probe_liveness(Ok(Attempt::InFlight)), Liveness::Live);
    assert_eq!(probe_liveness(Err(())), Liveness::Undecidable);
}

#[test]
fn the_bind_lock_is_waited_for_and_given_up() {
    assert_eq!(bind_lock_path("/d/ctl.sock"), "/d/ctl.sock.lock");
    assert_eq!(
        io_text(lock_not_opened("/d/l", "denied")),
        "cannot open /d/l: denied"
    );
    assert!(matches!(
        after_flock(Locking::Locked, "/d/l", None, 0),
        LockStep::Acquired
    ));
    assert!(matches!(
        after_flock(Locking::Held, "/d/l", Some(10), 9),
        LockStep::Retry(POLL_INTERVAL)
    ));
    for deadline in [None, Some(10)] {
        match after_flock(Locking::Held, "/d/l", deadline, 10) {
            LockStep::Fail(error) => assert_eq!(
                io_text(error),
                "/d/l was held by another process for longer than 5s"
            ),
            other => panic!("the lock is given up, got {other:?}"),
        }
    }
    match after_flock(Locking::Failed("x".to_owned()), "/d/l", Some(10), 0) {
        LockStep::Fail(error) => assert_eq!(io_text(error), "cannot lock /d/l: x"),
        other => panic!("a failure is reported, got {other:?}"),
    }
}

#[test]
fn a_successors_socket_is_left_alone_at_shutdown() {
    let ours = SocketIdentity { dev: 1, ino: 2 };
    let theirs = SocketIdentity { dev: 1, ino: 3 };
    assert!(unlink_if_ours(Some(ours), true, Some(ours)));
    assert!(!unlink_if_ours(Some(ours), true, Some(theirs)));
    assert!(!unlink_if_ours(Some(ours), false, Some(ours)));
    assert!(!unlink_if_ours(Some(ours), true, None));
    assert!(!unlink_if_ours(None, true, Some(ours)));
}

#[test]
fn a_failed_start_joins_the_threads_that_run() {
    let mut phase = start();
    let mut seen = vec![phase];
    loop {
        match after_start(phase, Ok(())) {
            StartStep::Go(next) => {
                phase = next;
                seen.push(next);
            }
            StartStep::Running => break,
            StartStep::Unwind(u) => panic!("nothing failed, got {u:?}"),
        }
    }
    assert_eq!(
        seen,
        vec![
            StartPhase::SetMode,
            StartPhase::SetNonblocking,
            StartPhase::SpawnHandler(0),
            StartPhase::SpawnHandler(1),
            StartPhase::SpawnListener,
        ]
    );
    let joins: Vec<(bool, usize)> = seen
        .iter()
        .map(|p| match after_start(*p, Err("no".to_owned())) {
            StartStep::Unwind(u) => {
                assert_eq!(io_text(u.error), "no");
                assert!(u.unlink, "the socket of a failed start goes too");
                (u.stop, u.join)
            }
            other => panic!("a failure unwinds, got {other:?}"),
        })
        .collect();
    assert_eq!(
        joins,
        vec![
            (false, 0),
            (false, 0),
            (true, 0),
            (true, 1),
            (true, MAX_HANDLER_THREADS),
        ]
    );
    assert_eq!(handler_name(1), "duja-ipc-handler-1");
    assert_eq!(LISTENER_NAME, "duja-ipc-listener");
}

#[test]
fn the_listener_holds_back_at_the_cap() {
    let mut slots = Slots::new();
    for _ in 0..MAX_CONNECTIONS {
        assert!(slots.has_room());
        assert!(slots.take());
    }
    assert!(!slots.has_room());
    assert!(!slots.take());
    slots.release();
    assert!(slots.has_room());
    let mut empty = Slots::new();
    empty.release();
    assert!(empty.has_room());

    assert_eq!(listener_top(true, true), ListenerStep::Exit);
    assert_eq!(
        listener_top(false, false),
        ListenerStep::Sleep(POLL_INTERVAL)
    );
    assert_eq!(listener_top(false, true), ListenerStep::Accept);
    assert_eq!(
        after_accept(Accepted::Connection, false),
        ListenerStep::HandOn
    );
    assert_eq!(after_accept(Accepted::Connection, true), ListenerStep::Exit);
    assert_eq!(
        after_accept(Accepted::WouldBlock, false),
        ListenerStep::Sleep(WAIT_SLICE)
    );
    assert_eq!(
        after_accept(Accepted::Interrupted, false),
        ListenerStep::LookAgain
    );
    assert_eq!(
        after_accept(Accepted::Failed, false),
        ListenerStep::Sleep(POLL_INTERVAL)
    );
    assert_eq!(after_hand_on(true), ListenerStep::LookAgain);
    assert_eq!(after_hand_on(false), ListenerStep::ReleaseAndExit);
}

#[test]
fn a_handler_serves_only_its_own_user_and_only_while_running() {
    assert_eq!(after_recv(false, false), HandlerStep::Exit);
    assert_eq!(after_recv(true, true), HandlerStep::Drop);
    assert_eq!(after_recv(true, false), HandlerStep::Serve);
    assert_eq!(
        serve_connection(Some(7), 7, 10),
        ServeStep::Exchange(Some(10 + READ_TIMEOUT))
    );
    assert_eq!(serve_connection(Some(8), 7, 10), ServeStep::Refuse);
    assert_eq!(serve_connection(None, 7, 10), ServeStep::Refuse);
    assert_eq!(stop_and_join(false), ShutdownStep::JoinAndUnlink);
    assert_eq!(stop_and_join(true), ShutdownStep::Nothing);
}

#[test]
fn only_a_private_directory_of_ours_holds_the_socket() {
    let ours = DirFacts {
        is_dir: true,
        uid: 1000,
        mode: 0o700,
    };
    assert_eq!(private_dir(ours, 1000), DirVerdict::Use);
    let readable = DirFacts {
        mode: 0o755,
        ..ours
    };
    assert_eq!(private_dir(readable, 1000), DirVerdict::Tighten);
    for mode in [0o720, 0o702, 0o777] {
        assert_eq!(
            private_dir(DirFacts { mode, ..ours }, 1000),
            DirVerdict::Refuse
        );
    }
    assert_eq!(private_dir(ours, 0), DirVerdict::Refuse);
    let link = DirFacts {
        is_dir: false,
        ..ours
    };
    assert_eq!(private_dir(link, 1000), DirVerdict::Refuse);
}
