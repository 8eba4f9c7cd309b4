use duja_platform::ipc::win_pipe::{
    self, after_client, after_create, after_open, after_peek, after_wait, client_in_same_session,
    connect_instance, peek_available, read_top, ConnectStep, HandlerStep, ListenerStep, Peek,
    ReadStep,
};
use duja_platform::ipc::{IpcTransportError, MAX_HANDLER_THREADS, POLL_INTERVAL};

/// The text of an I/O failure.
fn io_text(error: IpcTransportError) -> String {
    match error {
        IpcTransportError::Io(text) => text,
        other => panic!("not an I/O failure: {other:?}"),
    }
}

#[test]
fn default_pipe_name_is_per_user_and_well_formed() {
    let name = win_pipe::default_pipe_name(Some("S-1-5-21"));
    assert!(name.starts_with(r"\\.\pipe\duja-"), "name = {name}");
    assert_eq!(name, r"\\.\pipe\duja-S-1-5-21");
    assert_eq!(win_pipe::default_pipe_name(None), r"\\.\pipe\duja-anon");
    assert_eq!(
        win_pipe::user_only_descriptor("S-1-5-21"),
        "D:P(A;;GA;;;S-1-5-21)"
    );
}

#[test]
fn a_named_pipe_server_starts_in_order_and_names_its_failures() {
    let mut phase = win_pipe::StartPhase::ReadSid;
    let mut count = 1;
    while let win_pipe::StartStep::Go(next) = win_pipe::after_start(phase, Ok(())) {
        phase = next;
        count += 1;
    }
    assert_eq!(phase, win_pipe::StartPhase::SpawnListener);
    assert_eq!(count, 4 + MAX_HANDLER_THREADS);
    let text = |phase, failure| match win_pipe::after_start(phase, Err(failure)) {
        win_pipe::StartStep::Fail(error) => io_text(error),
        other => panic!("a failure fails the start, got {other:?}"),
    };
    assert_eq!(
        text(
            win_pipe::StartPhase::ReadSid,
            win_pipe::StartFailure::Unknown
        ),
        "could not read the current user SID"
    );
    assert_eq!(
        text(
            win_pipe::StartPhase::BuildDescriptor,
            win_pipe::StartFailure::Unknown
        ),
        "could not build the pipe DACL"
    );
    assert_eq!(
        text(
            win_pipe::StartPhase::CreateFirst,
            win_pipe::StartFailure::Code(5)
        ),
        "could not create the pipe (win32 error 5)"
    );
    assert_eq!(
        text(
            win_pipe::StartPhase::SpawnHandler(0),
            win_pipe::StartFailure::Words("no threads".to_owned())
        ),
        "no threads"
    );
}

#[test]
fn a_named_pipe_read_takes_what_is_there() {
    assert_eq!(read_top(0, true), ReadStep::Return(0));
    assert_eq!(read_top(1, true), ReadStep::Stopping);
    assert_eq!(read_top(1, false), ReadStep::Peek);
    assert_eq!(peek_available(Ok(3)), Peek::Available(3));
    assert_eq!(peek_available(Err(109)), Peek::Disconnected);
    assert_eq!(peek_available(Err(233)), Peek::Disconnected);
    assert_eq!(peek_available(Err(5)), Peek::Failed);
    assert_eq!(
        after_peek(Peek::Available(3), 8, Some(1), 9),
        ReadStep::Read(3)
    );
    assert_eq!(
        after_peek(Peek::Available(9), 8, Some(1), 9),
        ReadStep::Read(8)
    );
    assert_eq!(
        after_peek(Peek::Available(0), 8, Some(10), 9),
        ReadStep::Sleep(POLL_INTERVAL)
    );
    assert_eq!(
        after_peek(Peek::Available(0), 8, Some(9), 9),
        ReadStep::TimedOut
    );
    assert_eq!(
        after_peek(Peek::Disconnected, 8, Some(9), 9),
        ReadStep::Return(0)
    );
    assert_eq!(after_peek(Peek::Failed, 8, None, 9), ReadStep::Fail);
}

#[test]
fn a_named_pipe_listener_and_its_peers() {
    assert_eq!(win_pipe::listener_top(true, true), ListenerStep::CloseAndExit);
    assert_eq!(win_pipe::listener_top(false, true), ListenerStep::WaitForClient);
    assert_eq!(win_pipe::listener_top(false, false), ListenerStep::Create);
    assert_eq!(after_create(true), ListenerStep::WaitForClient);
    assert_eq!(after_create(false), ListenerStep::Sleep(POLL_INTERVAL));
    assert!(connect_instance(None));
    assert!(connect_instance(Some(535)));
    assert!(!connect_instance(Some(5)));
    assert_eq!(after_client(true, false), ListenerStep::HandOn);
    assert_eq!(after_client(true, true), ListenerStep::CloseAndExit);
    assert_eq!(after_client(false, false), ListenerStep::CloseAndLookAgain);
    assert_eq!(after_client(false, true), ListenerStep::CloseAndExit);
    assert_eq!(win_pipe::after_hand_on(true), ListenerStep::LookAgain);
    assert_eq!(win_pipe::after_hand_on(false), ListenerStep::CloseAndExit);
    assert!(client_in_same_session(Some(1), Some(1)));
    assert!(!client_in_same_session(Some(1), Some(2)));
    assert!(!client_in_same_session(None, None));
}

#[test]
fn a_named_pipe_handler_serves_only_its_own_session_and_only_while_running() {
    assert_eq!(win_pipe::after_recv(false, false, true), HandlerStep::Exit);
    assert_eq!(win_pipe::after_recv(true, true, true), HandlerStep::Close);
    assert_eq!(win_pipe::after_recv(true, false, false), HandlerStep::Close);
    assert_eq!(win_pipe::after_recv(true, false, true), HandlerStep::Serve);
}

#[test]
fn a_named_pipe_client_waits_within_its_budget() {
    assert!(matches!(after_open(None, None, 0), ConnectStep::Use));
    assert!(matches!(
        after_open(Some(2), None, 0),
        ConnectStep::Fail(IpcTransportError::NotRunning)
    ));
    assert!(matches!(
        after_open(Some(5), None, 0),
        ConnectStep::Fail(IpcTransportError::Io(m)) if m == "win32 error 5"
    ));
    for deadline in [None, Some(9), Some(10)] {
        assert!(matches!(
            after_open(Some(231), deadline, 10),
            ConnectStep::Fail(IpcTransportError::Busy)
        ));
    }
    assert!(matches!(
        after_open(Some(231), Some(7_500_000), 0),
        ConnectStep::Wait(7)
    ));
    assert!(matches!(
        after_open(Some(231), Some(u64::MAX), 0),
        ConnectStep::Wait(u32::MAX)
    ));
    assert!(matches!(
        after_wait(Some(10), 10),
        Some(IpcTransportError::Timeout)
    ));
    assert!(after_wait(Some(10), 9).is_none());
    assert!(after_wait(None, 9).is_none());
}
