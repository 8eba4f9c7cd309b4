use duja_platform::autostart::{
    clone_error, run_command, system, Autostart, AutostartError, FakeAutostart,
};

#[test]
fn run_command_quotes_the_path() {
    let cmd = run_command(r"C:\Program Files\Duja\duja.exe");
    assert_eq!(cmd, "\"C:\\Program Files\\Duja\\duja.exe\"");
}

#[test]
fn run_command_strips_stray_quotes() {
    let cmd = run_command("C:\\a\"b\\duja.exe");
    assert_eq!(cmd, "\"C:\\ab\\duja.exe\"");
    assert_eq!(cmd.matches('"').count(), 2);
}

#[test]
fn fake_round_trips_enabled_state() {
    let mut fake = FakeAutostart::new();
    assert!(!fake.is_enabled().expect("query"));
    fake.set_enabled(true).expect("enable");
    assert!(fake.is_enabled().expect("query"));
    fake.set_enabled(false).expect("disable");
    assert!(!fake.is_enabled().expect("query"));
}

#[test]
fn fake_with_enabled_seeds_state() {
    assert!(
        FakeAutostart::with_enabled(true)
            .is_enabled()
            .expect("query")
    );
}

#[test]
fn failing_fake_errors_on_every_op() {
    let mut fake = FakeAutostart::failing();
    assert!(matches!(
        fake.is_enabled(),
        Err(AutostartError::Registry(_))
    ));
    assert!(matches!(
        fake.set_enabled(true),
        Err(AutostartError::Registry(_))
    ));
}

#[test]
fn a_platform_without_a_backend_reports_unsupported() {
    let mut stub = system().expect("the stub is always there");
    assert!(matches!(
        stub.is_enabled(),
        Err(AutostartError::Unsupported)
    ));
    assert!(matches!(
        stub.set_enabled(true),
        Err(AutostartError::Unsupported)
    ));
}

#[test]
fn a_default_fake_is_disabled_and_works() {
    let mut fake = FakeAutostart::default();
    assert!(!fake.is_enabled().expect("query"));
    fake.set_enabled(true).expect("enable");
    assert!(fake.is_enabled().expect("query"));
}

#[test]
fn errors_are_worded_and_reproduced() {
    let cases = [
        (
            AutostartError::Unsupported,
            "autostart is not supported on this platform",
        ),
        (
            AutostartError::ExePath("gone".to_owned()),
            "could not resolve the current executable path: gone",
        ),
        (
            AutostartError::Io("full".to_owned()),
            "file operation failed: full",
        ),
        (
            AutostartError::Registry("denied".to_owned()),
            "registry operation failed: denied",
        ),
    ];
    for (error, message) in cases {
        assert_eq!(error.to_string(), message);
        assert_eq!(clone_error(&error).to_string(), message);
    }
}
