use duja_platform::autostart::win::{
    check, decode_wide, deleted, enabled_from_read, opened, query_read, query_sized, query_string,
    system, wide, wide_bytes, FakeRegistry, RegistryAutostart, RegistryStore, SizeStep,
    ERROR_FILE_NOT_FOUND, ERROR_SUCCESS, RUN_SUBKEY,
};
use duja_platform::autostart::{Autostart, AutostartError, VALUE_NAME};

fn fake_autostart() -> RegistryAutostart<FakeRegistry> {
    RegistryAutostart::new(
        FakeRegistry::default(),
        VALUE_NAME.to_owned(),
        "\"C:\\Duja\\duja.exe\"".to_owned(),
    )
}

#[test]
fn enable_then_query_reports_enabled() {
    let mut a = fake_autostart();
    assert!(!a.is_enabled().expect("query"));
    a.set_enabled(true).expect("enable");
    assert!(a.is_enabled().expect("query"));
    assert_eq!(
        a.store.get(VALUE_NAME).as_deref(),
        Some("\"C:\\Duja\\duja.exe\"")
    );
}

#[test]
fn disable_removes_the_value() {
    let mut a = fake_autostart();
    a.set_enabled(true).expect("enable");
    a.set_enabled(false).expect("disable");
    assert!(!a.is_enabled().expect("query"));
    assert!(a.store.is_empty());
}

#[test]
fn disable_when_absent_is_a_noop_success() {
    let mut a = fake_autostart();
    a.set_enabled(false).expect("disable-absent");
    assert!(!a.is_enabled().expect("query"));
}

#[test]
fn win_enable_is_idempotent() {
    let mut a = fake_autostart();
    a.set_enabled(true).expect("enable");
    a.set_enabled(true).expect("enable-again");
    assert!(a.is_enabled().expect("query"));
}

#[test]
fn decode_wide_trims_nul_terminator() {
    let bytes = [0x48, 0x00, 0x69, 0x00, 0x00, 0x00];
    assert_eq!(decode_wide(&bytes), "Hi");
}

#[test]
fn a_store_keeps_values_apart_and_overwrites() {
    let mut store = FakeRegistry::new();
    store.write("a", "1").expect("write");
    store.write("b", "2").expect("write");
    store.write("a", "3").expect("write");
    assert_eq!(store.read("a").expect("read").as_deref(), Some("3"));
    store.delete("a").expect("delete");
    assert_eq!(store.read("a").expect("read"), None);
    assert_eq!(store.read("b").expect("read").as_deref(), Some("2"));
    store.delete("missing").expect("delete");
    assert!(!store.is_empty());
}

#[test]
fn the_backend_registers_the_quoted_executable() {
    let mut backend = system(
        FakeRegistry::new(),
        Ok("C:\\Program Files\\Duja\\duja.exe".to_owned()),
    )
    .expect("the path is known");
    backend.set_enabled(true).expect("enable");
    assert!(backend.is_enabled().expect("query"));
    assert_eq!(
        backend.0.store.get("Duja").as_deref(),
        Some("\"C:\\Program Files\\Duja\\duja.exe\"")
    );
    assert!(matches!(
        system(FakeRegistry::new(), Err("gone".to_owned())),
        Err(AutostartError::ExePath(m)) if m == "gone"
    ));
    assert!(RUN_SUBKEY.ends_with(r"CurrentVersion\Run"));
}

#[test]
fn an_unreadable_store_is_an_error() {
    assert!(matches!(
        enabled_from_read(Err(AutostartError::Registry("no".to_owned()))),
        Err(AutostartError::Registry(m)) if m == "no"
    ));
    assert!(enabled_from_read(Ok(Some(String::new()))).expect("any value"));
    assert!(!enabled_from_read(Ok(None)).expect("no value"));
}

#[test]
fn return_codes_are_told_apart() {
    assert!(check(ERROR_SUCCESS, "Op").is_ok());
    assert!(matches!(
        check(5, "RegSetValueExW"),
        Err(AutostartError::Registry(m)) if m == "RegSetValueExW failed (code 5)"
    ));
    assert!(opened(ERROR_SUCCESS).expect("there"));
    assert!(!opened(ERROR_FILE_NOT_FOUND).expect("absent"));
    assert!(opened(5).is_err());
    assert!(deleted(ERROR_FILE_NOT_FOUND).is_ok());
    assert!(deleted(ERROR_SUCCESS).is_ok());
    assert!(deleted(5).is_err());
    assert_eq!(
        query_sized(ERROR_FILE_NOT_FOUND, 0).expect("absent"),
        SizeStep::Absent
    );
    assert_eq!(query_sized(0, 0).expect("empty"), SizeStep::Empty);
    assert_eq!(query_sized(0, 6).expect("sized"), SizeStep::Bytes(6));
    assert!(matches!(
        query_sized(5, 6),
        Err(AutostartError::Registry(m)) if m == "RegQueryValueExW(size) failed (code 5)"
    ));
    assert!(matches!(
        query_read(5, Vec::new(), 0),
        Err(AutostartError::Registry(m)) if m == "RegQueryValueExW(read) failed (code 5)"
    ));
}

#[test]
fn a_value_is_queried_in_two_calls() {
    let blob = wide_bytes("Hi");
    assert_eq!(
        query_string(0, 6, 0, blob.clone(), 6).expect("read"),
        Some("Hi".to_owned())
    );
    assert_eq!(
        query_string(0, 6, 0, blob.clone(), 2).expect("cut"),
        Some("H".to_owned())
    );
    assert_eq!(
        query_string(0, 0, 0, Vec::new(), 0).expect("empty"),
        Some(String::new())
    );
    assert_eq!(query_string(2, 0, 0, Vec::new(), 0).expect("absent"), None);
    assert!(query_string(5, 0, 0, Vec::new(), 0).is_err());
    assert!(query_string(0, 6, 5, blob, 6).is_err());
}

#[test]
fn text_survives_the_registry_blob() {
    for text in ["", "Duja", "\u{e9}\u{20ac}", "\u{1f600} x", "\u{10ffff}"] {
        assert_eq!(decode_wide(&wide_bytes(text)), text);
        let expected: Vec<u16> = text.encode_utf16().chain(std::iter::once(0)).collect();
        assert_eq!(wide(text), expected);
    }
    assert_eq!(decode_wide(&[0x00, 0xd8, 0x41, 0x00, 0x00, 0xdc]), "\u{fffd}A\u{fffd}");
    assert_eq!(decode_wide(&[0x41, 0x00, 0x42]), "A");
}

struct RefusingRegistry;

impl RegistryStore for RefusingRegistry {
    fn read(&self, name: &str) -> Result<Option<String>, AutostartError> {
        Err(AutostartError::Registry(format!("read {name}")))
    }

    fn write(&mut self, name: &str, data: &str) -> Result<(), AutostartError> {
        Err(AutostartError::Registry(format!("write {name} {data}")))
    }

    fn delete(&mut self, name: &str) -> Result<(), AutostartError> {
        Err(AutostartError::Registry(format!("delete {name}")))
    }
}

#[test]
fn what_the_store_says_is_passed_on() {
    let mut backend = system(RefusingRegistry, Ok("C:\\duja.exe".to_owned())).expect("backend");
    let said = |error: AutostartError| match error {
        AutostartError::Registry(what) => what,
        other => panic!("{other:?}"),
    };
    assert_eq!(said(backend.is_enabled().unwrap_err()), "read Duja");
    assert_eq!(
        said(backend.set_enabled(true).unwrap_err()),
        "write Duja \"C:\\duja.exe\""
    );
    assert_eq!(said(backend.set_enabled(false).unwrap_err()), "delete Duja");
}

#[test]
fn bytes_behind_the_terminator_are_not_read() {
    let mut bytes = wide_bytes("C:\\d\u{1f600}");
    bytes.extend_from_slice(&[0x41, 0, 0x42]);
    assert_eq!(decode_wide(&bytes), "C:\\d\u{1f600}");
}
