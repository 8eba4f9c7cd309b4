use duja_platform::linux_events::{classify_prepare_for_sleep, classify_uevent, fields};
use duja_platform::PlatformEvent;

fn datagram(header: &str, fields: &[&str]) -> Vec<u8> {
    let mut out = Vec::new();
    out.extend_from_slice(header.as_bytes());
    out.push(0);
    for field in fields {
        out.extend_from_slice(field.as_bytes());
        out.push(0);
    }
    out
}

fn drm_hotplug() -> Vec<u8> {
    datagram(
        "change@/devices/pci0000:00/0000:00:02.0/drm/card0",
        &[
            "ACTION=change",
            "DEVPATH=/devices/pci0000:00/0000:00:02.0/drm/card0",
            "SUBSYSTEM=drm",
            "HOTPLUG=1",
            "CONNECTOR=95",
            "DEVNAME=dri/card0",
            "DEVTYPE=drm_minor",
            "SEQNUM=4821",
        ],
    )
}

#[test]
fn a_drm_hotplug_is_a_display_change() {
    assert_eq!(
        classify_uevent(&drm_hotplug()),
        Some(PlatformEvent::DisplaysChanged)
    );
}

#[test]
fn a_card_appearing_or_going_away_is_also_a_display_change() {
    for action in ["add", "remove"] {
        let raw = datagram(
            "add@/devices/pci0000:00/0000:00:02.0/drm/card1",
            &[&format!("ACTION={action}"), "SUBSYSTEM=drm"],
        );
        assert_eq!(
            classify_uevent(&raw),
            Some(PlatformEvent::DisplaysChanged),
            "drm {action}"
        );
    }
}

#[test]
fn events_from_other_subsystems_are_ignored() {
    for subsystem in ["usb", "block", "net", "power_supply", "input", "hidraw"] {
        let raw = datagram(
            "add@/devices/whatever",
            &["ACTION=add", &format!("SUBSYSTEM={subsystem}")],
        );
        assert_eq!(classify_uevent(&raw), None, "subsystem {subsystem}");
    }
}

#[test]
fn driver_lifecycle_events_on_drm_are_not_topology_changes() {
    for action in ["bind", "unbind", "move", "online", "offline"] {
        let raw = datagram(
            "bind@/devices/pci0000:00/0000:00:02.0/drm/card0",
            &[&format!("ACTION={action}"), "SUBSYSTEM=drm"],
        );
        assert_eq!(classify_uevent(&raw), None, "drm {action}");
    }
}

#[test]
fn malformed_datagrams_are_ignored_rather_than_fatal() {
    assert_eq!(classify_uevent(&[]), None);
    assert_eq!(classify_uevent(&[0]), None);
    assert_eq!(classify_uevent(b"change@/devices/x"), None);
    assert_eq!(classify_uevent(&datagram("change@/devices/x", &[])), None);
    assert_eq!(
        classify_uevent(&datagram("x", &["SUBSYSTEM", "=drm", "ACTION"])),
        None
    );
    let mut raw = datagram("change@/devices/x", &["ACTION=change"]);
    raw.extend_from_slice(&[0xFF, 0xFE, 0x00]);
    raw.extend_from_slice(b"SUBSYSTEM=drm\0");
    assert_eq!(classify_uevent(&raw), Some(PlatformEvent::DisplaysChanged));
}

#[test]
fn both_keys_are_required() {
    assert_eq!(
        classify_uevent(&datagram("change@/x", &["SUBSYSTEM=drm"])),
        None,
        "no ACTION"
    );
    assert_eq!(
        classify_uevent(&datagram("change@/x", &["ACTION=change"])),
        None,
        "no SUBSYSTEM"
    );
}

#[test]
fn field_order_does_not_matter() {
    let raw = datagram(
        "change@/x",
        &[
            "SEQNUM=1",
            "SUBSYSTEM=drm",
            "DEVTYPE=drm_minor",
            "ACTION=change",
        ],
    );
    assert_eq!(classify_uevent(&raw), Some(PlatformEvent::DisplaysChanged));
}

#[test]
fn prepare_for_sleep_true_is_going_down_and_false_is_coming_back() {
    assert_eq!(classify_prepare_for_sleep(true), PlatformEvent::Suspending);
    assert_eq!(classify_prepare_for_sleep(false), PlatformEvent::Resumed);
}

#[test]
fn a_field_is_the_value_of_its_key() {
    let raw = datagram("x", &["ACTION=add", "SUBSYSTEM=drm", "ACTION=remove"]);
    assert_eq!(fields(&raw, b"SUBSYSTEM"), Some(&b"drm"[..]));
    assert_eq!(fields(&raw, b"ACTION"), Some(&b"remove"[..]));
    assert_eq!(fields(&raw, b"DEVNAME"), None);
    let mut broken = datagram("x", &[]);
    broken.extend_from_slice(b"ACTION=\xff\xfe\0");
    assert_eq!(fields(&broken, b"ACTION"), None);
}
