use duja_platform::mac_events::{
    map_display_flags, map_power_message, power_message_needs_ack, power_step, PowerStep,
    CG_DISPLAY_ADD_FLAG, CG_DISPLAY_BEGIN_CONFIGURATION_FLAG,
    CG_DISPLAY_DESKTOP_SHAPE_CHANGED_FLAG, CG_DISPLAY_DISABLED_FLAG, CG_DISPLAY_ENABLED_FLAG,
    CG_DISPLAY_MIRROR_FLAG, CG_DISPLAY_MOVED_FLAG, CG_DISPLAY_REMOVE_FLAG,
    CG_DISPLAY_SET_MAIN_FLAG, CG_DISPLAY_SET_MODE_FLAG, CG_DISPLAY_UNMIRROR_FLAG,
    IO_MESSAGE_CAN_SYSTEM_SLEEP, IO_MESSAGE_SYSTEM_HAS_POWERED_ON, IO_MESSAGE_SYSTEM_WILL_SLEEP,
};
use duja_platform::PlatformEvent;

#[test]
fn begin_configuration_alone_maps_to_nothing() {
    assert_eq!(map_display_flags(CG_DISPLAY_BEGIN_CONFIGURATION_FLAG), None);
}

#[test]
fn empty_flags_map_to_nothing() {
    assert_eq!(map_display_flags(0), None);
}

#[test]
fn add_and_remove_map_to_displays_changed() {
    assert_eq!(
        map_display_flags(CG_DISPLAY_ADD_FLAG),
        Some(PlatformEvent::DisplaysChanged)
    );
    assert_eq!(
        map_display_flags(CG_DISPLAY_REMOVE_FLAG),
        Some(PlatformEvent::DisplaysChanged)
    );
}

#[test]
fn mode_and_geometry_changes_map_to_displays_changed() {
    for flag in [
        CG_DISPLAY_MOVED_FLAG,
        CG_DISPLAY_SET_MAIN_FLAG,
        CG_DISPLAY_SET_MODE_FLAG,
        CG_DISPLAY_ENABLED_FLAG,
        CG_DISPLAY_DISABLED_FLAG,
        CG_DISPLAY_MIRROR_FLAG,
        CG_DISPLAY_UNMIRROR_FLAG,
        CG_DISPLAY_DESKTOP_SHAPE_CHANGED_FLAG,
    ] {
        assert_eq!(
            map_display_flags(flag),
            Some(PlatformEvent::DisplaysChanged),
            "flag {flag:#x} should emit DisplaysChanged"
        );
    }
}

#[test]
fn begin_plus_real_change_still_emits() {
    let flags = CG_DISPLAY_BEGIN_CONFIGURATION_FLAG | CG_DISPLAY_ADD_FLAG;
    assert_eq!(
        map_display_flags(flags),
        Some(PlatformEvent::DisplaysChanged)
    );
}

#[test]
fn will_sleep_maps_to_suspending() {
    assert_eq!(
        map_power_message(IO_MESSAGE_SYSTEM_WILL_SLEEP),
        Some(PlatformEvent::Suspending)
    );
}

#[test]
fn powered_on_maps_to_resumed() {
    assert_eq!(
        map_power_message(IO_MESSAGE_SYSTEM_HAS_POWERED_ON),
        Some(PlatformEvent::Resumed)
    );
}

#[test]
fn can_sleep_query_emits_nothing_but_needs_ack() {
    assert_eq!(map_power_message(IO_MESSAGE_CAN_SYSTEM_SLEEP), None);
    assert!(power_message_needs_ack(IO_MESSAGE_CAN_SYSTEM_SLEEP));
}

#[test]
fn will_sleep_needs_ack_wake_does_not() {
    assert!(power_message_needs_ack(IO_MESSAGE_SYSTEM_WILL_SLEEP));
    assert!(!power_message_needs_ack(IO_MESSAGE_SYSTEM_HAS_POWERED_ON));
    assert!(!power_message_needs_ack(IO_MESSAGE_CAN_SYSTEM_SLEEP + 1));
}

#[test]
fn unknown_power_message_is_ignored() {
    assert_eq!(map_power_message(0), None);
    assert!(!power_message_needs_ack(0));
}
