use duja_platform::autostart::mac_location::{is_on_a_mounted_volume, mounted_volume_message};

#[test]
fn an_app_running_from_a_mounted_disk_image_is_refused() {
    assert!(is_on_a_mounted_volume("/Volumes/Duja 0.2.0/Duja.app/Contents/MacOS/duja"));
}

#[test]
fn an_app_on_an_external_drive_is_refused_too() {
    assert!(is_on_a_mounted_volume("/Volumes/Backup SSD/Apps/Duja.app/Contents/MacOS/duja"));
}

#[test]
fn the_installed_and_development_locations_are_allowed() {
    for path in [
        "/Applications/Duja.app/Contents/MacOS/duja",
        "/Users/someone/Applications/Duja.app/Contents/MacOS/duja",
        "/Users/someone/duja/target/release/duja",
        "/System/Volumes/Data/Applications/Duja.app/Contents/MacOS/duja",
        "/usr/local/bin/duja",
    ] {
        assert!(
            !is_on_a_mounted_volume(path),
            "{path} should be allowed"
        );
    }
}

#[test]
fn a_path_that_only_mentions_volumes_is_allowed() {
    assert!(!is_on_a_mounted_volume("/Users/someone/Volumes/duja"));
}

#[test]
fn the_message_names_the_path_and_the_remedy() {
    let message = mounted_volume_message("/Volumes/Duja 0.2.0/Duja.app");
    assert!(
        message.contains("/Volumes/Duja 0.2.0/Duja.app"),
        "{message}"
    );
    assert!(message.contains("/Applications"), "{message}");
}

#[test]
fn the_refusal_is_worded_exactly() {
    assert_eq!(
        mounted_volume_message("/Volumes/X/duja"),
        "Duja is running from a mounted volume (/Volumes/X/duja); a login item pointing there \
         would stop working as soon as it is ejected. Move Duja.app to /Applications and enable \
         it from there."
    );
}
