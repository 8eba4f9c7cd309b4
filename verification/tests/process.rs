use duja_platform::process::{
    count_dir_entries, resident_pages, self_metrics, ProcessMetrics, Reading,
};

#[test]
fn resident_pages_is_the_second_field() {
    assert_eq!(resident_pages("6234 1893 1204 41 0 1421 0\n"), Some(1893));
}

#[test]
fn a_short_or_junk_statm_is_none_rather_than_a_panic() {
    assert_eq!(resident_pages(""), None);
    assert_eq!(resident_pages("6234"), None, "only one field");
    assert_eq!(resident_pages("6234 notanumber"), None);
    assert_eq!(resident_pages("  6234 1893 1204"), Some(1893));
}

#[test]
fn a_path_that_is_not_a_readable_directory_is_none_rather_than_zero() {
    assert_eq!(count_dir_entries(None), None);
    assert_eq!(count_dir_entries(Some(&[true, false, true])), None);
}

#[test]
fn the_entry_count_tracks_what_is_in_the_directory() {
    assert_eq!(count_dir_entries(Some(&[])), Some(0));
    assert_eq!(count_dir_entries(Some(&[true, true, true])), Some(3));
}

#[test]
fn a_windows_sample_is_all_or_nothing() {
    let reading = |kernel| Reading::Windows {
        working_set: Some(4096),
        gdi: Some(1),
        user: Some(2),
        kernel,
    };
    assert_eq!(
        self_metrics(reading(Some(3))),
        Some(ProcessMetrics {
            rss_bytes: 4096,
            gdi_objects: Some(1),
            user_objects: Some(2),
            kernel_handles: Some(3),
        })
    );
    assert_eq!(self_metrics(reading(None)), None);
}

#[test]
fn a_linux_sample_multiplies_pages_and_saturates() {
    let reading = |statm| Reading::Linux {
        statm: Some(statm),
        descriptors: Some(9),
        page: 4096,
    };
    assert_eq!(
        self_metrics(reading("1 3 0")),
        Some(ProcessMetrics {
            rss_bytes: 12288,
            gdi_objects: None,
            user_objects: None,
            kernel_handles: Some(9),
        })
    );
    assert_eq!(
        self_metrics(reading("1 18446744073709551615")).map(|m| m.rss_bytes),
        Some(u64::MAX)
    );
    assert_eq!(self_metrics(reading("1")), None);
    assert_eq!(
        self_metrics(Reading::Linux {
            statm: Some("1 2"),
            descriptors: None,
            page: 4096,
        }),
        None
    );
    assert_eq!(
        self_metrics(Reading::Linux {
            statm: None,
            descriptors: Some(9),
            page: 0,
        }),
        None
    );
    assert_eq!(self_metrics(Reading::Uncounted), None);
}

#[test]
fn the_page_size_that_is_handed_over_is_used() {
    let sample = |page| {
        self_metrics(Reading::Linux {
            statm: Some("7 5 1"),
            descriptors: Some(0),
            page,
        })
        .expect("every part was read")
    };
    assert_eq!(sample(16_384).rss_bytes, 81_920);
    assert_eq!(sample(4096).rss_bytes, 20_480);
}
