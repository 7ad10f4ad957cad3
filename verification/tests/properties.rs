use chronos_fm::properties::{
    format_file_time, format_modified, format_permissions, format_times, kind_label, mode_to_rwx,
    owner_group_labels, size_summary, SizeTally, WalkItem,
};

#[test]
fn mode_to_rwx_known_modes() {
    assert_eq!(mode_to_rwx(0o755), "rwxr-xr-x");
    assert_eq!(mode_to_rwx(0o644), "rw-r--r--");
    assert_eq!(mode_to_rwx(0o000), "---------");
    assert_eq!(mode_to_rwx(0o777), "rwxrwxrwx");
    assert_eq!(mode_to_rwx(0o700), "rwx------");
}

#[test]
fn metadata_formatters_handle_missing_metadata() {
    assert_eq!(
        owner_group_labels(None, None, None),
        ("unknown".to_string(), "unknown".to_string())
    );
    assert_eq!(format_times(None), ("unknown".to_string(), "unknown".to_string()));
    assert_eq!(format_permissions(None), ("---------".to_string(), "0000".to_string()));
}

#[test]
fn permissions_keep_only_the_permission_bits() {
    assert_eq!(
        format_permissions(Some(0o100755)),
        ("rwxr-xr-x".to_string(), "0755".to_string())
    );
    assert_eq!(
        format_permissions(Some(0o4750)),
        ("rwxr-x---".to_string(), "4750".to_string())
    );
}

#[test]
fn timestamps_render_as_utc_dates() {
    assert_eq!(format_modified(0), "1970-01-01 00:00");
    assert_eq!(format_modified(1_546_300_800), "2019-01-01 00:00");
    assert_eq!(format_modified(1_700_000_000), "2023-11-14 22:13");
    assert_eq!(format_modified(i64::MAX), "1970-01-01 00:00", "out of range shows the epoch");
    assert_eq!(format_file_time(None), "unknown");
    assert_eq!(format_file_time(Some(86_400 + 3_600 + 60)), "1970-01-02 01:01");
    assert_eq!(
        format_times(Some((Some(0), None))),
        ("1970-01-01 00:00".to_string(), "unknown".to_string())
    );
}

#[test]
fn owner_and_group_fall_back_to_ids() {
    assert_eq!(
        owner_group_labels(Some((1000, 100)), Some("me".to_string()), None),
        ("me".to_string(), "100".to_string())
    );
}

#[test]
fn kinds_and_size_rows() {
    assert_eq!(kind_label("dir"), "Directory");
    assert_eq!(kind_label("symlink"), "Symlink");
    assert_eq!(kind_label("file"), "File");
    let mut t = SizeTally::new();
    t.add(WalkItem::Dir);
    t.add(WalkItem::File(10));
    t.add(WalkItem::File(5));
    t.add(WalkItem::Other);
    t.add(WalkItem::Error);
    assert_eq!(t, SizeTally { files: 2, dirs: 1, bytes: 15, errors: 1 });
    assert!(!t.should_report());
    assert_eq!(size_summary("15 B", t), "15 B (2 files, 1 dirs, 1 unreadable)");
    assert_eq!(size_summary("0 B", SizeTally::new()), "0 B");
    assert!(SizeTally::new().should_report());
}
