use easy_qemu_core::snapshots::{
    format_date, list_args, qemu_img_failure, snapshot_args, valid_snapshot_name, RawSnapshot,
    SnapInfo, SnapshotNameError, SnapshotOp,
};

#[test]
fn names_are_trimmed_and_checked() {
    assert_eq!(valid_snapshot_name("  before update ").ok().as_deref(), Some("before update"));
    assert_eq!(valid_snapshot_name("снимок_1.0-a").ok().as_deref(), Some("снимок_1.0-a"));
    assert_eq!(valid_snapshot_name("   "), Err(SnapshotNameError::Empty));
    assert_eq!(valid_snapshot_name("a/b"), Err(SnapshotNameError::Invalid));
    assert_eq!(valid_snapshot_name(&"x".repeat(60)).ok().map(|s| s.len()), Some(60));
    assert_eq!(valid_snapshot_name(&"x".repeat(61)), Err(SnapshotNameError::Invalid));
    let cyrillic = "а".repeat(31);
    assert_eq!(valid_snapshot_name(&cyrillic).ok(), Some(cyrillic.clone()));
    assert_eq!(valid_snapshot_name(&"я".repeat(60)).ok().map(|s| s.chars().count()), Some(60));
    assert_eq!(valid_snapshot_name(&"я".repeat(61)), Err(SnapshotNameError::Invalid));
    assert_eq!(SnapshotNameError::Empty.message(), "Имя снапшота не может быть пустым");
}

#[test]
fn snapshot_command_lines() {
    assert_eq!(snapshot_args(SnapshotOp::Create, "/d.qcow2", " s1 ").ok().unwrap(), vec!["snapshot", "-c", "s1", "/d.qcow2"]);
    assert_eq!(snapshot_args(SnapshotOp::Apply, "/d.qcow2", "s1").ok().unwrap(), vec!["snapshot", "-a", "s1", "/d.qcow2"]);
    assert_eq!(snapshot_args(SnapshotOp::Delete, "/d.qcow2", "s1").ok().unwrap(), vec!["snapshot", "-d", "s1", "/d.qcow2"]);
    assert!(snapshot_args(SnapshotOp::Create, "/d.qcow2", "bad;name").is_err());
    assert_eq!(list_args("/d.qcow2"), vec!["snapshot", "-l", "--output=json", "/d.qcow2"]);
}

#[test]
fn listing_entries() {
    assert_eq!(format_date(1700000000, 5).as_deref(), Some("1700000000"));
    assert_eq!(format_date(-5, 0).as_deref(), Some("-5"));
    let s = SnapInfo::from_raw(RawSnapshot { name: "s".into(), id: Some("1".into()), date_sec: Some(12), date_nsec: None });
    assert_eq!(s.name, "s");
    assert_eq!(s.tag.as_deref(), Some("1"));
    assert_eq!(s.date_time.as_deref(), Some("12"));
    let t = SnapInfo::from_raw(RawSnapshot { name: "t".into(), id: None, date_sec: None, date_nsec: Some(3) });
    assert!(t.date_time.is_none());
    assert_eq!(qemu_img_failure("  boom\n"), "qemu-img: boom");
}
