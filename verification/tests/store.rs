use easy_qemu_core::store::{log_file, sort_by_name, DeleteReport, RemoveOutcome, RunningInfo, Store};
use easy_qemu_core::vm::{Accel, CpuModel, DisplayMode, Firmware, MachineType, NetMode, NetModel, Vm};

fn vm(owned: bool) -> Vm {
    Vm {
        id: "vm1".into(),
        name: "n".into(),
        memory_mb: 1,
        cpus: 1,
        disk_size_gb: 1,
        disk_path: "/d/n/x.qcow2".into(),
        disk_owned: owned,
        iso: None,
        accel: Accel::Auto,
        display: DisplayMode::Headless,
        vnc_display: None,
        machine: MachineType::Auto,
        firmware: Firmware::Bios,
        cpu: CpuModel::Auto,
        net_mode: NetMode::Nat,
        net_model: NetModel::Auto,
        hostfwd: vec![],
    }
}

#[test]
fn layout_under_base() {
    let s = Store::at("/base".into());
    assert_eq!(s.base(), "/base");
    assert_eq!(s.vms_dir(), "/base/vms");
    assert_eq!(s.running_file(), "/base/running.json");
    assert_eq!(s.record_path("vm1"), "/base/vms/vm1.json");
    assert_eq!(s.record_tmp_path("vm1"), "/base/vms/.vm1.json.tmp");
    assert_eq!(s.running_tmp_path(), "/base/.running.json.tmp");
    assert_eq!(log_file("/base/disks", "vm1"), "/base/disks/vm1.log");
}

#[test]
fn owned_disk_is_removed_only_on_request() {
    let s = Store::at("/base".into());
    let v = vm(true);
    let p = s.plan_delete("vm1", Some(&v), true);
    assert_eq!(p.disk.as_deref(), Some("/d/n/x.qcow2"));
    assert_eq!(p.pidfile.as_deref(), Some("/d/n/vm1.pid"));
    assert_eq!(p.record, "/base/vms/vm1.json");
    assert!(s.plan_delete("vm1", Some(&v), false).disk.is_none());
    let foreign = vm(false);
    assert!(s.plan_delete("vm1", Some(&foreign), true).disk.is_none());
    let gone = s.plan_delete("vm1", None, true);
    assert!(gone.disk.is_none() && gone.pidfile.is_none());
}

#[test]
fn report_of_a_deletion() {
    let s = Store::at("/base".into());
    let v = vm(true);
    let p = s.plan_delete("vm1", Some(&v), true);
    let r = DeleteReport::from_outcomes(&p, RemoveOutcome::Removed, RemoveOutcome::Removed);
    assert!(r.json_removed && r.pidfile_removed && r.disk_attempted && r.disk_deleted);
    assert!(r.errors.is_empty());
    let r = DeleteReport::from_outcomes(
        &p,
        RemoveOutcome::Failed { reason: "busy".into() },
        RemoveOutcome::Failed { reason: "denied".into() },
    );
    assert!(!r.disk_deleted && !r.json_removed && r.disk_attempted);
    assert_eq!(
        r.errors,
        vec!["Failed to delete disk /d/n/x.qcow2: busy", "Failed to remove the VM record: denied"]
    );
    let keep = s.plan_delete("vm1", Some(&v), false);
    let r = DeleteReport::from_outcomes(&keep, RemoveOutcome::Failed { reason: "x".into() }, RemoveOutcome::Absent);
    assert!(!r.disk_attempted && !r.disk_deleted && r.json_removed && r.errors.is_empty());
}

#[test]
fn vnc_port_prefers_qmp_answer() {
    let mut i = RunningInfo {
        id: "a".into(),
        pid: 1,
        qmp_port: 2,
        vnc_display: Some(3),
        vnc_port: None,
        display: DisplayMode::Vnc,
        started_at: None,
    };
    assert_eq!(i.effective_vnc_port(), Some(5903));
    i.vnc_port = Some(5999);
    assert_eq!(i.effective_vnc_port(), Some(5999));
    i.vnc_port = None;
    i.vnc_display = None;
    assert_eq!(i.effective_vnc_port(), None);
}

fn named(id: &str, name: &str) -> Vm {
    let mut v = vm(false);
    v.id = id.into();
    v.name = name.into();
    v
}

#[test]
fn list_is_ordered_by_name_ignoring_case() {
    let vms = vec![named("1", "beta"), named("2", "Alpha"), named("3", "gamma"), named("4", "alpha2")];
    let ids: Vec<String> = sort_by_name(vms).into_iter().map(|v| v.id).collect();
    assert_eq!(ids, vec!["2", "4", "1", "3"]);
}

#[test]
fn equal_names_keep_their_order() {
    let vms = vec![named("a", "Same"), named("b", "x"), named("c", "same"), named("d", "SAME")];
    let ids: Vec<String> = sort_by_name(vms).into_iter().map(|v| v.id).collect();
    assert_eq!(ids, vec!["a", "c", "d", "b"]);
    assert!(sort_by_name(vec![]).is_empty());
}
