use easy_qemu_core::consoles::ConsolePorts;
use easy_qemu_core::manager::{
    assemble_vm, console_vnc_port, gen_id, plan_disk, snapshot_check, start_check, update_record,
    uptime_secs, vm_id, Action, ManagerError, QmpAction, Registry, Status, VmUpdate,
};
use easy_qemu_core::store::{sort_by_name, DeleteReport, RemoveOutcome, RunningInfo, Store};
use easy_qemu_core::vm::{
    Accel, CpuModel, DiskSpec, DisplayMode, Firmware, FwdProto, HostFwd, MachineType, NetMode,
    NetModel, Vm, VmDraft,
};

fn vm(id: &str) -> Vm {
    Vm {
        id: id.into(),
        name: "alpha".into(),
        memory_mb: 512,
        cpus: 1,
        disk_size_gb: 4,
        disk_path: "/d/alpha/x.qcow2".into(),
        disk_owned: true,
        iso: None,
        accel: Accel::Auto,
        display: DisplayMode::Vnc,
        vnc_display: Some(1),
        machine: MachineType::Auto,
        firmware: Firmware::Bios,
        cpu: CpuModel::Auto,
        net_mode: NetMode::Nat,
        net_model: NetModel::Auto,
        hostfwd: vec![],
    }
}

fn info(id: &str) -> RunningInfo {
    RunningInfo {
        id: id.into(),
        pid: 42,
        qmp_port: 4444,
        vnc_display: Some(2),
        vnc_port: None,
        display: DisplayMode::Vnc,
        started_at: Some(100),
    }
}

fn draft(disk: DiskSpec) -> VmDraft {
    VmDraft {
        name: " beta ".into(),
        memory_mb: 256,
        cpus: 2,
        iso: None,
        accel: Accel::Kvm,
        display: DisplayMode::Gtk,
        machine: MachineType::Q35,
        firmware: Firmware::Uefi,
        cpu: CpuModel::Max,
        net_mode: NetMode::Nat,
        net_model: NetModel::E1000,
        hostfwd: vec![HostFwd { proto: FwdProto::Tcp, host_port: 2222, guest_port: 22 }],
        disk,
    }
}

#[test]
fn gen_id_unique() {
    assert_ne!(gen_id(), gen_id());
}

#[test]
fn gen_id_shape() {
    let id = gen_id();
    assert_eq!(id.len(), 34);
    assert!(id.starts_with("vm"));
    assert!(id[2..].chars().all(|c| c.is_ascii_hexdigit() && !c.is_ascii_uppercase()));
}

#[test]
fn status_from_qmp() {
    assert_eq!(Status::from_qmp("running"), Status::Running);
    assert_eq!(Status::from_qmp("paused"), Status::Paused);
    assert_eq!(Status::from_qmp("shutdown"), Status::Shutoff);
    assert_eq!(Status::from_qmp(""), Status::Shutoff);
}

#[test]
fn actions_map_to_qmp_commands() {
    assert_eq!(Action::Pause.qmp_action(), QmpAction::Pause);
    assert_eq!(Action::Shutdown.qmp_action(), QmpAction::Shutdown);
    assert_eq!(QmpAction::Pause.cmd(), "stop");
    assert_eq!(QmpAction::Resume.cmd(), "cont");
    assert_eq!(QmpAction::Reset.cmd(), "system_reset");
    assert_eq!(QmpAction::Shutdown.cmd(), "system_powerdown");
}

#[test]
fn registry_start_observe_stop() {
    let mut r = Registry::new();
    assert!(!r.is_running("a"));
    assert_eq!(r.status("a"), Status::Unknown);
    r.record_started("a", info("a"));
    assert!(r.is_running("a"));
    assert_eq!(r.status("a"), Status::Running);
    assert!(!r.observe("a", Status::Paused));
    assert!(r.is_running("a"));
    assert_eq!(r.status("a"), Status::Paused);
    let taken = r.record_stopped("a").unwrap();
    assert_eq!(taken.pid, 42);
    assert!(!r.is_running("a"));
    assert_eq!(r.status("a"), Status::Shutoff);
    assert!(r.record_stopped("a").is_none());
}

#[test]
fn registry_shutoff_leaves_running_table() {
    let mut r = Registry::new();
    r.restore("a", info("a"));
    r.restore("b", info("b"));
    assert_eq!(r.status("a"), Status::Unknown);
    assert!(r.observe("a", Status::Shutoff));
    assert!(!r.is_running("a"));
    assert!(!r.observe("a", Status::Shutoff));
    let entries = r.running_entries();
    assert_eq!(entries.len(), 1);
    assert_eq!(entries[0].0, "b");
    r.forget("a");
    assert_eq!(r.status("a"), Status::Unknown);
    assert_eq!(r.running_info("b").unwrap().qmp_port, 4444);
}

#[test]
fn update_keeps_disk_and_id() {
    let current = vm("vm1");
    let mut patch = vm("other");
    patch.name = "renamed".into();
    patch.disk_path = "/elsewhere.qcow2".into();
    patch.disk_size_gb = 99;
    patch.disk_owned = false;
    patch.memory_mb = 1024;
    let r = update_record(Some(current), patch, false).ok().unwrap();
    assert_eq!(r.id, "vm1");
    assert_eq!(r.name, "renamed");
    assert_eq!(r.memory_mb, 1024);
    assert_eq!(r.disk_path, "/d/alpha/x.qcow2");
    assert_eq!(r.disk_size_gb, 4);
    assert!(r.disk_owned);
}

#[test]
fn update_refusals() {
    match update_record(None, vm("vm9"), false) {
        Err(e) => assert_eq!(e.message(), "VM 'vm9' not found"),
        Ok(_) => panic!(),
    }
    match update_record(Some(vm("vm1")), vm("vm1"), true) {
        Err(e) => assert_eq!(e.message(), "Stop the VM before editing"),
        Ok(_) => panic!(),
    }
}

#[test]
fn new_disk_plan_uses_storage_or_folder() {
    let v = draft(DiskSpec::New { size_gb: 8, folder: None }).validate().ok().unwrap();
    let p = plan_disk(&v, "/store", "vmx").ok().unwrap();
    assert_eq!(p.folder.as_deref(), Some("/store/beta"));
    assert_eq!(p.disk_path, "/store/beta/vmx.qcow2");
    assert_eq!(p.disk_size_gb, 8);
    assert!(p.new_image);
    let v = draft(DiskSpec::New { size_gb: 8, folder: Some(" /big ".into()) }).validate().ok().unwrap();
    let p = plan_disk(&v, "/store", "vmx").ok().unwrap();
    assert_eq!(p.disk_path, "/big/beta/vmx.qcow2");
}

#[test]
fn existing_disk_must_be_qcow2() {
    let v = draft(DiskSpec::Existing { path: " /imgs/Win.QCOW2 ".into() }).validate().ok().unwrap();
    let p = plan_disk(&v, "/store", "vmx").ok().unwrap();
    assert_eq!(p.disk_path, "/imgs/Win.QCOW2");
    assert!(p.folder.is_none());
    assert!(!p.new_image);
    assert_eq!(p.disk_size_gb, 0);
    let v = draft(DiskSpec::Existing { path: "/imgs/win.img".into() }).validate().ok().unwrap();
    match plan_disk(&v, "/store", "vmx") {
        Err(e) => assert_eq!(e.message(), "Only disks in the qcow2 format are supported"),
        Ok(_) => panic!(),
    }
}

#[test]
fn assembled_vm_takes_draft_settings() {
    let d = draft(DiskSpec::New { size_gb: 3, folder: None });
    let v = d.validate().ok().unwrap();
    let p = plan_disk(&v, "/s", "img").ok().unwrap();
    let r = assemble_vm("vmid".into(), v, &d, p);
    assert_eq!(r.id, "vmid");
    assert_eq!(r.name, "beta");
    assert!(r.disk_owned);
    assert_eq!(r.disk_size_gb, 3);
    assert_eq!(r.accel, Accel::Kvm);
    assert_eq!(r.firmware, Firmware::Uefi);
    assert_eq!(r.vnc_display, None);
    assert_eq!(r.hostfwd.len(), 1);
}

#[test]
fn start_and_snapshot_guards() {
    let v = vm("vm1");
    assert!(matches!(start_check(true, "vm1", Some(&v), true), Err(ManagerError::AlreadyRunning)));
    assert!(matches!(start_check(false, "vm1", None, true), Err(ManagerError::NotFound { .. })));
    match start_check(false, "vm1", Some(&v), false) {
        Err(e) => assert_eq!(e.message(), "Disk file not found: /d/alpha/x.qcow2"),
        Ok(_) => panic!(),
    }
    assert!(start_check(false, "vm1", Some(&v), true).is_ok());
    match snapshot_check(true, "vm1", Some(&v)) {
        Err(e) => assert_eq!(e.message(), "Snapshot operations require the VM to be powered off"),
        Ok(_) => panic!(),
    }
    assert!(snapshot_check(false, "vm1", Some(&v)).is_ok());
}

#[test]
fn console_needs_running_vnc_vm() {
    assert!(matches!(console_vnc_port(None), Err(ManagerError::NotRunning)));
    let i = info("a");
    assert_eq!(console_vnc_port(Some(&i)).ok(), Some(5902));
    let mut q = info("a");
    q.vnc_port = Some(5911);
    assert_eq!(console_vnc_port(Some(&q)).ok(), Some(5911));
    let mut h = info("a");
    h.display = DisplayMode::Sdl;
    assert!(matches!(console_vnc_port(Some(&h)), Err(ManagerError::ConsoleNeedsVnc)));
    let mut u = info("a");
    u.vnc_display = None;
    match console_vnc_port(Some(&u)) {
        Err(e) => assert_eq!(e.message(), "VNC port unknown — wait a couple of seconds"),
        Ok(_) => panic!(),
    }
}

#[test]
fn update_event_of_a_vm() {
    let v = vm("vm1");
    let i = info("vm1");
    let u = VmUpdate::of(&v, Status::Running, Some(&i), Some(6080));
    assert_eq!(u.id, "vm1");
    assert_eq!(u.pid, Some(42));
    assert_eq!(u.qmp_port, Some(4444));
    assert_eq!(u.vnc_port, Some(5902));
    assert_eq!(u.console_port, Some(6080));
    assert_eq!(u.started_at, Some(100));
    let idle = VmUpdate::of(&v, Status::Unknown, None, None);
    assert_eq!(idle.pid, None);
    assert_eq!(idle.vnc_port, None);
}

#[test]
fn uptime() {
    assert_eq!(uptime_secs(Some(100), Some(160)), 60);
    assert_eq!(uptime_secs(None, Some(160)), 0);
    assert_eq!(uptime_secs(Some(100), None), 0);
}

fn plain_draft(name: &str) -> VmDraft {
    VmDraft {
        name: name.into(),
        memory_mb: 512,
        cpus: 1,
        iso: None,
        accel: Accel::Auto,
        display: DisplayMode::Headless,
        machine: MachineType::Auto,
        firmware: Firmware::Bios,
        cpu: CpuModel::Auto,
        net_mode: NetMode::Nat,
        net_model: NetModel::Auto,
        hostfwd: vec![],
        disk: DiskSpec::New { size_gb: 1, folder: None },
    }
}

fn created(name: &str) -> Vm {
    let d = plain_draft(name);
    let v = d.validate().ok().unwrap();
    let p = plan_disk(&v, "/base/disks", "img1").ok().unwrap();
    assert!(p.new_image);
    assemble_vm(gen_id(), v, &d, p)
}

#[test]
fn create_and_list_roundtrip() {
    let vm = created("alpha");
    assert!(vm.disk_owned);
    assert_eq!(vm.disk_path, "/base/disks/alpha/img1.qcow2");
    let items = sort_by_name(vec![vm]);
    assert_eq!(items.len(), 1);
    assert_eq!(items[0].name, "alpha");
}

#[test]
fn delete_owned_disk_removes_file_and_record() {
    let vm = created("beta");
    let s = Store::at("/base".into());
    let plan = s.plan_delete(&vm.id, Some(&vm), true);
    assert_eq!(plan.disk.as_deref(), Some(vm.disk_path.as_str()));
    let report = DeleteReport::from_outcomes(&plan, RemoveOutcome::Removed, RemoveOutcome::Removed);
    assert!(report.json_removed);
    assert!(report.disk_deleted);
}

#[test]
fn delete_keep_disk_preserves_file() {
    let vm = created("gamma");
    let s = Store::at("/base".into());
    let plan = s.plan_delete(&vm.id, Some(&vm), false);
    assert!(plan.disk.is_none());
    let report = DeleteReport::from_outcomes(&plan, RemoveOutcome::Absent, RemoveOutcome::Removed);
    assert!(!report.disk_attempted);
}

#[test]
fn validation_error_surfaces() {
    let mut d = plain_draft("");
    d.name = "  ".into();
    match d.validate() {
        Err(e) => assert_eq!(e.message(), "Имя не может быть пустым"),
        Ok(_) => panic!("a blank name must be refused"),
    }
}

#[test]
fn ids_are_vm_and_the_uuid_text() {
    assert_eq!(vm_id("0123456789abcdef0123456789abcdef"), "vm0123456789abcdef0123456789abcdef");
    assert_eq!(vm_id(""), "vm");
}

#[test]
fn polling_round_updates_the_tables() {
    let mut r = Registry::new();
    r.restore("a", info("a"));
    r.restore("b", info("b"));
    r.record_started("c", info("c"));
    let seen = vec![
        ("a".to_string(), Status::Running),
        ("b".to_string(), Status::Shutoff),
        ("c".to_string(), Status::Paused),
        ("z".to_string(), Status::Shutoff),
    ];
    let removed = r.observe_all(&seen);
    assert_eq!(removed, vec!["b".to_string()]);
    assert!(r.is_running("a") && !r.is_running("b") && r.is_running("c"));
    assert_eq!(r.status("a"), Status::Running);
    assert_eq!(r.status("b"), Status::Shutoff);
    assert_eq!(r.status("c"), Status::Paused);
    assert_eq!(r.status("z"), Status::Shutoff);
}

#[test]
fn updates_follow_the_vm_list() {
    let mut r = Registry::new();
    r.record_started("vm2", info("vm2"));
    let vms = vec![vm("vm1"), vm("vm2")];
    let ups = r.updates(&vms, &vec![None, Some(6080)]);
    assert_eq!(ups.len(), 2);
    assert_eq!(ups[0].id, "vm1");
    assert_eq!(ups[0].status, Status::Unknown);
    assert_eq!(ups[0].pid, None);
    assert_eq!(ups[1].id, "vm2");
    assert_eq!(ups[1].name, "alpha");
    assert_eq!(ups[1].status, Status::Running);
    assert_eq!(ups[1].pid, Some(42));
    assert_eq!(ups[1].console_port, Some(6080));
}

#[test]
fn console_ports_are_kept_until_removed() {
    let mut p = ConsolePorts::new();
    assert_eq!(p.port_of("a"), None);
    p.insert("a", 6080);
    p.insert("b", 6081);
    assert_eq!(p.port_of("a"), Some(6080));
    p.insert("a", 6090);
    assert_eq!(p.port_of("a"), Some(6090));
    assert!(p.remove("b"));
    assert!(!p.remove("b"));
    assert!(!p.is_running("b"));
    assert!(p.is_running("a"));
    assert_eq!(p.ids(), vec!["a".to_string()]);
}
