use easy_qemu_core::vm::{
    true_default, Accel, CpuModel, DiskSpec, DisplayMode, DraftError, Firmware, FwdProto, HostFwd,
    MachineType, NetMode, NetModel, Vm, VmDraft,
};

fn draft(name: &str) -> VmDraft {
    VmDraft {
        name: name.into(),
        memory_mb: 512,
        cpus: 1,
        iso: None,
        accel: Accel::Auto,
        display: DisplayMode::Headless,
        machine: MachineType::Auto,
        firmware: Firmware::Bios,
        cpu: CpuModel::Auto,
        net_mode: NetMode::Nat,
        net_model: NetModel::Auto,
        hostfwd: vec![],
        disk: DiskSpec::New { size_gb: 1, folder: None },
    }
}

fn message(d: &VmDraft) -> String {
    match d.validate() {
        Err(e) => e.message(),
        Ok(_) => panic!("draft should be refused"),
    }
}

#[test]
fn valid_draft_is_trimmed() {
    let mut d = draft("  alpha  ");
    d.hostfwd = vec![HostFwd { proto: FwdProto::Tcp, host_port: 2222, guest_port: 22 }];
    let v = d.validate().ok().unwrap();
    assert_eq!(v.name, "alpha");
    assert_eq!(v.memory_mb, 512);
    assert_eq!(v.cpus, 1);
    assert!(v.iso.is_none());
    assert_eq!(v.hostfwd.len(), 1);
    assert!(matches!(v.disk, DiskSpec::New { size_gb: 1, folder: None }));
}

#[test]
fn blank_name_is_refused() {
    assert!(matches!(draft("   ").validate(), Err(DraftError::EmptyName)));
    assert_eq!(message(&draft("")), "Имя не может быть пустым");
}

#[test]
fn zero_memory_and_cpus_are_refused() {
    let mut d = draft("a");
    d.memory_mb = 0;
    assert_eq!(message(&d), "Память (МБ) должна быть числом > 0");
    let mut d = draft("a");
    d.cpus = 0;
    assert_eq!(message(&d), "Число vCPU должно быть > 0");
}

#[test]
fn microvm_cannot_have_vnc() {
    let mut d = draft("a");
    d.display = DisplayMode::Vnc;
    d.machine = MachineType::MicroVm;
    assert_eq!(message(&d), "microvm не поддерживает VNC-дисплей. Выберите другую платформу.");
    d.machine = MachineType::Q35;
    assert!(d.validate().is_ok());
}

#[test]
fn hostfwd_needs_nat() {
    let mut d = draft("a");
    d.net_mode = NetMode::Bridged;
    d.hostfwd = vec![HostFwd { proto: FwdProto::Tcp, host_port: 2222, guest_port: 22 }];
    assert_eq!(message(&d), "Проброс портов доступен только для сети nat (user)");
}

#[test]
fn zero_ports_and_duplicates_are_refused() {
    let mut d = draft("a");
    d.hostfwd = vec![HostFwd { proto: FwdProto::Udp, host_port: 53, guest_port: 0 }];
    assert_eq!(message(&d), "Порты проброса должны быть больше 0");
    d.hostfwd = vec![
        HostFwd { proto: FwdProto::Tcp, host_port: 8080, guest_port: 80 },
        HostFwd { proto: FwdProto::Udp, host_port: 8080, guest_port: 80 },
        HostFwd { proto: FwdProto::Tcp, host_port: 8080, guest_port: 81 },
    ];
    assert_eq!(message(&d), "Дублирующийся hostfwd: tcp порт 8080");
}

#[test]
fn missing_iso_is_refused_and_blank_iso_ignored() {
    let mut d = draft("a");
    d.iso = Some("  /definitely/not/here/boot.iso ".into());
    assert_eq!(message(&d), "ISO не найден: /definitely/not/here/boot.iso");
    assert!(matches!(d.validate_with(true), Ok(v) if v.iso.as_deref() == Some("/definitely/not/here/boot.iso")));
    d.iso = Some("   ".into());
    assert!(d.validate().ok().unwrap().iso.is_none());
}

#[test]
fn labels_and_flags() {
    assert_eq!(Accel::Whpx.label(), "whpx");
    assert_eq!(Accel::Off.label(), "none");
    assert_eq!(DisplayMode::Headless.label(), "none (headless)");
    assert_eq!(MachineType::I440Fx.qemu_flag(), Some("pc"));
    assert_eq!(MachineType::Auto.qemu_flag(), None);
    assert!(!MachineType::MicroVm.supports_vnc());
    assert!(MachineType::Q35.supports_vnc());
    assert_eq!(Firmware::Uefi.label(), "UEFI (OVMF)");
    assert_eq!(CpuModel::Host.label(), "host");
    assert_eq!(NetMode::Bridged.label(), "мост (tap)");
    assert_eq!(NetModel::Virtio.qemu_model(), Some("virtio-net-pci"));
    assert_eq!(NetModel::Auto.qemu_model(), None);
    assert_eq!(NetModel::Rtl8139.label(), "rtl8139");
    assert_eq!(FwdProto::Udp.qemu_str(), "udp");
    assert_eq!(Accel::default(), Accel::Auto);
    assert_eq!(NetMode::default(), NetMode::Nat);
    assert!(true_default());
}

#[test]
fn forwarding_fragment() {
    let h = HostFwd { proto: FwdProto::Udp, host_port: 65535, guest_port: 1 };
    assert_eq!(h.qemu_fragment(), "hostfwd=udp::65535-:1");
}

fn vm_at(disk: &str) -> Vm {
    Vm {
        id: "vm1".into(),
        name: "n".into(),
        memory_mb: 1,
        cpus: 1,
        disk_size_gb: 1,
        disk_path: disk.into(),
        disk_owned: true,
        iso: None,
        accel: Accel::Auto,
        display: DisplayMode::Headless,
        vnc_display: None,
        machine: MachineType::Auto,
        firmware: Firmware::Bios,
        cpu: CpuModel::Auto,
        net_mode: NetMode::Nat,
        net_model: NetModel::Auto,
        hostfwd: vec![],
    }
}

#[test]
fn pidfile_sits_next_to_the_disk() {
    assert_eq!(vm_at("/data/vms/x.qcow2").pidfile_path(), "/data/vms/vm1.pid");
    assert_eq!(vm_at("x.qcow2").pidfile_path(), "vm1.pid");
    assert_eq!(vm_at("/").pidfile_path(), "./vm1.pid");
}

#[test]
fn vm_clone_keeps_fields() {
    let mut v = vm_at("/a/b.qcow2");
    v.hostfwd = vec![HostFwd { proto: FwdProto::Tcp, host_port: 1, guest_port: 2 }];
    let c = v.clone();
    assert_eq!(c.disk_path, v.disk_path);
    assert_eq!(c.hostfwd, v.hostfwd);
}

#[test]
fn choices_in_settings_order() {
    let accels: Vec<&str> = Accel::ALL.iter().map(|a| a.label()).collect();
    assert_eq!(accels, vec!["auto", "kvm", "whpx", "tcg", "none"]);
    assert_eq!(DisplayMode::ALL[0], DisplayMode::Headless);
    assert_eq!(DisplayMode::ALL.len(), 4);
    assert_eq!(MachineType::ALL, [MachineType::Q35, MachineType::I440Fx, MachineType::MicroVm, MachineType::Auto]);
    assert_eq!(Firmware::ALL, [Firmware::Bios, Firmware::Uefi]);
    assert_eq!(CpuModel::ALL, [CpuModel::Auto, CpuModel::Max, CpuModel::Host]);
    assert_eq!(NetMode::ALL, [NetMode::Nat, NetMode::Bridged, NetMode::Off]);
    assert_eq!(NetModel::ALL[3], NetModel::Rtl8139);
}
