use easy_qemu_core::accel::HostOs;
use easy_qemu_core::qemu::{build_qemu_args, find_ovmf};
use easy_qemu_core::vm::{
    Accel, CpuModel, DisplayMode, Firmware, FwdProto, HostFwd, MachineType, NetMode, NetModel, Vm,
};

fn sample_vm(display: DisplayMode) -> Vm {
    Vm {
        id: "test".into(),
        name: "demo".into(),
        memory_mb: 2048,
        cpus: 2,
        disk_size_gb: 20,
        disk_path: "/tmp/demo.qcow2".into(),
        disk_owned: true,
        iso: Some("/tmp/boot.iso".into()),
        accel: Accel::Auto,
        display,
        vnc_display: Some(3),
        machine: MachineType::Auto,
        firmware: Firmware::Bios,
        cpu: CpuModel::Auto,
        net_mode: NetMode::Nat,
        net_model: NetModel::Auto,
        hostfwd: vec![],
    }
}

fn args(vm: &Vm, accel: Accel) -> String {
    build_qemu_args(vm, 5555, "127.0.0.1", accel, true, None, HostOs::Linux)
        .ok()
        .unwrap()
        .join(" ")
}

#[test]
fn args_contain_core_options() {
    let vm = sample_vm(DisplayMode::Vnc);
    let joined = args(&vm, Accel::Tcg);
    assert!(joined.contains("-name demo"));
    assert!(joined.contains("-m 2048"));
    assert!(joined.contains("-smp 2"));
    assert!(joined.contains("file=/tmp/demo.qcow2,if=virtio,format=qcow2"));
    assert!(joined.contains("-nic user"));
    assert!(joined.contains("-cdrom /tmp/boot.iso"));
    assert!(joined.contains("-boot d"));
    assert!(joined.contains("socket,host=127.0.0.1,port=5555,server=on,wait=off,id=qmp0"));
    assert!(joined.contains("-mon chardev=qmp0,mode=control"));
    assert!(joined.contains("-vnc 127.0.0.1:3,to=20"));
}

#[test]
fn headless_has_no_vnc() {
    let vm = sample_vm(DisplayMode::Headless);
    let joined = args(&vm, Accel::Tcg);
    assert!(joined.contains("-display none"));
    assert!(!joined.contains("-vnc"));
}

#[test]
fn machine_and_cpu_flags() {
    let mut vm = sample_vm(DisplayMode::Headless);
    vm.machine = MachineType::Q35;
    vm.cpu = CpuModel::Max;
    let joined = args(&vm, Accel::Tcg);
    assert!(joined.contains("-machine q35"));
    assert!(joined.contains("-cpu max"));
}

#[test]
fn host_cpu_falls_back_on_non_kvm() {
    let mut vm = sample_vm(DisplayMode::Headless);
    vm.cpu = CpuModel::Host;
    let joined = args(&vm, Accel::Whpx);
    assert!(joined.contains("-cpu max"));
    assert!(!joined.contains("-cpu host"));
    assert!(joined.contains("-accel whpx"));
}

#[test]
fn kvm_enables_host_cpu_and_flag() {
    let mut vm = sample_vm(DisplayMode::Headless);
    vm.cpu = CpuModel::Host;
    let joined = args(&vm, Accel::Kvm);
    assert!(joined.contains("-enable-kvm"));
    assert!(joined.contains("-cpu host"));
}

#[test]
fn default_machine_omits_flag() {
    let vm = sample_vm(DisplayMode::Headless);
    let joined = args(&vm, Accel::Tcg);
    assert!(!joined.contains("-machine "));
    assert!(!joined.contains("-cpu"));
}

#[test]
fn nat_hostfwd_rules_in_args() {
    let mut vm = sample_vm(DisplayMode::Headless);
    vm.hostfwd = vec![
        HostFwd { proto: FwdProto::Tcp, host_port: 2222, guest_port: 22 },
        HostFwd { proto: FwdProto::Udp, host_port: 5353, guest_port: 53 },
    ];
    let joined = args(&vm, Accel::Tcg);
    assert!(joined.contains("-nic user,hostfwd=tcp::2222-:22,hostfwd=udp::5353-:53"));
}

#[test]
fn nat_with_explicit_model_keeps_hostfwd() {
    let mut vm = sample_vm(DisplayMode::Headless);
    vm.net_model = NetModel::Virtio;
    vm.hostfwd = vec![HostFwd { proto: FwdProto::Tcp, host_port: 8080, guest_port: 80 }];
    let joined = args(&vm, Accel::Tcg);
    assert!(joined.contains("-nic user,model=virtio-net-pci,hostfwd=tcp::8080-:80"));
}

#[test]
fn bridged_net_uses_tap() {
    let mut vm = sample_vm(DisplayMode::Headless);
    vm.net_mode = NetMode::Bridged;
    vm.net_model = NetModel::E1000;
    let joined = args(&vm, Accel::Tcg);
    assert!(joined.contains("-nic tap,model=e1000"));
}

#[test]
fn no_net_uses_none() {
    let mut vm = sample_vm(DisplayMode::Headless);
    vm.net_mode = NetMode::Off;
    let joined = args(&vm, Accel::Tcg);
    assert!(joined.contains("-nic none"));
    assert!(!joined.contains("hostfwd"));
}

#[test]
fn uefi_requires_ovmf_present_or_errors() {
    let mut vm = sample_vm(DisplayMode::Headless);
    vm.firmware = Firmware::Uefi;
    let code = find_ovmf().map(|(code, _)| code);
    match build_qemu_args(&vm, 5555, "127.0.0.1", Accel::Tcg, true, code.as_deref(), HostOs::Linux) {
        Err(e) => assert!(e.message().contains("OVMF")),
        Ok(args) => {
            let joined = args.join(" ");
            assert!(joined.contains("if=pflash,format=raw,readonly=on"));
            assert!(joined.contains("test-vars.fd"));
        }
    }
}

#[test]
fn uefi_with_firmware_adds_pflash_drives() {
    let mut vm = sample_vm(DisplayMode::Headless);
    vm.firmware = Firmware::Uefi;
    let joined = build_qemu_args(&vm, 5555, "127.0.0.1", Accel::Tcg, true, Some("/usr/share/OVMF/OVMF_CODE.fd"), HostOs::Linux)
        .ok()
        .unwrap()
        .join(" ");
    assert!(joined.contains(
        "-drive if=pflash,format=raw,readonly=on,file=/usr/share/OVMF/OVMF_CODE.fd -drive if=pflash,format=raw,file=/tmp/test-vars.fd"
    ));
}

#[test]
fn exact_headless_command_line() {
    let mut vm = sample_vm(DisplayMode::Headless);
    vm.iso = None;
    let a = build_qemu_args(&vm, 4444, "127.0.0.1", Accel::Kvm, true, None, HostOs::Linux).ok().unwrap();
    assert_eq!(
        a,
        vec![
            "-name", "demo", "-m", "2048", "-smp", "2", "-drive",
            "file=/tmp/demo.qcow2,if=virtio,format=qcow2", "-nic", "user", "-enable-kvm",
            "-display", "none", "-chardev",
            "socket,host=127.0.0.1,port=4444,server=on,wait=off,id=qmp0", "-mon",
            "chardev=qmp0,mode=control", "-pidfile", "/tmp/test.pid", "-daemonize",
        ]
    );
}

#[test]
fn daemonize_only_on_linux() {
    let vm = sample_vm(DisplayMode::Headless);
    let a = build_qemu_args(&vm, 5555, "127.0.0.1", Accel::Tcg, true, None, HostOs::Windows).ok().unwrap();
    assert!(!a.contains(&"-daemonize".to_string()));
    let b = build_qemu_args(&vm, 5555, "127.0.0.1", Accel::Tcg, false, None, HostOs::Linux).ok().unwrap();
    assert!(!b.contains(&"-daemonize".to_string()));
}

#[test]
fn vnc_without_hint_starts_at_zero() {
    let mut vm = sample_vm(DisplayMode::Vnc);
    vm.vnc_display = None;
    let joined = build_qemu_args(&vm, 5555, "0.0.0.0", Accel::Tcg, true, None, HostOs::Linux)
        .ok()
        .unwrap()
        .join(" ");
    assert!(joined.contains("-vnc 0.0.0.0:0,to=20"));
}

#[test]
fn uefi_without_firmware_is_refused() {
    let mut vm = sample_vm(DisplayMode::Headless);
    vm.firmware = Firmware::Uefi;
    match build_qemu_args(&vm, 5555, "127.0.0.1", Accel::Tcg, true, None, HostOs::Linux) {
        Err(e) => assert!(e.message().contains("OVMF")),
        Ok(_) => panic!("a UEFI VM needs its firmware"),
    }
}
