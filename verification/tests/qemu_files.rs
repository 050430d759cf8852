use easy_qemu_core::qemu::{
    choose_ovmf,
    create_disk_args, disk_create_failure, early_exit_message, pid_from_pidfile,
    pidfile_timeout_message, startup_step, tail_lines, uefi_vars_path, StartupStep, UefiError,
};
use easy_qemu_core::qmp::{reply_step, status_text, vnc_port_from_reply, ReplyStep, VncService};
use easy_qemu_core::vm::{Accel, CpuModel, DisplayMode, Firmware, MachineType, NetMode, NetModel, Vm};

#[test]
fn log_tail_limits_lines() {
    let text = (1..=50).map(|i| format!("line{i}")).collect::<Vec<_>>().join("\n");
    let tail = tail_lines(&text, 10);
    assert_eq!(tail.lines().count(), 10);
    assert!(tail.ends_with("line50"));
    assert!(!tail.contains("line39"));
    assert!(tail.starts_with("line41\n"));
}

#[test]
fn short_logs_are_kept_whole() {
    assert_eq!(tail_lines("a\r\nb\n", 30), "a\nb");
    assert_eq!(tail_lines("", 30), "");
    assert_eq!(tail_lines("a\nb\nc", 0), "");
}

#[test]
fn pidfile_contents() {
    assert_eq!(pid_from_pidfile("1234\n"), Some(1234));
    assert_eq!(pid_from_pidfile("  77 \nrest"), Some(77));
    assert_eq!(pid_from_pidfile("+5"), Some(5));
    assert_eq!(pid_from_pidfile("-2147483648"), Some(-2147483648));
    assert_eq!(pid_from_pidfile("2147483648"), None);
    assert_eq!(pid_from_pidfile("12a"), None);
    assert_eq!(pid_from_pidfile(""), None);
    assert_eq!(pid_from_pidfile("\n12"), None);
}

#[test]
fn vnc_port_of_query_vnc() {
    assert_eq!(vnc_port_from_reply(Some(true), &VncService::Text("5901".into())), Some(5901));
    assert_eq!(vnc_port_from_reply(Some(true), &VncService::Text("x".into())), None);
    assert_eq!(vnc_port_from_reply(Some(true), &VncService::Text("70000".into())), None);
    assert_eq!(vnc_port_from_reply(Some(true), &VncService::Number(5902)), Some(5902));
    assert_eq!(vnc_port_from_reply(Some(true), &VncService::Number(65536 + 7)), Some(7));
    assert_eq!(vnc_port_from_reply(Some(false), &VncService::Text("5901".into())), None);
    assert_eq!(vnc_port_from_reply(None, &VncService::Number(1)), None);
    assert_eq!(vnc_port_from_reply(Some(true), &VncService::Absent), None);
}

#[test]
fn status_text_defaults_to_unknown() {
    assert_eq!(status_text(Some("running")), "running");
    assert_eq!(status_text(None), "unknown");
}

#[test]
fn uefi_vars_next_to_disk() {
    let vm = Vm {
        id: "test".into(),
        name: "demo".into(),
        memory_mb: 1,
        cpus: 1,
        disk_size_gb: 1,
        disk_path: "/tmp/demo.qcow2".into(),
        disk_owned: true,
        iso: None,
        accel: Accel::Auto,
        display: DisplayMode::Headless,
        vnc_display: None,
        machine: MachineType::Auto,
        firmware: Firmware::Uefi,
        cpu: CpuModel::Auto,
        net_mode: NetMode::Nat,
        net_model: NetModel::Auto,
        hostfwd: vec![],
    };
    assert_eq!(uefi_vars_path(&vm), "/tmp/test-vars.fd");
    assert_eq!(
        UefiError::VarsCopyFailed { reason: "denied".into() }.message(),
        "Не удалось скопировать OVMF VARS: denied"
    );
}

#[test]
fn disk_creation_arguments() {
    assert_eq!(
        create_disk_args("/d/alpha/x.qcow2", 20),
        vec!["create", "-f", "qcow2", "/d/alpha/x.qcow2", "20G"]
    );
    assert_eq!(create_disk_args("a.qcow2", 0)[4], "0G");
    assert_eq!(
        disk_create_failure("  no space left\n"),
        "qemu-img завершился с ошибкой: no space left"
    );
}

#[test]
fn startup_waits_for_pidfile_then_gives_up() {
    assert_eq!(startup_step(0, false, false), StartupStep::Wait);
    assert_eq!(startup_step(3, false, true), StartupStep::ReadPidfile);
    assert_eq!(startup_step(3, true, true), StartupStep::Exited);
    assert_eq!(startup_step(39, false, false), StartupStep::Wait);
    assert_eq!(startup_step(40, false, true), StartupStep::GiveUp);
    assert_eq!(startup_step(40, true, false), StartupStep::GiveUp);
}

#[test]
fn startup_error_texts() {
    assert_eq!(
        early_exit_message("exit status: 1", " \n "),
        "QEMU завершился сразу после запуска (exit status: 1)."
    );
    assert_eq!(
        early_exit_message("exit status: 1", "bad option"),
        "QEMU завершился сразу после запуска (exit status: 1).\n\nХвост лога:\nbad option"
    );
    assert_eq!(
        pidfile_timeout_message("x"),
        "QEMU не создал pidfile за 10 секунд.\nХвост лога:\nx"
    );
}

#[test]
fn qmp_messages_that_answer_a_command() {
    assert_eq!(reply_step(true, true, true), ReplyStep::Next);
    assert_eq!(reply_step(false, true, true), ReplyStep::Failed);
    assert_eq!(reply_step(false, false, true), ReplyStep::Returned);
    assert_eq!(reply_step(false, false, false), ReplyStep::Next);
}

#[test]
fn first_present_ovmf_pair_is_chosen() {
    assert_eq!(choose_ovmf(&[], &[]), None);
    assert_eq!(choose_ovmf(&[true; 24], &[false; 24]), None);
    let mut code = [false; 24];
    let mut vars = [false; 24];
    code[5] = true;
    vars[6] = true;
    code[8] = true;
    vars[8] = true;
    code[13] = true;
    vars[13] = true;
    assert_eq!(
        choose_ovmf(&code, &vars),
        Some(("/usr/share/OVMF/OVMF_CODE.fd".to_string(), "/usr/share/OVMF/OVMF_VARS.fd".to_string()))
    );
    let mut later_code = vec![false; 14];
    let mut later_vars = vec![false; 14];
    later_code[13] = true;
    later_vars[13] = true;
    assert_eq!(
        choose_ovmf(&later_code, &later_vars),
        Some((
            "/usr/share/ovmf/ovmf_CODE.fd".to_string(),
            "/usr/share/ovmf/ovmf_VARS.fd".to_string()
        ))
    );
    assert_eq!(choose_ovmf(&later_code, &later_vars[..13]), None);
    let beyond = vec![true; 30];
    let mut none_before = beyond.clone();
    for b in none_before.iter_mut().take(24) {
        *b = false;
    }
    assert_eq!(choose_ovmf(&none_before, &beyond), None);
}
