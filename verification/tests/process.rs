use easy_qemu_core::process::{comm_image, is_alive, kill_decision, tasklist_image, KillDecision};

#[test]
fn dead_pid_is_not_alive() {
    assert!(!is_alive(None, "qemu-system"));
}

#[test]
fn kill_dead_pid_is_ok() {
    assert!(matches!(kill_decision(4_000_000, None, "qemu-system"), KillDecision::AlreadyGone));
}

#[test]
fn own_process_name_mismatch_is_refused() {
    assert!(!is_alive(Some("cargo"), "qemu-system"));
    match kill_decision(1234, Some("cargo"), "qemu-system") {
        KillDecision::Refuse(e) => assert_eq!(
            e.message(),
            "PID 1234 теперь принадлежит 'cargo', а не 'qemu-system*'. Процесс не будет остановлен."
        ),
        _ => panic!("a foreign process must not be killed"),
    }
}

#[test]
fn matching_image_is_alive_case_insensitively() {
    assert!(is_alive(Some("QEMU-System-x86_64"), "qemu-system"));
    assert!(matches!(kill_decision(7, Some("qemu-system-x86_64"), "qemu-system"), KillDecision::Kill));
}

#[test]
fn tasklist_rows_give_the_image_name() {
    assert_eq!(
        tasklist_image("\r\n\"qemu-system-x86_64.exe\"\r\n"),
        None
    );
    assert_eq!(
        tasklist_image("  \"qemu-system-x86_64.exe\"  \r\nmore"),
        Some("qemu-system-x86_64.exe".to_string())
    );
    assert_eq!(
        tasklist_image("\"qemu-system-x86_64.exe\",\"4321\",\"Console\"\r\n"),
        Some("qemu-system-x86_64.exe\",\"4321\",\"Console".to_string())
    );
    assert_eq!(tasklist_image("\"Info:\""), None);
    assert_eq!(tasklist_image("INFO: No tasks are running"), None);
    assert_eq!(tasklist_image(""), None);
}

#[test]
fn comm_contents_are_trimmed() {
    assert_eq!(comm_image("qemu-system-x86\n"), "qemu-system-x86");
    assert!(is_alive(Some(&comm_image("qemu-system-x86\n")), "qemu-system"));
}
