use easy_qemu_core::accel::{parse_accel_help, AccelSupport, HostOs};
use easy_qemu_core::config::Config;
use easy_qemu_core::env::{find_binaries, probe};
use easy_qemu_core::qemu::{pick_binary, resolve_binary};

#[test]
fn missing_binaries_probe_to_none() {
    let cfg = Config {
        qemu_binary: Some("Z:/definitely/not/here/qemu.exe".into()),
        qemu_img: Some("Z:/definitely/not/here/qemu-img.exe".into()),
        ..Default::default()
    };
    let (sys, img) = find_binaries(&cfg, &vec![], HostOs::Linux);
    let p = probe(sys, img, &AccelSupport::default());
    assert!(p.qemu_system.is_none());
    assert!(p.qemu_img.is_none());
    assert!(p.accels.is_empty());
}

#[test]
fn accels_are_sorted_and_filtered() {
    let s = parse_accel_help("tcg\nwhpx\nkvm\nxen\n");
    let p = probe(Some("/usr/bin/qemu-system-x86_64".into()), None, &s);
    assert_eq!(p.accels, vec!["kvm", "tcg", "whpx"]);
    let p = probe(None, None, &s);
    assert!(p.accels.is_empty());
}

#[test]
fn resolve_reports_missing_binary() {
    match resolve_binary("qemu-img", &Some("/no/such/qemu-img".into()), &vec![], HostOs::Linux) {
        Err(e) => assert_eq!(e.message(), "Бинарный файл 'qemu-img' не найден по пути: /no/such/qemu-img"),
        Ok(_) => panic!(),
    }
    match resolve_binary("no-such-binary-xyz", &None, &vec!["/no/such/dir".into()], HostOs::Linux) {
        Err(e) => assert_eq!(
            e.message(),
            "Не удалось найти 'no-such-binary-xyz'. Добавьте его в PATH или укажите путь в настройках."
        ),
        Ok(_) => panic!(),
    }
}

#[test]
fn resolve_finds_binary_on_path() {
    let r = resolve_binary("sh", &None, &vec!["/no/such/dir".into(), "/bin".into()], HostOs::Linux);
    assert_eq!(r.ok().as_deref(), Some("/bin/sh"));
    let w = resolve_binary("sh", &None, &vec!["/bin".into()], HostOs::Windows);
    assert!(w.is_err());
}

#[test]
fn binary_is_picked_from_the_answers() {
    let dirs: Vec<String> = vec!["/a".into(), "/b".into(), "/c".into()];
    let over = Some("/opt/qemu".to_string());
    assert_eq!(pick_binary("qemu-img", &over, &dirs, HostOs::Linux, true, &[true], true).ok().as_deref(), Some("/opt/qemu"));
    match pick_binary("qemu-img", &over, &dirs, HostOs::Linux, false, &[true], true) {
        Err(e) => assert_eq!(e.message(), "Бинарный файл 'qemu-img' не найден по пути: /opt/qemu"),
        Ok(_) => panic!("a missing configured path is an error"),
    }
    assert_eq!(
        pick_binary("qemu-img", &None, &dirs, HostOs::Linux, false, &[false, true, true], false).ok().as_deref(),
        Some("/b/qemu-img")
    );
    assert_eq!(
        pick_binary("qemu-img", &None, &dirs, HostOs::Windows, false, &[false, false, true], false).ok().as_deref(),
        Some("/c/qemu-img.exe")
    );
    assert_eq!(
        pick_binary("qemu-img", &None, &dirs, HostOs::Windows, false, &[false], true).ok().as_deref(),
        Some("C:\\Program Files\\qemu/qemu-img")
    );
    assert!(pick_binary("qemu-img", &None, &dirs, HostOs::Linux, false, &[false, false, false], true).is_err());
    assert!(pick_binary("qemu-img", &None, &vec![], HostOs::Linux, false, &[true], false).is_err());
}
