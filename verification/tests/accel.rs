use easy_qemu_core::accel::{effective, parse_accel_help, support_from_run, AccelSupport, HostOs};
use easy_qemu_core::vm::Accel;

const SAMPLE: &str = "Accelerators supported by QEMU binary:\n  kvm\n  whpx: Windows Hypervisor Platform support\n  tcg: TCG (software) accelerator\n";

#[test]
fn parses_standard_output() {
    let s = parse_accel_help(SAMPLE);
    assert!(s.supports("kvm"));
    assert!(s.supports("whpx"));
    assert!(s.supports("tcg"));
    assert!(!s.supports("xen"));
}

#[test]
fn empty_output_supports_nothing() {
    let s = parse_accel_help("");
    assert!(!s.supports("tcg"));
}

#[test]
fn auto_on_windows_prefers_whpx_when_present() {
    let s = parse_accel_help(SAMPLE);
    assert_eq!(effective(Accel::Auto, &s, HostOs::Windows, false), Accel::Whpx);
}

#[test]
fn explicit_accel_passthrough() {
    let s = parse_accel_help("");
    assert_eq!(effective(Accel::Tcg, &s, HostOs::Linux, true), Accel::Tcg);
}

#[test]
fn header_line_is_not_an_accelerator() {
    let s = parse_accel_help(SAMPLE);
    assert!(!s.supports("accelerators supported by qemu binary"));
    assert!(!s.supports(""));
}

#[test]
fn tokens_are_lowercased_and_crlf_is_handled() {
    let s = parse_accel_help("KVM\r\nTCG: software\r\n");
    assert!(s.supports("kvm"));
    assert!(s.supports("tcg"));
    assert!(!s.supports("KVM"));
}

#[test]
fn long_or_punctuated_tokens_are_rejected() {
    let s = parse_accel_help("abcdefghijklmnopq\nabcdefghijklmnop\nhv-x\n");
    assert!(!s.supports("abcdefghijklmnopq"));
    assert!(s.supports("abcdefghijklmnop"));
    assert!(!s.supports("hv-x"));
}

#[test]
fn auto_on_linux_needs_device_and_support() {
    let s = parse_accel_help(SAMPLE);
    assert_eq!(effective(Accel::Auto, &s, HostOs::Linux, true), Accel::Kvm);
    assert_eq!(effective(Accel::Auto, &s, HostOs::Linux, false), Accel::Tcg);
    let none = AccelSupport::default();
    assert_eq!(effective(Accel::Auto, &none, HostOs::Linux, true), Accel::Tcg);
    assert_eq!(effective(Accel::Auto, &none, HostOs::Windows, true), Accel::Tcg);
    assert_eq!(effective(Accel::Auto, &s, HostOs::Other, true), Accel::Tcg);
}

#[test]
fn clone_keeps_the_accelerators() {
    let s = parse_accel_help(SAMPLE).clone();
    assert!(s.supports("whpx"));
}

#[test]
fn tokens_are_trimmed_and_lower_cased() {
    let s = parse_accel_help("  KVM\n\tTcg : software\nnot an accel: x\nabcdefghijklmnopq\n:\n");
    assert!(s.supports("kvm"));
    assert!(s.supports("tcg"));
    assert!(!s.supports("KVM"));
    assert!(!s.supports("not an accel"));
    assert!(!s.supports("abcdefghijklmnopq"));
    assert!(!s.supports(""));
}

#[test]
fn accelerators_from_a_run() {
    use_support(support_from_run(None), &[]);
    let s = support_from_run(Some(("Accelerators supported in QEMU binary:\nkvm\n".into(), "tcg\n".into())));
    use_support(s, &["kvm", "tcg"]);
}

fn use_support(s: AccelSupport, expected: &[&str]) {
    for a in ["kvm", "tcg", "whpx"] {
        assert_eq!(s.supports(a), expected.contains(&a));
    }
}
