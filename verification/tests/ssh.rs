use easy_qemu_core::ssh::{build_ssh_args, check_target, terminal_args, SshConfig};

#[test]
fn ssh_args_shape() {
    let cfg = SshConfig { host: "127.0.0.1".into(), port: 2222, user: "root".into() };
    let args = build_ssh_args(&cfg);
    assert_eq!(
        args,
        vec!["-p", "2222", "-o", "StrictHostKeyChecking=accept-new", "root@127.0.0.1"]
    );
}

#[test]
fn default_config_is_local_root_22() {
    let cfg = SshConfig::default();
    assert_eq!(cfg.host, "127.0.0.1");
    assert_eq!(cfg.port, 22);
    assert_eq!(cfg.user, "root");
}

#[test]
fn launch_rejects_empty_fields() {
    let cfg = SshConfig { host: String::new(), port: 22, user: "root".into() };
    assert!(check_target(&cfg).is_err());
    let blank = SshConfig { host: "h".into(), port: 22, user: "  ".into() };
    assert!(check_target(&blank).is_err());
    assert!(check_target(&SshConfig::default()).is_ok());
}

#[test]
fn terminal_runs_ssh_with_port_and_target() {
    let cfg = SshConfig { host: "10.0.0.2".into(), port: 2200, user: "me".into() };
    assert_eq!(terminal_args(0, &cfg), vec!["--", "ssh", "-p", "2200", "me@10.0.0.2"]);
    assert_eq!(terminal_args(4, &cfg), vec!["-e", "ssh", "-p", "2200", "me@10.0.0.2"]);
}
