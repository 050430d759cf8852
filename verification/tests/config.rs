use easy_qemu_core::config::{base_under, default_base, Config, ConfigSource, LoadedConfig};

#[test]
fn missing_file_no_warnings() {
    let loaded = LoadedConfig::from_source(ConfigSource::Missing);
    assert!(loaded.warnings.is_empty());
    assert_eq!(loaded.config, Config::default());
}

#[test]
fn broken_toml_yields_warning_and_default() {
    let loaded = LoadedConfig::from_source(ConfigSource::ParseFailed { reason: "expected `=`".into() });
    assert_eq!(loaded.config, Config::default());
    assert_eq!(loaded.warnings.len(), 1);
    assert!(loaded.warnings[0].contains("config.toml"));
    assert_eq!(loaded.warnings[0], "Failed to parse config.toml (expected `=`); using default values");
}

#[test]
fn unreadable_file_yields_warning() {
    let loaded = LoadedConfig::from_source(ConfigSource::ReadFailed { reason: "denied".into() });
    assert_eq!(loaded.warnings, vec!["Failed to read config.toml: denied"]);
}

#[test]
fn parsed_config_is_kept() {
    let cfg = Config { vnc_bind: Some("127.0.0.1".into()), theme: Some("dark".into()), ..Config::default() };
    let loaded = LoadedConfig::from_source(ConfigSource::Parsed(cfg.clone()));
    assert!(loaded.warnings.is_empty());
    assert_eq!(loaded.config.vnc_bind.as_deref(), Some("127.0.0.1"));
    assert_eq!(loaded.config, cfg);
}

#[test]
fn defaults_of_settings() {
    let cfg = Config::default();
    assert_eq!(cfg.vnc_bind(), "127.0.0.1");
    assert_eq!(cfg.storage_dir("/b"), "/b/disks");
    assert_eq!(Config::path("/b"), "/b/config.toml");
    let set = Config { vnc_bind: Some("0.0.0.0".into()), storage_dir: Some("/s".into()), ..Config::default() };
    assert_eq!(set.vnc_bind(), "0.0.0.0");
    assert_eq!(set.storage_dir("/b"), "/s");
}

#[test]
fn base_directory() {
    assert_eq!(base_under(Some("/home/a/.config".into())), "/home/a/.config/easy-qemu");
    assert_eq!(base_under(None), ".easy-qemu");
    assert!(default_base().ends_with("easy-qemu"));
}

#[test]
fn logs_go_to_the_storage_directory() {
    let cfg = Config::default();
    assert_eq!(cfg.log_path("/base", "vm1"), "/base/disks/vm1.log");
    let cfg = Config { storage_dir: Some("/big".into()), ..Config::default() };
    assert_eq!(cfg.log_path("/base", "vm1"), "/big/vm1.log");
}
