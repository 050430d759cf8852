//! Manager settings (`config.toml`) and the base directory.

use vstd::prelude::*;

use crate::paths::{opt_view, path_join, path_join_spec};
use crate::store::{log_file, log_file_spec};
use crate::text::append_str;

verus! {

/// Manager settings; unset fields fall back to defaults.
#[derive(PartialEq, Eq, Debug)]
pub struct Config {
    pub qemu_binary: Option<String>,
    pub qemu_img: Option<String>,
    pub storage_dir: Option<String>,
    pub vnc_bind: Option<String>,
    pub theme: Option<String>,
}

impl Clone for Config {
    fn clone(&self) -> (r: Config)
        ensures
            r == *self,
    {
        Config {
            qemu_binary: self.qemu_binary.clone(),
            qemu_img: self.qemu_img.clone(),
            storage_dir: self.storage_dir.clone(),
            vnc_bind: self.vnc_bind.clone(),
            theme: self.theme.clone(),
        }
    }
}

impl Default for Config {
    fn default() -> (r: Config)
        ensures
            r.qemu_binary is None,
            r.qemu_img is None,
            r.storage_dir is None,
            r.vnc_bind is None,
            r.theme is None,
    {
        Config { qemu_binary: None, qemu_img: None, storage_dir: None, vnc_bind: None, theme: None }
    }
}

/// Settings and the warnings about the settings file (shown in the UI).
pub struct LoadedConfig {
    pub config: Config,
    pub warnings: Vec<String>,
}

/// What reading `config.toml` gave.
pub enum ConfigSource {
    /// There is no such file.
    Missing,
    ReadFailed { reason: String },
    ParseFailed { reason: String },
    Parsed(Config),
}

impl Config {
    pub open spec fn path_spec(base: Seq<char>) -> Seq<char> {
        path_join_spec(base, "config.toml"@)
    }

    /// `config.toml` under `base`.
    pub fn path(base: &str) -> (r: String)
        ensures
            r@ == Self::path_spec(base@),
    {
        path_join(base, "config.toml")
    }

    /// The address VNC listens on (loopback unless configured).
    pub fn vnc_bind(&self) -> (r: String)
        ensures
            r@ == match self.vnc_bind {
                Some(b) => b@,
                None => "127.0.0.1"@,
            },
    {
        match &self.vnc_bind {
            Some(b) => b.clone(),
            None => String::from_str("127.0.0.1"),
        }
    }

    /// Where new disks go: the configured directory, else `disks` under `base`.
    pub open spec fn storage_dir_spec(self, base: Seq<char>) -> Seq<char> {
        match self.storage_dir {
            Some(d) => d@,
            None => path_join_spec(base, "disks"@),
        }
    }

    pub fn storage_dir(&self, base: &str) -> (r: String)
        ensures
            r@ == self.storage_dir_spec(base@),
    {
        match &self.storage_dir {
            Some(d) => d.clone(),
            None => path_join(base, "disks"),
        }
    }

    /// The log of VM `id`: `<id>.log` in the storage directory, with the disks.
    pub fn log_path(&self, base: &str, id: &str) -> (r: String)
        ensures
            r@ == log_file_spec(self.storage_dir_spec(base@), id@),
    {
        let dir = self.storage_dir(base);
        log_file(dir.as_str(), id)
    }
}

impl LoadedConfig {
    /// The settings to run with: those parsed, else the defaults with one
    /// warning naming `config.toml` (no warning when the file is missing).
    pub fn from_source(source: ConfigSource) -> (r: LoadedConfig)
        ensures
            match source {
                ConfigSource::Parsed(c) => r.config == c && r.warnings@.len() == 0,
                ConfigSource::Missing => r.config == Config::default_spec() && r.warnings@.len() == 0,
                ConfigSource::ReadFailed { reason } => {
                    &&& r.config == Config::default_spec()
                    &&& r.warnings@.len() == 1
                    &&& r.warnings@[0]@ == "Failed to read config.toml: "@ + reason@
                },
                ConfigSource::ParseFailed { reason } => {
                    &&& r.config == Config::default_spec()
                    &&& r.warnings@.len() == 1
                    &&& r.warnings@[0]@ == "Failed to parse config.toml ("@ + reason@
                        + "); using default values"@
                },
            },
    {
        match source {
            ConfigSource::Parsed(c) => LoadedConfig { config: c, warnings: Vec::new() },
            ConfigSource::Missing => LoadedConfig { config: Config::default(), warnings: Vec::new() },
            ConfigSource::ReadFailed { reason } => {
                let mut m = String::from_str("Failed to read config.toml: ");
                append_str(&mut m, reason.as_str());
                let mut warnings = Vec::new();
                warnings.push(m);
                LoadedConfig { config: Config::default(), warnings }
            },
            ConfigSource::ParseFailed { reason } => {
                let mut m = String::from_str("Failed to parse config.toml (");
                append_str(&mut m, reason.as_str());
                append_str(&mut m, "); using default values");
                let mut warnings = Vec::new();
                warnings.push(m);
                LoadedConfig { config: Config::default(), warnings }
            },
        }
    }
}

impl Config {
    /// The defaults: nothing set.
    pub open spec fn default_spec() -> Config {
        Config { qemu_binary: None, qemu_img: None, storage_dir: None, vnc_bind: None, theme: None }
    }
}

/// `dirs::config_dir`: the user's configuration directory, when one is
/// known. It depends on the environment (`XDG_CONFIG_HOME`, `HOME`, the
/// platform), so nothing is promised of it.
#[verifier::external_body]
fn config_dir() -> Option<String> {
    dirs::config_dir().map(|p| p.to_string_lossy().into_owned())
}

/// `easy-qemu` under the configuration directory, else `.easy-qemu`.
pub open spec fn base_spec(config_dir: Option<Seq<char>>) -> Seq<char> {
    match config_dir {
        Some(d) => path_join_spec(d, "easy-qemu"@),
        None => ".easy-qemu"@,
    }
}

pub fn base_under(config_dir: Option<String>) -> (r: String)
    ensures
        r@ == base_spec(opt_view(config_dir)),
{
    match config_dir {
        Some(d) => path_join(d.as_str(), "easy-qemu"),
        None => String::from_str(".easy-qemu"),
    }
}

/// The manager's base directory (settings, records, logs).
pub fn default_base() -> (r: String)
    ensures
        r@ == ".easy-qemu"@ || exists|d: Seq<char>| r@ == path_join_spec(d, "easy-qemu"@),
{
    let d = config_dir();
    let ghost dv = opt_view(d);
    let r = base_under(d);
    proof {
        if let Some(x) = dv {
            assert(r@ == path_join_spec(x, "easy-qemu"@));
        }
    }
    r
}

} // verus!
