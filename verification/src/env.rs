//! Host environment probe: resolved QEMU binaries and supported accelerators,
//! for the settings screen and the status bar.

use vstd::prelude::*;

use crate::accel::{AccelSupport, HostOs};
use crate::config::Config;
use crate::paths::opt_view;
use crate::paths::{is_file, path_exists};
use crate::qemu::{answers_by, pick_binary_spec, resolve_binary_with, resolve_by, ResolveFault};
use crate::text::{push_str_arg, string_views};

verus! {

#[derive(Debug)]
pub struct EnvProbe {
    /// Resolved path to qemu-system-x86_64, if found.
    pub qemu_system: Option<String>,
    /// Resolved path to qemu-img, if found.
    pub qemu_img: Option<String>,
    /// Accelerators supported by the QEMU binary (subset of kvm/whpx/tcg), sorted.
    pub accels: Vec<String>,
}

impl Clone for EnvProbe {
    fn clone(&self) -> (r: EnvProbe)
        ensures
            r.qemu_system == self.qemu_system,
            r.qemu_img == self.qemu_img,
            r.accels@ == self.accels@,
    {
        let accels = self.accels.clone();
        assert(accels@ =~= self.accels@);
        EnvProbe { qemu_system: self.qemu_system.clone(), qemu_img: self.qemu_img.clone(), accels }
    }
}

/// The known accelerators among `supported`, in sorted order.
pub open spec fn known_accels(supported: Set<Seq<char>>) -> Seq<Seq<char>> {
    let k = if supported.contains("kvm"@) { seq!["kvm"@] } else { Seq::empty() };
    let t = if supported.contains("tcg"@) { seq!["tcg"@] } else { Seq::empty() };
    let w = if supported.contains("whpx"@) { seq!["whpx"@] } else { Seq::empty() };
    k + t + w
}

/// The probe result for the resolved binaries; `support` is what the
/// system binary reported (only consulted when it was found).
pub fn probe(qemu_system: Option<String>, qemu_img: Option<String>, support: &AccelSupport) -> (r:
    EnvProbe)
    ensures
        r.qemu_system == qemu_system,
        r.qemu_img == qemu_img,
        string_views(r.accels@) == if qemu_system is Some {
            known_accels(support.names())
        } else {
            Seq::empty()
        },
{
    let mut accels: Vec<String> = Vec::new();
    assert(string_views(accels@) =~= Seq::<Seq<char>>::empty());
    if qemu_system.is_some() {
        let ghost names = support.names();
        if support.supports("kvm") {
            push_str_arg(&mut accels, "kvm");
        }
        assert(string_views(accels@) =~= (if names.contains("kvm"@) { seq!["kvm"@] } else { Seq::<Seq<char>>::empty() }));
        let ghost a1 = string_views(accels@);
        if support.supports("tcg") {
            push_str_arg(&mut accels, "tcg");
        }
        assert(string_views(accels@) =~= a1 + (if names.contains("tcg"@) { seq!["tcg"@] } else { Seq::<Seq<char>>::empty() }));
        let ghost a2 = string_views(accels@);
        if support.supports("whpx") {
            push_str_arg(&mut accels, "whpx");
        }
        assert(string_views(accels@) =~= a2 + (if names.contains("whpx"@) { seq!["whpx"@] } else { Seq::<Seq<char>>::empty() }));
    }
    EnvProbe { qemu_system, qemu_img, accels }
}

/// The path of a found binary, none when the lookup failed.
pub open spec fn found_path(r: Result<Seq<char>, ResolveFault>) -> Option<Seq<char>> {
    match r {
        Ok(p) => Some(p),
        Err(_) => None,
    }
}

/// The settings screen's binaries, asking `exists_at` and `file_at` what is
/// on disk: `qemu-system-x86_64` and `qemu-img`, each looked up as
/// [`resolve_binary_with`] does with the configured path (if any), the `PATH`
/// directories `path_dirs` and the host `os`; none where the lookup failed.
/// Whatever is on disk, each is exactly what the lookup finds there.
pub fn find_binaries_with<E: Fn(&str) -> bool + Copy, F: Fn(&str) -> bool + Copy>(
    cfg: &Config,
    path_dirs: &Vec<String>,
    os: HostOs,
    exists_at: E,
    file_at: F,
) -> (r: (Option<String>, Option<String>))
    requires
        forall|s: &str| #[trigger] call_requires(exists_at, (s,)),
        forall|s: &str| #[trigger] call_requires(file_at, (s,)),
    ensures
        forall|pe: spec_fn(Seq<char>) -> bool, pf: spec_fn(Seq<char>) -> bool|
            #![trigger answers_by(exists_at, pe), answers_by(file_at, pf)]
            answers_by(exists_at, pe) && answers_by(file_at, pf) ==> {
                &&& opt_view(r.0) == found_path(
                    resolve_by(
                        "qemu-system-x86_64"@,
                        opt_view(cfg.qemu_binary),
                        string_views(path_dirs@),
                        os,
                        pe,
                        pf,
                    ),
                )
                &&& opt_view(r.1) == found_path(
                    resolve_by(
                        "qemu-img"@,
                        opt_view(cfg.qemu_img),
                        string_views(path_dirs@),
                        os,
                        pe,
                        pf,
                    ),
                )
            },
        exists|e: bool, d: Seq<bool>, p: bool|
            opt_view(r.0) == found_path(
                #[trigger] pick_binary_spec(
                    "qemu-system-x86_64"@,
                    opt_view(cfg.qemu_binary),
                    string_views(path_dirs@),
                    os,
                    e,
                    d,
                    p,
                ),
            ),
        exists|e: bool, d: Seq<bool>, p: bool|
            opt_view(r.1) == found_path(
                #[trigger] pick_binary_spec(
                    "qemu-img"@,
                    opt_view(cfg.qemu_img),
                    string_views(path_dirs@),
                    os,
                    e,
                    d,
                    p,
                ),
            ),
{
    let sys = match resolve_binary_with(
        "qemu-system-x86_64",
        &cfg.qemu_binary,
        path_dirs,
        os,
        exists_at,
        file_at,
    ) {
        Ok(p) => Some(p),
        Err(_) => None,
    };
    let img = match resolve_binary_with("qemu-img", &cfg.qemu_img, path_dirs, os, exists_at, file_at) {
        Ok(p) => Some(p),
        Err(_) => None,
    };
    (sys, img)
}

/// The settings screen's binaries on disk: [`find_binaries_with`] asking
/// `Path::exists` and `Path::is_file`.
pub fn find_binaries(cfg: &Config, path_dirs: &Vec<String>, os: HostOs) -> (r: (
    Option<String>,
    Option<String>,
))
    ensures
        exists|e: bool, d: Seq<bool>, p: bool|
            opt_view(r.0) == found_path(
                #[trigger] pick_binary_spec(
                    "qemu-system-x86_64"@,
                    opt_view(cfg.qemu_binary),
                    string_views(path_dirs@),
                    os,
                    e,
                    d,
                    p,
                ),
            ),
        exists|e: bool, d: Seq<bool>, p: bool|
            opt_view(r.1) == found_path(
                #[trigger] pick_binary_spec(
                    "qemu-img"@,
                    opt_view(cfg.qemu_img),
                    string_views(path_dirs@),
                    os,
                    e,
                    d,
                    p,
                ),
            ),
{
    find_binaries_with(cfg, path_dirs, os, |p: &str| path_exists(p), |p: &str| is_file(p))
}

} // verus!
