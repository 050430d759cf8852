//! QEMU command lines and the files around a running QEMU: binaries,
//! UEFI firmware, pidfile and log.

use vstd::prelude::*;

use crate::accel::HostOs;
use crate::paths::{is_file, parent_or_current, parent_or_dot, path_exists, path_join, path_join_spec};
use crate::text::{
    append_decimal, append_str, chars_of, decimal, push_arg, push_char, push_str_arg, string_of,
    string_views, trim, trim_chars,
};
use crate::vm::{
    opt_str_view, Accel, CpuModel, DisplayMode, Firmware, HostFwd, MachineType, NetMode, NetModel, Vm,
};

verus! {

/// The QEMU pidfile of `vm`.
pub fn pidfile_path_for(vm: &Vm) -> (r: String)
    ensures
        r@ == vm.pidfile_spec(),
{
    vm.pidfile_path()
}

/// Why the UEFI firmware could not be set up.
pub enum UefiError {
    OvmfNotFound,
    VarsCopyFailed { reason: String },
}

pub enum UefiFault {
    OvmfNotFound,
    VarsCopyFailed { reason: Seq<char> },
}

impl View for UefiError {
    type V = UefiFault;

    open spec fn view(&self) -> UefiFault {
        match self {
            UefiError::OvmfNotFound => UefiFault::OvmfNotFound,
            UefiError::VarsCopyFailed { reason } => UefiFault::VarsCopyFailed { reason: reason@ },
        }
    }
}

impl UefiFault {
    pub open spec fn message_spec(self) -> Seq<char> {
        match self {
            UefiFault::OvmfNotFound => "UEFI запрошен, но OVMF не найден (OVMF_CODE.fd / OVMF_VARS.fd)."@,
            UefiFault::VarsCopyFailed { reason } => "Не удалось скопировать OVMF VARS: "@ + reason,
        }
    }
}

impl UefiError {
    pub fn message(&self) -> (r: String)
        ensures
            r@ == self@.message_spec(),
    {
        match self {
            UefiError::OvmfNotFound => String::from_str(
                "UEFI запрошен, но OVMF не найден (OVMF_CODE.fd / OVMF_VARS.fd).",
            ),
            UefiError::VarsCopyFailed { reason } => {
                let mut s = String::from_str("Не удалось скопировать OVMF VARS: ");
                append_str(&mut s, reason.as_str());
                s
            },
        }
    }
}

/// The range of VNC displays QEMU may try after the preferred one.
pub const VNC_PORT_SEARCH_RANGE: u16 = 20;

/// `,model=<m>` when the card model is explicit.
pub open spec fn model_part(m: NetModel) -> Seq<char> {
    match m.qemu_model_spec() {
        Some(s) => ",model="@ + s,
        None => Seq::empty(),
    }
}

/// `,hostfwd=...` for each forwarding rule, in order.
pub open spec fn fwd_parts(hf: Seq<HostFwd>) -> Seq<char>
    decreases hf.len(),
{
    if hf.len() == 0 {
        Seq::empty()
    } else {
        fwd_parts(hf.drop_last()).push(',') + hf.last().fragment_spec()
    }
}

/// The value of `-nic`.
pub open spec fn nic_spec(vm: Vm) -> Seq<char> {
    match vm.net_mode {
        NetMode::Nat => "user"@ + model_part(vm.net_model) + fwd_parts(vm.hostfwd@),
        NetMode::Bridged => "tap"@ + model_part(vm.net_model),
        NetMode::Off => "none"@,
    }
}

/// Name, memory, vCPUs, disk and network.
pub open spec fn base_args(vm: Vm) -> Seq<Seq<char>> {
    seq![
        "-name"@,
        vm.name@,
        "-m"@,
        decimal(vm.memory_mb as nat),
        "-smp"@,
        decimal(vm.cpus as nat),
        "-drive"@,
        "file="@ + vm.disk_path@ + ",if=virtio,format=qcow2"@,
        "-nic"@,
        nic_spec(vm),
    ]
}

pub open spec fn machine_args(m: MachineType) -> Seq<Seq<char>> {
    match m.qemu_flag_spec() {
        Some(f) => seq!["-machine"@, f],
        None => Seq::empty(),
    }
}

/// `-cpu host` is valid only under KVM; elsewhere `max` stands in for it.
pub open spec fn cpu_args(cpu: CpuModel, accel: Accel) -> Seq<Seq<char>> {
    match cpu {
        CpuModel::Auto => Seq::empty(),
        CpuModel::Max => seq!["-cpu"@, "max"@],
        CpuModel::Host => seq![
            "-cpu"@,
            if accel == Accel::Kvm {
                "host"@
            } else {
                "max"@
            },
        ],
    }
}

pub open spec fn accel_args(accel: Accel) -> Seq<Seq<char>> {
    match accel {
        Accel::Kvm => seq!["-enable-kvm"@],
        Accel::Whpx => seq!["-accel"@, "whpx"@],
        Accel::Tcg => seq!["-accel"@, "tcg"@],
        _ => Seq::empty(),
    }
}

/// The VNC display QEMU starts its search from.
pub open spec fn vnc_start(vm: Vm) -> u16 {
    match vm.vnc_display {
        Some(d) => d,
        None => 0,
    }
}

pub open spec fn display_args(vm: Vm, vnc_bind: Seq<char>) -> Seq<Seq<char>> {
    match vm.display {
        DisplayMode::Headless => seq!["-display"@, "none"@],
        DisplayMode::Vnc => seq![
            "-vnc"@,
            vnc_bind + ":"@ + decimal(vnc_start(vm) as nat) + ",to="@ + decimal(
                VNC_PORT_SEARCH_RANGE as nat,
            ),
        ],
        DisplayMode::Gtk => seq!["-display"@, "gtk"@],
        DisplayMode::Sdl => seq!["-display"@, "sdl"@],
    }
}

pub open spec fn uefi_args(code: Seq<char>, vars: Seq<char>) -> Seq<Seq<char>> {
    seq![
        "-drive"@,
        "if=pflash,format=raw,readonly=on,file="@ + code,
        "-drive"@,
        "if=pflash,format=raw,file="@ + vars,
    ]
}

pub open spec fn iso_args(vm: Vm) -> Seq<Seq<char>> {
    match vm.iso {
        Some(p) => seq!["-cdrom"@, p@, "-boot"@, "d"@],
        None => Seq::empty(),
    }
}

/// QMP socket, monitor and pidfile.
pub open spec fn control_args(vm: Vm, qmp_port: u16) -> Seq<Seq<char>> {
    seq![
        "-chardev"@,
        "socket,host=127.0.0.1,port="@ + decimal(qmp_port as nat) + ",server=on,wait=off,id=qmp0"@,
        "-mon"@,
        "chardev=qmp0,mode=control"@,
        "-pidfile"@,
        vm.pidfile_spec(),
    ]
}

/// `-daemonize` is passed on Linux only.
pub open spec fn daemon_args(daemonize: bool, os: HostOs) -> Seq<Seq<char>> {
    if daemonize && os == HostOs::Linux {
        seq!["-daemonize"@]
    } else {
        Seq::empty()
    }
}

/// A UEFI VM boots from the OVMF code image `ovmf_code` and its own copy of
/// the variable store, `<id>-vars.fd` next to its disk.
pub open spec fn firmware_args(vm: Vm, ovmf_code: Option<Seq<char>>) -> Seq<Seq<char>> {
    match (vm.firmware, ovmf_code) {
        (Firmware::Uefi, Some(code)) => uefi_args(code, uefi_vars_spec(vm)),
        _ => Seq::empty(),
    }
}

/// The QEMU command line of `vm`, when it can be built: a UEFI VM needs the
/// OVMF code image (`ovmf_code`).
pub open spec fn qemu_args_spec(
    vm: Vm,
    qmp_port: u16,
    vnc_bind: Seq<char>,
    accel: Accel,
    daemonize: bool,
    ovmf_code: Option<Seq<char>>,
    os: HostOs,
) -> Option<Seq<Seq<char>>> {
    if vm.firmware == Firmware::Uefi && ovmf_code is None {
        None
    } else {
        Some(
            base_args(vm) + machine_args(vm.machine) + cpu_args(vm.cpu, accel) + accel_args(accel)
                + display_args(vm, vnc_bind) + firmware_args(vm, ovmf_code) + iso_args(vm)
                + control_args(vm, qmp_port) + daemon_args(daemonize, os),
        )
    }
}

/// The `-nic` value of `vm`.
fn nic_arg(vm: &Vm) -> (r: String)
    ensures
        r@ == nic_spec(*vm),
{
    match vm.net_mode {
        NetMode::Nat => {
            let mut nic = String::from_str("user");
            if let Some(m) = vm.net_model.qemu_model() {
                append_str(&mut nic, ",model=");
                append_str(&mut nic, m);
            }
            let ghost head = nic@;
            for i in 0..vm.hostfwd.len()
                invariant
                    nic@ == head + fwd_parts(vm.hostfwd@.take(i as int)),
            {
                assert(vm.hostfwd@.take(i + 1).drop_last() == vm.hostfwd@.take(i as int));
                push_char(&mut nic, ',');
                let frag = vm.hostfwd[i].qemu_fragment();
                append_str(&mut nic, frag.as_str());
            }
            assert(vm.hostfwd@.take(vm.hostfwd@.len() as int) == vm.hostfwd@);
            nic
        },
        NetMode::Bridged => {
            let mut nic = String::from_str("tap");
            if let Some(m) = vm.net_model.qemu_model() {
                append_str(&mut nic, ",model=");
                append_str(&mut nic, m);
            }
            nic
        },
        NetMode::Off => String::from_str("none"),
    }
}

fn add_base(a: &mut Vec<String>, vm: &Vm)
    ensures
        string_views(final(a)@) == string_views(old(a)@) + base_args(*vm),
{
    let ghost before = string_views(a@);
    push_str_arg(a, "-name");
    push_arg(a, vm.name.clone());
    push_str_arg(a, "-m");
    let mut mem = String::new();
    append_decimal(&mut mem, vm.memory_mb as u64);
    push_arg(a, mem);
    push_str_arg(a, "-smp");
    let mut cpus = String::new();
    append_decimal(&mut cpus, vm.cpus as u64);
    push_arg(a, cpus);
    push_str_arg(a, "-drive");
    let mut drive = String::from_str("file=");
    append_str(&mut drive, vm.disk_path.as_str());
    append_str(&mut drive, ",if=virtio,format=qcow2");
    push_arg(a, drive);
    push_str_arg(a, "-nic");
    push_arg(a, nic_arg(vm));
    assert(string_views(a@) =~= before + base_args(*vm));
}

fn add_machine(a: &mut Vec<String>, m: MachineType)
    ensures
        string_views(final(a)@) == string_views(old(a)@) + machine_args(m),
{
    let ghost before = string_views(a@);
    if let Some(flag) = m.qemu_flag() {
        push_str_arg(a, "-machine");
        push_str_arg(a, flag);
    }
    assert(string_views(a@) =~= before + machine_args(m));
}

fn add_cpu(a: &mut Vec<String>, cpu: CpuModel, accel: Accel)
    ensures
        string_views(final(a)@) == string_views(old(a)@) + cpu_args(cpu, accel),
{
    let ghost before = string_views(a@);
    match cpu {
        CpuModel::Auto => {},
        CpuModel::Max => {
            push_str_arg(a, "-cpu");
            push_str_arg(a, "max");
        },
        CpuModel::Host => {
            let model = if accel == Accel::Kvm {
                "host"
            } else {
                "max"
            };
            push_str_arg(a, "-cpu");
            push_str_arg(a, model);
        },
    }
    assert(string_views(a@) =~= before + cpu_args(cpu, accel));
}

fn add_accel(a: &mut Vec<String>, accel: Accel)
    ensures
        string_views(final(a)@) == string_views(old(a)@) + accel_args(accel),
{
    let ghost before = string_views(a@);
    match accel {
        Accel::Kvm => push_str_arg(a, "-enable-kvm"),
        Accel::Whpx => {
            push_str_arg(a, "-accel");
            push_str_arg(a, "whpx");
        },
        Accel::Tcg => {
            push_str_arg(a, "-accel");
            push_str_arg(a, "tcg");
        },
        Accel::Auto | Accel::Off => {},
    }
    assert(string_views(a@) =~= before + accel_args(accel));
}

fn add_display(a: &mut Vec<String>, vm: &Vm, vnc_bind: &str)
    ensures
        string_views(final(a)@) == string_views(old(a)@) + display_args(*vm, vnc_bind@),
{
    let ghost before = string_views(a@);
    match vm.display {
        DisplayMode::Headless => {
            push_str_arg(a, "-display");
            push_str_arg(a, "none");
        },
        DisplayMode::Vnc => {
            let start: u16 = match vm.vnc_display {
                Some(d) => d,
                None => 0,
            };
            push_str_arg(a, "-vnc");
            let mut v = String::from_str(vnc_bind);
            append_str(&mut v, ":");
            append_decimal(&mut v, start as u64);
            append_str(&mut v, ",to=");
            append_decimal(&mut v, VNC_PORT_SEARCH_RANGE as u64);
            push_arg(a, v);
        },
        DisplayMode::Gtk => {
            push_str_arg(a, "-display");
            push_str_arg(a, "gtk");
        },
        DisplayMode::Sdl => {
            push_str_arg(a, "-display");
            push_str_arg(a, "sdl");
        },
    }
    assert(string_views(a@) =~= before + display_args(*vm, vnc_bind@));
}

fn add_uefi(a: &mut Vec<String>, ovmf_code: &str, vm: &Vm)
    ensures
        string_views(final(a)@) == string_views(old(a)@) + uefi_args(ovmf_code@, uefi_vars_spec(*vm)),
{
    let ghost before = string_views(a@);
    push_str_arg(a, "-drive");
    let mut code = String::from_str("if=pflash,format=raw,readonly=on,file=");
    append_str(&mut code, ovmf_code);
    push_arg(a, code);
    push_str_arg(a, "-drive");
    let mut vars = String::from_str("if=pflash,format=raw,file=");
    let vars_path = uefi_vars_path(vm);
    append_str(&mut vars, vars_path.as_str());
    push_arg(a, vars);
    assert(string_views(a@) =~= before + uefi_args(ovmf_code@, uefi_vars_spec(*vm)));
}

fn add_iso(a: &mut Vec<String>, vm: &Vm)
    ensures
        string_views(final(a)@) == string_views(old(a)@) + iso_args(*vm),
{
    let ghost before = string_views(a@);
    if let Some(iso) = &vm.iso {
        push_str_arg(a, "-cdrom");
        push_arg(a, iso.clone());
        push_str_arg(a, "-boot");
        push_str_arg(a, "d");
    }
    assert(string_views(a@) =~= before + iso_args(*vm));
}

fn add_control(a: &mut Vec<String>, vm: &Vm, qmp_port: u16)
    ensures
        string_views(final(a)@) == string_views(old(a)@) + control_args(*vm, qmp_port),
{
    let ghost before = string_views(a@);
    push_str_arg(a, "-chardev");
    let mut sock = String::from_str("socket,host=127.0.0.1,port=");
    append_decimal(&mut sock, qmp_port as u64);
    append_str(&mut sock, ",server=on,wait=off,id=qmp0");
    push_arg(a, sock);
    push_str_arg(a, "-mon");
    push_str_arg(a, "chardev=qmp0,mode=control");
    push_str_arg(a, "-pidfile");
    push_arg(a, vm.pidfile_path());
    assert(string_views(a@) =~= before + control_args(*vm, qmp_port));
}

/// The QEMU command line that starts `vm` with its QMP monitor on
/// `qmp_port`, VNC bound to `vnc_bind`, the resolved accelerator, and (when
/// asked and on Linux) daemonized. A UEFI VM boots from the OVMF code image
/// `ovmf_code` and its own variable store ([`uefi_vars_path`]); without the
/// code image the line cannot be built.
pub fn build_qemu_args(
    vm: &Vm,
    qmp_port: u16,
    vnc_bind: &str,
    accel_resolved: Accel,
    daemonize: bool,
    ovmf_code: Option<&str>,
    os: HostOs,
) -> (r: Result<Vec<String>, UefiError>)
    ensures
        match r {
            Ok(args) => qemu_args_spec(
                *vm,
                qmp_port,
                vnc_bind@,
                accel_resolved,
                daemonize,
                opt_str_view(ovmf_code),
                os,
            ) == Some(string_views(args@)),
            Err(e) => qemu_args_spec(
                *vm,
                qmp_port,
                vnc_bind@,
                accel_resolved,
                daemonize,
                opt_str_view(ovmf_code),
                os,
            ) is None && e@ == UefiFault::OvmfNotFound,
        },
{
    let mut a: Vec<String> = Vec::new();
    assert(string_views(a@) =~= Seq::<Seq<char>>::empty());
    add_base(&mut a, vm);
    assert(string_views(a@) =~= base_args(*vm));
    add_machine(&mut a, vm.machine);
    add_cpu(&mut a, vm.cpu, accel_resolved);
    add_accel(&mut a, accel_resolved);
    add_display(&mut a, vm, vnc_bind);
    if vm.firmware == Firmware::Uefi {
        match ovmf_code {
            Some(code) => add_uefi(&mut a, code, vm),
            None => return Err(UefiError::OvmfNotFound),
        }
    }
    assert(string_views(a@) == base_args(*vm) + machine_args(vm.machine) + cpu_args(
        vm.cpu,
        accel_resolved,
    ) + accel_args(accel_resolved) + display_args(*vm, vnc_bind@) + firmware_args(
        *vm,
        opt_str_view(ovmf_code),
    )) by {
        if vm.firmware != Firmware::Uefi {
            assert(firmware_args(*vm, opt_str_view(ovmf_code)) =~= Seq::<Seq<char>>::empty());
        }
    }
    add_iso(&mut a, vm);
    add_control(&mut a, vm, qmp_port);
    if daemonize && os == HostOs::Linux {
        push_str_arg(&mut a, "-daemonize");
    }
    Ok(a)
}

} // verus!

verus! {

/// Why a QEMU binary could not be found.
pub enum ResolveError {
    /// The configured path does not exist.
    NotFoundAt { name: String, path: String },
    /// No configured path, and the binary is neither on `PATH` nor installed.
    Missing { name: String },
}

pub enum ResolveFault {
    NotFoundAt { name: Seq<char>, path: Seq<char> },
    Missing { name: Seq<char> },
}

impl View for ResolveError {
    type V = ResolveFault;

    open spec fn view(&self) -> ResolveFault {
        match self {
            ResolveError::NotFoundAt { name, path } => ResolveFault::NotFoundAt {
                name: name@,
                path: path@,
            },
            ResolveError::Missing { name } => ResolveFault::Missing { name: name@ },
        }
    }
}

impl ResolveFault {
    pub open spec fn message_spec(self) -> Seq<char> {
        match self {
            ResolveFault::NotFoundAt { name, path } => "Бинарный файл '"@ + name
                + "' не найден по пути: "@ + path,
            ResolveFault::Missing { name } => "Не удалось найти '"@ + name
                + "'. Добавьте его в PATH или укажите путь в настройках."@,
        }
    }
}

impl ResolveError {
    pub fn message(&self) -> (r: String)
        ensures
            r@ == self@.message_spec(),
    {
        match self {
            ResolveError::NotFoundAt { name, path } => {
                let mut s = String::from_str("Бинарный файл '");
                append_str(&mut s, name.as_str());
                append_str(&mut s, "' не найден по пути: ");
                append_str(&mut s, path.as_str());
                s
            },
            ResolveError::Missing { name } => {
                let mut s = String::from_str("Не удалось найти '");
                append_str(&mut s, name.as_str());
                append_str(&mut s, "'. Добавьте его в PATH или укажите путь в настройках.");
                s
            },
        }
    }
}

/// The file name of an executable on `os`.
pub open spec fn exe_name(name: Seq<char>, os: HostOs) -> Seq<char> {
    if os == HostOs::Windows {
        name + ".exe"@
    } else {
        name
    }
}

/// Where QEMU's Windows installer puts its binaries.
pub open spec fn program_files_candidate(name: Seq<char>) -> Seq<char> {
    path_join_spec("C:\\Program Files\\qemu"@, name)
}

/// `r` is a binary that `resolve_binary` may return for `name`: the
/// configured path, or the binary in one of the `PATH` directories, or (on
/// Windows) in QEMU's installation directory.
pub open spec fn binary_candidate(
    name: Seq<char>,
    override_path: Option<Seq<char>>,
    path_dirs: Seq<Seq<char>>,
    os: HostOs,
    r: Seq<char>,
) -> bool {
    match override_path {
        Some(p) => r == p,
        None => {
            ||| exists|i: int| 0 <= i < path_dirs.len() && r == path_join_spec(path_dirs[i], exe_name(name, os))
            ||| os == HostOs::Windows && r == program_files_candidate(name)
        },
    }
}

/// The first `i` with `from <= i < bound`, `i < answers.len()` and
/// `answers[i]`.
pub open spec fn first_true(answers: Seq<bool>, bound: int, from: int) -> Option<int>
    decreases bound - from,
{
    if from < 0 || from >= bound || from >= answers.len() {
        None
    } else if answers[from] {
        Some(from)
    } else {
        first_true(answers, bound, from + 1)
    }
}

proof fn lemma_first_true_bounds(answers: Seq<bool>, bound: int, from: int)
    ensures
        first_true(answers, bound, from) matches Some(i) ==> from <= i < bound && i
            < answers.len() && answers[i],
    decreases bound - from,
{
    if !(from < 0 || from >= bound || from >= answers.len()) && !answers[from] {
        lemma_first_true_bounds(answers, bound, from + 1);
    }
}

/// The text of a binary lookup's result.
pub open spec fn resolve_view(r: Result<String, ResolveError>) -> Result<Seq<char>, ResolveFault> {
    match r {
        Ok(p) => Ok(p@),
        Err(e) => Err(e@),
    }
}

/// The binary `name` given what the disk answered: with a configured path,
/// that path exactly when it exists; else the candidate in the first `PATH`
/// directory (`path_dirs`) whose answer in `dir_has` is yes; else, on Windows,
/// QEMU's installation directory when `program_files_has`; else not found.
pub open spec fn pick_binary_spec(
    name: Seq<char>,
    override_path: Option<Seq<char>>,
    path_dirs: Seq<Seq<char>>,
    os: HostOs,
    override_exists: bool,
    dir_has: Seq<bool>,
    program_files_has: bool,
) -> Result<Seq<char>, ResolveFault> {
    match override_path {
        Some(p) => if override_exists {
            Ok(p)
        } else {
            Err(ResolveFault::NotFoundAt { name, path: p })
        },
        None => match first_true(dir_has, path_dirs.len() as int, 0) {
            Some(i) => Ok(path_join_spec(path_dirs[i], exe_name(name, os))),
            None => if os == HostOs::Windows && program_files_has {
                Ok(program_files_candidate(name))
            } else {
                Err(ResolveFault::Missing { name })
            },
        },
    }
}

/// Where the binary `name` would be in the directory `dir` on `os`.
fn binary_in(dir: &str, name: &str, os: HostOs) -> (r: String)
    ensures
        r@ == path_join_spec(dir@, exe_name(name@, os)),
{
    let mut exe = String::from_str(name);
    if os == HostOs::Windows {
        append_str(&mut exe, ".exe");
    }
    path_join(dir, exe.as_str())
}

/// Where QEMU's Windows installer puts the binary `name`.
fn program_files_binary(name: &str) -> (r: String)
    ensures
        r@ == program_files_candidate(name@),
{
    path_join("C:\\Program Files\\qemu", name)
}

/// Picks the binary `name` from what the disk answered (see
/// [`pick_binary_spec`]): whether the configured path exists, whether each
/// `PATH` directory holds the executable, in order, and whether QEMU's
/// installation directory holds it.
pub fn pick_binary(
    name: &str,
    override_path: &Option<String>,
    path_dirs: &Vec<String>,
    os: HostOs,
    override_exists: bool,
    dir_has: &[bool],
    program_files_has: bool,
) -> (r: Result<String, ResolveError>)
    ensures
        resolve_view(r) == pick_binary_spec(
            name@,
            crate::paths::opt_view(*override_path),
            string_views(path_dirs@),
            os,
            override_exists,
            dir_has@,
            program_files_has,
        ),
{
    if let Some(p) = override_path {
        if override_exists {
            return Ok(p.clone());
        }
        return Err(ResolveError::NotFoundAt { name: String::from_str(name), path: p.clone() });
    }
    let ghost dirs = string_views(path_dirs@);
    let mut i: usize = 0;
    while i < path_dirs.len() && i < dir_has.len()
        invariant
            i <= path_dirs@.len(),
            override_path is None,
            dirs == string_views(path_dirs@),
            first_true(dir_has@, dirs.len() as int, 0) == first_true(
                dir_has@,
                dirs.len() as int,
                i as int,
            ),
        decreases path_dirs.len() - i,
    {
        if dir_has[i] {
            assert(dirs.len() == path_dirs@.len());
            assert(first_true(dir_has@, dirs.len() as int, i as int) == Some(i as int));
            assert(dirs[i as int] == path_dirs@[i as int]@);
            return Ok(binary_in(path_dirs[i].as_str(), name, os));
        }
        i = i + 1;
    }
    if os == HostOs::Windows && program_files_has {
        return Ok(program_files_binary(name));
    }
    Err(ResolveError::Missing { name: String::from_str(name) })
}

/// For each `PATH` directory, whether `present` holds of the binary there.
pub open spec fn dir_answers(
    present: spec_fn(Seq<char>) -> bool,
    path_dirs: Seq<Seq<char>>,
    name: Seq<char>,
    os: HostOs,
) -> Seq<bool> {
    Seq::new(path_dirs.len(), |i: int| present(path_join_spec(path_dirs[i], exe_name(name, os))))
}

/// What the lookup of `name` gives when `exists_at` holds of the configured
/// path exactly if something is there and `file_at` of a candidate exactly if
/// a file is there.
pub open spec fn resolve_by(
    name: Seq<char>,
    override_path: Option<Seq<char>>,
    path_dirs: Seq<Seq<char>>,
    os: HostOs,
    exists_at: spec_fn(Seq<char>) -> bool,
    file_at: spec_fn(Seq<char>) -> bool,
) -> Result<Seq<char>, ResolveFault> {
    pick_binary_spec(
        name,
        override_path,
        path_dirs,
        os,
        match override_path {
            Some(p) => exists_at(p),
            None => false,
        },
        dir_answers(file_at, path_dirs, name, os),
        file_at(program_files_candidate(name)),
    )
}

/// The lookup picks the first place that holds the binary: the configured
/// path exactly when something is there; without one, the first `PATH`
/// directory whose answer is yes, else (on Windows) QEMU's installation
/// directory, else nothing.
pub proof fn lemma_pick_first_place(
    name: Seq<char>,
    override_path: Option<Seq<char>>,
    path_dirs: Seq<Seq<char>>,
    os: HostOs,
    override_exists: bool,
    dir_has: Seq<bool>,
    program_files_has: bool,
)
    requires
        dir_has.len() == path_dirs.len(),
    ensures
        ({
            let r = pick_binary_spec(
                name,
                override_path,
                path_dirs,
                os,
                override_exists,
                dir_has,
                program_files_has,
            );
            &&& override_path matches Some(p) ==> (r is Ok <==> override_exists) && (r is Ok ==> r
                == Ok::<Seq<char>, ResolveFault>(p))
            &&& override_path is None ==> (forall|k: int|
                0 <= k < dir_has.len() && dir_has[k] && (forall|j: int| 0 <= j < k ==> !dir_has[j])
                    ==> r == Ok::<Seq<char>, ResolveFault>(
                    path_join_spec(path_dirs[k], exe_name(name, os)),
                ))
            &&& (override_path is None && forall|k: int| 0 <= k < dir_has.len() ==> !dir_has[k]) ==> (
            r is Ok <==> os == HostOs::Windows && program_files_has)
        }),
{
    let n = dir_has.len() as int;
    if override_path is None {
        assert forall|k: int|
            0 <= k < n && dir_has[k] && (forall|j: int| 0 <= j < k ==> !dir_has[j]) implies first_true(
            dir_has,
            n,
            0,
        ) == Some(k) by {
            lemma_first_true_skip(dir_has, n, 0, k);
        }
        if forall|k: int| 0 <= k < n ==> !dir_has[k] {
            lemma_first_true_skip(dir_has, n, 0, n);
        }
    }
}

/// Without a configured path, a binary that some `PATH` directory holds is
/// found, in the first directory that holds it; with one, the configured path
/// is found exactly when something is there.
pub proof fn lemma_resolve_by_first_place(
    name: Seq<char>,
    override_path: Option<Seq<char>>,
    path_dirs: Seq<Seq<char>>,
    os: HostOs,
    exists_at: spec_fn(Seq<char>) -> bool,
    file_at: spec_fn(Seq<char>) -> bool,
    k: int,
)
    ensures
        override_path matches Some(p) ==> (resolve_by(
            name,
            override_path,
            path_dirs,
            os,
            exists_at,
            file_at,
        ) == if exists_at(p) {
            Ok::<Seq<char>, ResolveFault>(p)
        } else {
            Err::<Seq<char>, ResolveFault>(ResolveFault::NotFoundAt { name, path: p })
        }),
        (override_path is None && 0 <= k < path_dirs.len() && file_at(
            path_join_spec(path_dirs[k], exe_name(name, os)),
        ) && forall|j: int|
            0 <= j < k ==> !file_at(path_join_spec(path_dirs[j], exe_name(name, os)))) ==> resolve_by(
            name,
            override_path,
            path_dirs,
            os,
            exists_at,
            file_at,
        ) == Ok::<Seq<char>, ResolveFault>(path_join_spec(path_dirs[k], exe_name(name, os))),
{
    let d = dir_answers(file_at, path_dirs, name, os);
    lemma_pick_first_place(
        name,
        override_path,
        path_dirs,
        os,
        match override_path {
            Some(p) => exists_at(p),
            None => false,
        },
        d,
        file_at(program_files_candidate(name)),
    );
    if override_path is None && 0 <= k < path_dirs.len() {
        assert(d[k] == file_at(path_join_spec(path_dirs[k], exe_name(name, os))));
        assert forall|j: int| 0 <= j < k implies d[j] == file_at(
            path_join_spec(path_dirs[j], exe_name(name, os)),
        ) by {}
    }
}

/// Finds the binary `name`, asking `exists_at` whether something is at the
/// configured path and `file_at` whether a file is at a candidate: the
/// configured path when one is given (it must exist), else the first `PATH`
/// directory (`path_dirs`) that holds it, else (on Windows) QEMU's
/// installation directory, asking no further than needed. Whatever is on
/// disk (any `exists_at`/`file_at` answers consistent with it), the result is
/// [`resolve_by`] of it.
pub fn resolve_binary_with<E: Fn(&str) -> bool, F: Fn(&str) -> bool>(
    name: &str,
    override_path: &Option<String>,
    path_dirs: &Vec<String>,
    os: HostOs,
    exists_at: E,
    file_at: F,
) -> (r: Result<String, ResolveError>)
    requires
        forall|s: &str| #[trigger] call_requires(exists_at, (s,)),
        forall|s: &str| #[trigger] call_requires(file_at, (s,)),
    ensures
        forall|pe: spec_fn(Seq<char>) -> bool, pf: spec_fn(Seq<char>) -> bool|
            #![trigger answers_by(exists_at, pe), answers_by(file_at, pf)]
            answers_by(exists_at, pe) && answers_by(file_at, pf) ==> resolve_view(r) == resolve_by(
                name@,
                crate::paths::opt_view(*override_path),
                string_views(path_dirs@),
                os,
                pe,
                pf,
            ),
        exists|override_exists: bool, dir_has: Seq<bool>, program_files_has: bool|
            #[trigger] pick_binary_spec(
                name@,
                crate::paths::opt_view(*override_path),
                string_views(path_dirs@),
                os,
                override_exists,
                dir_has,
                program_files_has,
            ) == resolve_view(r),
        match r {
            Ok(p) => binary_candidate(
                name@,
                crate::paths::opt_view(*override_path),
                string_views(path_dirs@),
                os,
                p@,
            ),
            Err(e) => match override_path {
                Some(p) => e@ == ResolveFault::NotFoundAt { name: name@, path: p@ },
                None => e@ == ResolveFault::Missing { name: name@ },
            },
        },
{
    let ghost dirs = string_views(path_dirs@);
    if let Some(p) = override_path {
        let ps = p.as_str();
        let exists = exists_at(ps);
        let r = pick_binary(name, override_path, path_dirs, os, exists, &[], false);
        proof {
            assert forall|pe: spec_fn(Seq<char>) -> bool, pf: spec_fn(Seq<char>) -> bool|
                #![trigger answers_by(exists_at, pe), answers_by(file_at, pf)]
                answers_by(exists_at, pe) && answers_by(file_at, pf) implies resolve_view(r)
                == resolve_by(name@, crate::paths::opt_view(*override_path), dirs, os, pe, pf) by {
                assert(call_ensures(exists_at, (ps,), exists));
            }
        }
        return r;
    }
    let mut dir_has: Vec<bool> = Vec::new();
    let mut found = false;
    let mut i: usize = 0;
    while i < path_dirs.len() && !found
        invariant
            forall|s: &str| #[trigger] call_requires(file_at, (s,)),
            dirs == string_views(path_dirs@),
            dirs.len() == path_dirs@.len(),
            i <= path_dirs@.len(),
            dir_has@.len() == i,
            found ==> i > 0 && dir_has@[i - 1],
            forall|j: int| 0 <= j < i && (!found || j < i - 1) ==> !dir_has@[j],
            forall|pf: spec_fn(Seq<char>) -> bool|
                #![trigger answers_by(file_at, pf)]
                answers_by(file_at, pf) ==> forall|j: int|
                    0 <= j < i ==> dir_has@[j] == pf(path_join_spec(dirs[j], exe_name(name@, os))),
        decreases path_dirs.len() - i,
    {
        let candidate = binary_in(path_dirs[i].as_str(), name, os);
        let cs = candidate.as_str();
        found = file_at(cs);
        proof {
            assert(dirs[i as int] == path_dirs@[i as int]@);
            assert forall|pf: spec_fn(Seq<char>) -> bool|
                #![trigger answers_by(file_at, pf)]
                answers_by(file_at, pf) implies found == pf(
                path_join_spec(dirs[i as int], exe_name(name@, os)),
            ) by {
                assert(call_ensures(file_at, (cs,), found));
            }
        }
        dir_has.push(found);
        i = i + 1;
    }
    let program_files_has = if !found && os == HostOs::Windows {
        let prog = program_files_binary(name);
        let ps = prog.as_str();
        let has = file_at(ps);
        proof {
            assert forall|pf: spec_fn(Seq<char>) -> bool|
                #![trigger answers_by(file_at, pf)]
                answers_by(file_at, pf) implies has == pf(program_files_candidate(name@)) by {
                assert(call_ensures(file_at, (ps,), has));
            }
        }
        has
    } else {
        false
    };
    let r = pick_binary(name, override_path, path_dirs, os, false, dir_has.as_slice(), program_files_has);
    proof {
        let n = dirs.len() as int;
        lemma_first_true_bounds(dir_has@, n, 0);
        if found {
            lemma_first_true_skip(dir_has@, n, 0, i - 1);
        } else {
            lemma_first_true_skip(dir_has@, n, 0, i as int);
        }
        assert forall|pe: spec_fn(Seq<char>) -> bool, pf: spec_fn(Seq<char>) -> bool|
            #![trigger answers_by(exists_at, pe), answers_by(file_at, pf)]
            answers_by(exists_at, pe) && answers_by(file_at, pf) implies resolve_view(r)
            == resolve_by(name@, crate::paths::opt_view(*override_path), dirs, os, pe, pf) by {
            let full = dir_answers(pf, dirs, name@, os);
            assert forall|j: int| 0 <= j < i implies full[j] == dir_has@[j] by {}
            if found {
                lemma_first_true_skip(full, n, 0, i - 1);
                assert(first_true(full, n, (i - 1) as int) == Some((i - 1) as int));
            } else {
                lemma_first_true_skip(full, n, 0, n);
            }
        }
    }
    r
}

/// Finds the binary `name` on disk: [`resolve_binary_with`] asking
/// `Path::exists` of the configured path and `Path::is_file` of the
/// candidates.
pub fn resolve_binary(
    name: &str,
    override_path: &Option<String>,
    path_dirs: &Vec<String>,
    os: HostOs,
) -> (r: Result<String, ResolveError>)
    ensures
        exists|override_exists: bool, dir_has: Seq<bool>, program_files_has: bool|
            #[trigger] pick_binary_spec(
                name@,
                crate::paths::opt_view(*override_path),
                string_views(path_dirs@),
                os,
                override_exists,
                dir_has,
                program_files_has,
            ) == resolve_view(r),
        match r {
            Ok(p) => binary_candidate(
                name@,
                crate::paths::opt_view(*override_path),
                string_views(path_dirs@),
                os,
                p@,
            ),
            Err(e) => match override_path {
                Some(p) => e@ == ResolveFault::NotFoundAt { name: name@, path: p@ },
                None => e@ == ResolveFault::Missing { name: name@ },
            },
        },
{
    resolve_binary_with(name, override_path, path_dirs, os, |p: &str| path_exists(p), |p: &str| is_file(p))
}

/// Directories searched for OVMF images, in order.
pub open spec fn ovmf_dirs() -> Seq<Seq<char>> {
    seq![
        "C:\\Program Files\\qemu\\share"@,
        "C:\\Program Files\\qemu\\share\\edk2-x86_64"@,
        "/usr/share/OVMF"@,
        "/usr/share/ovmf"@,
        "/usr/share/edk2/ovmf"@,
        "/usr/share/edk2"@,
    ]
}

/// File names of the code image and variable store template, in order.
pub open spec fn ovmf_names() -> Seq<(Seq<char>, Seq<char>)> {
    seq![
        ("OVMF_CODE.fd"@, "OVMF_VARS.fd"@),
        ("ovmf_CODE.fd"@, "ovmf_VARS.fd"@),
        ("edk2-x86_64-code.fd"@, "edk2-i386-vars.fd"@),
        ("edk2-x86_64-secure-code.fd"@, "edk2-i386-vars.fd"@),
    ]
}

fn ovmf_dir(i: usize) -> (r: &'static str)
    requires
        i < 6,
    ensures
        r@ == ovmf_dirs()[i as int],
{
    match i {
        0 => "C:\\Program Files\\qemu\\share",
        1 => "C:\\Program Files\\qemu\\share\\edk2-x86_64",
        2 => "/usr/share/OVMF",
        3 => "/usr/share/ovmf",
        4 => "/usr/share/edk2/ovmf",
        _ => "/usr/share/edk2",
    }
}

fn ovmf_name(j: usize) -> (r: (&'static str, &'static str))
    requires
        j < 4,
    ensures
        (r.0@, r.1@) == ovmf_names()[j as int],
{
    match j {
        0 => ("OVMF_CODE.fd", "OVMF_VARS.fd"),
        1 => ("ovmf_CODE.fd", "ovmf_VARS.fd"),
        2 => ("edk2-x86_64-code.fd", "edk2-i386-vars.fd"),
        _ => ("edk2-x86_64-secure-code.fd", "edk2-i386-vars.fd"),
    }
}

/// `(code, vars)` is one of the known OVMF image pairs in one of the known
/// directories.
pub open spec fn ovmf_candidate(code: Seq<char>, vars: Seq<char>) -> bool {
    exists|i: int, j: int|
        0 <= i < 6 && 0 <= j < 4 && code == path_join_spec(ovmf_dirs()[i], ovmf_names()[j].0)
            && vars == path_join_spec(ovmf_dirs()[i], ovmf_names()[j].1)
}

/// The `k`-th candidate pair: directory `k / 4` of [`ovmf_dirs`], names
/// `k % 4` of [`ovmf_names`].
pub open spec fn ovmf_pair_spec(k: int) -> (Seq<char>, Seq<char>) {
    let d = ovmf_dirs()[k / 4];
    let n = ovmf_names()[k % 4];
    (path_join_spec(d, n.0), path_join_spec(d, n.1))
}

/// For each candidate pair, whether both its files are there: the code image
/// answer and the variable-store answer both yes.
pub open spec fn both_found(code_found: Seq<bool>, vars_found: Seq<bool>) -> Seq<bool> {
    let n = if code_found.len() < vars_found.len() {
        code_found.len()
    } else {
        vars_found.len()
    };
    Seq::new(n, |k: int| code_found[k] && vars_found[k])
}

/// The OVMF pair chosen when `code_found[k]` and `vars_found[k]` say whether
/// the code image and the variable-store template of the `k`-th candidate
/// pair are there: the first pair with both, in order.
pub open spec fn ovmf_choice_spec(code_found: Seq<bool>, vars_found: Seq<bool>) -> Option<
    (Seq<char>, Seq<char>),
> {
    match first_true(both_found(code_found, vars_found), 24, 0) {
        Some(k) => Some(ovmf_pair_spec(k)),
        None => None,
    }
}

/// The text of an optional pair of strings.
pub open spec fn pair_view(r: Option<(String, String)>) -> Option<(Seq<char>, Seq<char>)> {
    match r {
        Some((a, b)) => Some((a@, b@)),
        None => None,
    }
}

/// The `k`-th candidate pair.
fn ovmf_pair(k: usize) -> (r: (String, String))
    requires
        k < 24,
    ensures
        (r.0@, r.1@) == ovmf_pair_spec(k as int),
{
    let d = ovmf_dir(k / 4);
    let (code, vars) = ovmf_name(k % 4);
    (path_join(d, code), path_join(d, vars))
}

/// Picks the OVMF images given, for the candidate pairs in order, whether
/// the code image (`code_found`) and the variable-store template
/// (`vars_found`) of each are there: the first pair with both, or none.
pub fn choose_ovmf(code_found: &[bool], vars_found: &[bool]) -> (r: Option<(String, String)>)
    ensures
        pair_view(r) == ovmf_choice_spec(code_found@, vars_found@),
{
    let ghost both = both_found(code_found@, vars_found@);
    let mut k: usize = 0;
    while k < 24 && k < code_found.len() && k < vars_found.len()
        invariant
            k <= 24,
            both == both_found(code_found@, vars_found@),
            first_true(both, 24, 0) == first_true(both, 24, k as int),
        decreases 24 - k,
    {
        if code_found[k] && vars_found[k] {
            assert(first_true(both, 24, k as int) == Some(k as int));
            return Some(ovmf_pair(k));
        }
        k = k + 1;
    }
    None
}

/// `ask` answers as the disk would if `present` held exactly of the paths
/// whose files are there: every answer it can give for a path is whether
/// `present` holds of that path.
pub open spec fn answers_by<F: Fn(&str) -> bool>(ask: F, present: spec_fn(Seq<char>) -> bool) -> bool {
    forall|s: &str, b: bool| #[trigger] call_ensures(ask, (s,), b) ==> b == present(s@)
}

/// Both files of the `k`-th candidate pair are present.
pub open spec fn ovmf_pair_present(present: spec_fn(Seq<char>) -> bool, k: int) -> bool {
    present(ovmf_pair_spec(k).0) && present(ovmf_pair_spec(k).1)
}

proof fn lemma_first_true_skip(bs: Seq<bool>, bound: int, from: int, to: int)
    requires
        0 <= from <= to,
        forall|j: int| from <= j < to && j < bs.len() ==> !bs[j],
    ensures
        to <= bound && to <= bs.len() ==> first_true(bs, bound, from) == first_true(bs, bound, to),
        (to >= bound || to >= bs.len()) ==> first_true(bs, bound, from) is None,
    decreases to - from,
{
    if from < to && from < bound && from < bs.len() {
        lemma_first_true_skip(bs, bound, from + 1, to);
    }
}

/// The candidate pairs are every known directory with every known pair of
/// names, each once: pair `4 * i + j` is name pair `j` in directory `i`.
pub proof fn lemma_ovmf_candidates_complete(i: int, j: int)
    requires
        0 <= i < 6,
        0 <= j < 4,
    ensures
        0 <= 4 * i + j < 24,
        ovmf_pair_spec(4 * i + j) == (
            path_join_spec(ovmf_dirs()[i], ovmf_names()[j].0),
            path_join_spec(ovmf_dirs()[i], ovmf_names()[j].1),
        ),
{
    assert((4 * i + j) / 4 == i && (4 * i + j) % 4 == j) by (nonlinear_arith)
        requires
            0 <= i < 6,
            0 <= j < 4,
    ;
}

/// Finds the OVMF images, asking `ask` whether each file is there: the
/// candidate pairs in order, the variable store only when the code image is
/// there, until both files of a pair are. Whatever files are there (any
/// `present` that `ask` answers by), the result is the first candidate pair
/// with both files, and none exactly when no pair has both.
pub fn find_ovmf_with<F: Fn(&str) -> bool>(ask: F) -> (r: Option<(String, String)>)
    requires
        forall|s: &str| #[trigger] call_requires(ask, (s,)),
    ensures
        forall|present: spec_fn(Seq<char>) -> bool|
            #![trigger answers_by(ask, present)]
            answers_by(ask, present) ==> {
                &&& (r is None <==> forall|k: int| 0 <= k < 24 ==> !ovmf_pair_present(present, k))
                &&& (r matches Some((code, vars)) ==> exists|k: int|
                    0 <= k < 24 && (code@, vars@) == ovmf_pair_spec(k) && ovmf_pair_present(
                        present,
                        k,
                    ) && forall|j: int| 0 <= j < k ==> !ovmf_pair_present(present, j))
            },
        exists|code_found: Seq<bool>, vars_found: Seq<bool>|
            #[trigger] ovmf_choice_spec(code_found, vars_found) == pair_view(r),
        r matches Some((code, vars)) ==> ovmf_candidate(code@, vars@),
{
    let mut code_found: Vec<bool> = Vec::new();
    let mut vars_found: Vec<bool> = Vec::new();
    let mut k: usize = 0;
    let mut found = false;
    while k < 24 && !found
        invariant
            forall|s: &str| #[trigger] call_requires(ask, (s,)),
            k <= 24,
            code_found@.len() == k,
            vars_found@.len() == k,
            found ==> k > 0 && code_found@[k - 1] && vars_found@[k - 1],
            forall|j: int| 0 <= j < k && (!found || j < k - 1) ==> !(code_found@[j] && vars_found@[j]),
            forall|present: spec_fn(Seq<char>) -> bool|
                #![trigger answers_by(ask, present)]
                answers_by(ask, present) ==> forall|j: int|
                    0 <= j < k ==> code_found@[j] == present(ovmf_pair_spec(j).0) && (code_found@[j]
                        ==> vars_found@[j] == present(ovmf_pair_spec(j).1)),
        decreases 24 - k,
    {
        let (code, vars) = ovmf_pair(k);
        let code_s = code.as_str();
        let vars_s = vars.as_str();
        let c = ask(code_s);
        let v = if c {
            ask(vars_s)
        } else {
            false
        };
        proof {
            assert forall|present: spec_fn(Seq<char>) -> bool|
                #![trigger answers_by(ask, present)]
                answers_by(ask, present) implies c == present(ovmf_pair_spec(k as int).0) && (c ==> v
                    == present(ovmf_pair_spec(k as int).1)) by {
                assert(call_ensures(ask, (code_s,), c));
                if c {
                    assert(call_ensures(ask, (vars_s,), v));
                }
            }
        }
        code_found.push(c);
        vars_found.push(v);
        found = c && v;
        k = k + 1;
    }
    let r = choose_ovmf(code_found.as_slice(), vars_found.as_slice());
    proof {
        let both = both_found(code_found@, vars_found@);
        lemma_first_true_bounds(both, 24, 0);
        assert(ovmf_choice_spec(code_found@, vars_found@) == pair_view(r));
        if r is Some {
            let j = first_true(both, 24, 0)->0;
            let (c, v) = ovmf_pair_spec(j);
            assert(0 <= j / 4 < 6 && 0 <= j % 4 < 4);
            assert(ovmf_candidate(c, v));
        }
        if found {
            lemma_first_true_skip(both, 24, 0, k - 1);
            assert(first_true(both, 24, (k - 1) as int) == Some((k - 1) as int));
        } else {
            lemma_first_true_skip(both, 24, 0, k as int);
        }
        assert forall|present: spec_fn(Seq<char>) -> bool|
            #![trigger answers_by(ask, present)]
            answers_by(ask, present) implies {
                &&& (r is None <==> forall|j: int| 0 <= j < 24 ==> !ovmf_pair_present(present, j))
                &&& (r matches Some((code, vars)) ==> exists|j: int|
                    0 <= j < 24 && (code@, vars@) == ovmf_pair_spec(j) && ovmf_pair_present(
                        present,
                        j,
                    ) && forall|i: int| 0 <= i < j ==> !ovmf_pair_present(present, i))
            } by {
            assert forall|j: int| 0 <= j < k implies (both[j] == ovmf_pair_present(present, j)) by {}
            if found {
                let last = (k - 1) as int;
                assert(ovmf_pair_present(present, last));
                assert forall|i: int| 0 <= i < last implies !ovmf_pair_present(present, i) by {
                    assert(!both[i]);
                }
            } else {
                assert forall|j: int| 0 <= j < 24 implies !ovmf_pair_present(present, j) by {
                    assert(!both[j]);
                }
            }
        }
    }
    r
}

/// Finds the OVMF (UEFI) images on disk: [`find_ovmf_with`] asking
/// `Path::is_file`.
pub fn find_ovmf() -> (r: Option<(String, String)>)
    ensures
        exists|code_found: Seq<bool>, vars_found: Seq<bool>|
            #[trigger] ovmf_choice_spec(code_found, vars_found) == pair_view(r),
        r matches Some((code, vars)) ==> ovmf_candidate(code@, vars@),
{
    find_ovmf_with(|p: &str| is_file(p))
}

/// The VM's own copy of the UEFI variable store: `<id>-vars.fd` next to its disk.
pub open spec fn uefi_vars_spec(vm: Vm) -> Seq<char> {
    path_join_spec(parent_or_dot(vm.disk_path@), vm.id@ + "-vars.fd"@)
}

pub fn uefi_vars_path(vm: &Vm) -> (r: String)
    ensures
        r@ == uefi_vars_spec(*vm),
{
    let dir = parent_or_current(vm.disk_path.as_str());
    let mut file = vm.id.clone();
    append_str(&mut file, "-vars.fd");
    path_join(dir.as_str(), file.as_str())
}

} // verus!

verus! {

/// The PID a pidfile holds: its first line, trimmed, as an `i32`.
pub open spec fn pidfile_pid(contents: Seq<char>) -> Option<i32> {
    let ls = crate::text::lines(contents);
    if ls.len() == 0 {
        None
    } else {
        crate::text::parse_i32_spec(crate::text::trim(ls[0]))
    }
}

/// The PID written in a pidfile, `None` when it holds no valid PID.
pub fn pid_from_pidfile(contents: &str) -> (r: Option<i32>)
    ensures
        r == pidfile_pid(contents@),
{
    let text = crate::text::chars_of(contents);
    let ls = crate::text::split_lines(text.as_slice());
    if ls.len() == 0 {
        return None;
    }
    assert(crate::text::char_views(ls@)[0] == ls@[0]@);
    let first = crate::text::trim_chars(ls[0].as_slice());
    crate::text::parse_i32(first.as_slice())
}

/// Lines joined with `"\n"` between them (`[&str]::join("\n")`).
pub open spec fn join_lines(ls: Seq<Seq<char>>) -> Seq<char>
    decreases ls.len(),
{
    if ls.len() == 0 {
        Seq::empty()
    } else if ls.len() == 1 {
        ls[0]
    } else {
        join_lines(ls.drop_last()).push('\n') + ls.last()
    }
}

/// The last `max_lines` lines of `text`, joined with `"\n"`.
pub open spec fn tail_spec(text: Seq<char>, max_lines: nat) -> Seq<char> {
    let ls = crate::text::lines(text);
    let start = if ls.len() > max_lines {
        ls.len() - max_lines
    } else {
        0
    };
    join_lines(ls.subrange(start as int, ls.len() as int))
}

/// The last `max_lines` lines of a log (shown when a start fails).
pub fn tail_lines(text: &str, max_lines: usize) -> (r: String)
    ensures
        r@ == tail_spec(text@, max_lines as nat),
{
    let chars = crate::text::chars_of(text);
    let ls = crate::text::split_lines(chars.as_slice());
    let ghost lv = crate::text::char_views(ls@);
    let n = ls.len();
    let start = if n > max_lines {
        n - max_lines
    } else {
        0
    };
    let ghost tail = lv.subrange(start as int, n as int);
    let mut out = String::new();
    let mut i = start;
    while i < n
        invariant
            start <= i <= n == ls@.len(),
            lv == crate::text::char_views(ls@),
            tail == lv.subrange(start as int, n as int),
            out@ == join_lines(tail.take(i - start)),
        decreases n - i,
    {
        let ghost prefix = tail.take(i - start);
        assert(tail.take(i + 1 - start).drop_last() == prefix);
        assert(tail.take(i + 1 - start).last() == ls@[i as int]@);
        if i > start {
            push_char(&mut out, '\n');
        } else {
            assert(prefix.len() == 0);
        }
        let line = crate::text::string_of(ls[i].as_slice());
        append_str(&mut out, line.as_str());
        i = i + 1;
    }
    assert(tail.take(n - start) == tail);
    out
}

} // verus!

verus! {

/// `qemu-img` arguments that create a qcow2 image of `size_gb` GiB at `path`.
pub open spec fn create_disk_args_spec(path: Seq<char>, size_gb: u32) -> Seq<Seq<char>> {
    seq!["create"@, "-f"@, "qcow2"@, path, decimal(size_gb as nat) + "G"@]
}

/// `qemu-img` arguments that create a qcow2 image of `size_gb` GiB at `path`.
pub fn create_disk_args(path: &str, size_gb: u32) -> (a: Vec<String>)
    ensures
        string_views(a@) == create_disk_args_spec(path@, size_gb),
{
    let mut a: Vec<String> = Vec::new();
    push_str_arg(&mut a, "create");
    push_str_arg(&mut a, "-f");
    push_str_arg(&mut a, "qcow2");
    push_str_arg(&mut a, path);
    let mut size = String::new();
    append_decimal(&mut size, size_gb as u64);
    append_str(&mut size, "G");
    let ghost sv = size@;
    push_arg(&mut a, size);
    assert(string_views(a@) =~= create_disk_args_spec(path@, size_gb));
    a
}

/// The error text of a failed image creation.
pub fn disk_create_failure(stderr: &str) -> (r: String)
    ensures
        r@ == "qemu-img завершился с ошибкой: "@ + trim(stderr@),
{
    let mut s = String::from_str("qemu-img завершился с ошибкой: ");
    let t = string_of(trim_chars(chars_of(stderr).as_slice()).as_slice());
    append_str(&mut s, t.as_str());
    s
}

/// How many times a start looks for the pidfile, a quarter second apart.
pub const PIDFILE_ATTEMPTS: u32 = 40;

/// What a start does after looking at the QEMU process and its pidfile.
#[derive(PartialEq, Eq, Structural, Debug, Clone, Copy)]
pub enum StartupStep {
    /// QEMU has exited: the start fails with the tail of its log.
    Exited,
    /// The pidfile is there: read the PID from it.
    ReadPidfile,
    /// Neither yet: wait and look again.
    Wait,
    /// The pidfile never came: kill QEMU and fail.
    GiveUp,
}

/// The step after `attempt` earlier looks, given whether QEMU has exited and
/// whether its pidfile is there.
pub open spec fn startup_step_spec(attempt: u32, exited: bool, pidfile_present: bool) -> StartupStep {
    if attempt >= PIDFILE_ATTEMPTS {
        StartupStep::GiveUp
    } else if exited {
        StartupStep::Exited
    } else if pidfile_present {
        StartupStep::ReadPidfile
    } else {
        StartupStep::Wait
    }
}

/// The step after `attempt` earlier looks: an exit is reported before the
/// pidfile is read, and after the last attempt the start gives up.
pub fn startup_step(attempt: u32, exited: bool, pidfile_present: bool) -> (r: StartupStep)
    ensures
        r == startup_step_spec(attempt, exited, pidfile_present),
{
    if attempt >= PIDFILE_ATTEMPTS {
        StartupStep::GiveUp
    } else if exited {
        StartupStep::Exited
    } else if pidfile_present {
        StartupStep::ReadPidfile
    } else {
        StartupStep::Wait
    }
}

/// The error of a QEMU that exited at once: its exit status, then the log's
/// tail unless that tail is blank.
pub open spec fn early_exit_spec(status: Seq<char>, tail: Seq<char>) -> Seq<char> {
    "QEMU завершился сразу после запуска ("@ + status + ")."@ + if trim(tail).len() == 0 {
        Seq::empty()
    } else {
        "\n\nХвост лога:\n"@ + tail
    }
}

/// The error of a QEMU that exited at once.
pub fn early_exit_message(status: &str, tail: &str) -> (r: String)
    ensures
        r@ == early_exit_spec(status@, tail@),
{
    let mut s = String::from_str("QEMU завершился сразу после запуска (");
    append_str(&mut s, status);
    append_str(&mut s, ").");
    let trimmed = trim_chars(chars_of(tail).as_slice());
    if trimmed.len() > 0 {
        append_str(&mut s, "\n\nХвост лога:\n");
        append_str(&mut s, tail);
    }
    s
}

/// The error of a QEMU that wrote no pidfile in time, with the log's tail.
pub fn pidfile_timeout_message(tail: &str) -> (r: String)
    ensures
        r@ == "QEMU не создал pidfile за 10 секунд.\nХвост лога:\n"@ + tail@,
{
    let mut s = String::from_str("QEMU не создал pidfile за 10 секунд.\nХвост лога:\n");
    append_str(&mut s, tail);
    s
}

} // verus!

verus! {

/// `-cpu host` is asked of QEMU only under KVM; any other accelerator gets
/// `-cpu max` in its place.
pub proof fn lemma_host_cpu_only_under_kvm(cpu: CpuModel, accel: Accel)
    ensures
        cpu_args(cpu, accel).contains("host"@) ==> cpu == CpuModel::Host && accel == Accel::Kvm,
        cpu == CpuModel::Host && accel != Accel::Kvm ==> cpu_args(cpu, accel) == seq![
            "-cpu"@,
            "max"@,
        ],
{
    reveal_strlit("host");
    reveal_strlit("max");
    reveal_strlit("-cpu");
    let a = cpu_args(cpu, accel);
    if a.contains("host"@) {
        let i = choose|i: int| 0 <= i < a.len() && a[i] == "host"@;
        assert("host"@.len() == 4);
        assert("max"@.len() == 3);
        assert("-cpu"@[0] != "host"@[0]);
    }
}

} // verus!

verus! {

/// No argument of `args` is the text `f`.
pub open spec fn lacks(args: Seq<Seq<char>>, f: Seq<char>) -> bool {
    forall|i: int| 0 <= i < args.len() ==> args[i] != f
}

proof fn lemma_lacks_add(a: Seq<Seq<char>>, b: Seq<Seq<char>>, f: Seq<char>)
    requires
        lacks(a, f),
        lacks(b, f),
    ensures
        lacks(a + b, f),
{
    assert forall|i: int| 0 <= i < (a + b).len() implies (a + b)[i] != f by {
        if i < a.len() {
            assert((a + b)[i] == a[i]);
        } else {
            assert((a + b)[i] == b[i - a.len()]);
        }
    }
}

/// A flag that the command line may hold once: `-nic` or `-vnc`.
pub open spec fn single_flag(f: Seq<char>) -> bool {
    f == "-nic"@ || f == "-vnc"@
}

proof fn lemma_flag_shape(f: Seq<char>)
    requires
        single_flag(f),
    ensures
        f.len() == 4,
        f[0] == '-',
        f[3] == 'c',
        f[1] == 'n' || f[1] == 'v',
{
    reveal_strlit("-nic");
    reveal_strlit("-vnc");
}

proof fn lemma_decimal_not_flag(n: nat, f: Seq<char>)
    requires
        single_flag(f),
    ensures
        decimal(n) != f,
    decreases n,
{
    lemma_flag_shape(f);
    let d = decimal(n);
    if d.len() == 4 {
        assert(d.last() == f.last() ==> false) by {
            if n < 10 {
            } else {
                assert(d.last() == crate::text::digit_char((n % 10) as int));
            }
        }
    }
}

/// Text that starts with `p` (not empty, not starting with `'-'`) is no flag.
proof fn lemma_prefixed_not_flag(p: Seq<char>, rest: Seq<char>, f: Seq<char>)
    requires
        single_flag(f),
        p.len() > 0,
        p[0] != '-',
    ensures
        p + rest != f,
{
    lemma_flag_shape(f);
    assert((p + rest)[0] == p[0]);
}

/// Text whose length is not 4, or whose second character is neither `n`
/// nor `v`, is not a flag of [`single_flag`].
proof fn lemma_not_flag(l: Seq<char>, f: Seq<char>)
    requires
        single_flag(f),
        l.len() != 4 || (l[1] != 'n' && l[1] != 'v'),
    ensures
        l != f,
{
    lemma_flag_shape(f);
    if l == f {
        assert(l.len() == f.len() && l[1] == f[1]);
    }
}

/// The literals of the command line are not the flag `f`.
proof fn lemma_literals_not_flag(f: Seq<char>)
    requires
        single_flag(f),
    ensures
        f == "-nic"@ ==> f != "-vnc"@,
        f != "-name"@ && f != "-m"@ && f != "-smp"@ && f != "-drive"@ && f != "-machine"@,
        f != "-cpu"@ && f != "max"@ && f != "host"@ && f != "-enable-kvm"@ && f != "-accel"@,
        f != "whpx"@ && f != "tcg"@ && f != "-display"@ && f != "none"@ && f != "gtk"@,
        f != "sdl"@ && f != "-cdrom"@ && f != "-boot"@ && f != "d"@ && f != "-chardev"@,
        f != "-mon"@ && f != "chardev=qmp0,mode=control"@ && f != "-pidfile"@,
        f != "-daemonize"@ && f != "q35"@ && f != "pc"@ && f != "microvm"@,
{
    reveal_strlit("-nic");
    reveal_strlit("-vnc");
    reveal_strlit("-name");
    reveal_strlit("-m");
    reveal_strlit("-smp");
    reveal_strlit("-drive");
    reveal_strlit("-machine");
    reveal_strlit("-cpu");
    reveal_strlit("max");
    reveal_strlit("host");
    reveal_strlit("-enable-kvm");
    reveal_strlit("-accel");
    reveal_strlit("whpx");
    reveal_strlit("tcg");
    reveal_strlit("-display");
    reveal_strlit("none");
    reveal_strlit("gtk");
    reveal_strlit("sdl");
    reveal_strlit("-cdrom");
    reveal_strlit("-boot");
    reveal_strlit("d");
    reveal_strlit("-chardev");
    reveal_strlit("-mon");
    reveal_strlit("chardev=qmp0,mode=control");
    reveal_strlit("-pidfile");
    reveal_strlit("-daemonize");
    reveal_strlit("q35");
    reveal_strlit("pc");
    reveal_strlit("microvm");
    lemma_flag_shape(f);
    if f == "-nic"@ {
        assert(f[1] != "-vnc"@[1]);
    }
    lemma_not_flag("-name"@, f);
    lemma_not_flag("-m"@, f);
    lemma_not_flag("-smp"@, f);
    lemma_not_flag("-drive"@, f);
    lemma_not_flag("-machine"@, f);
    lemma_not_flag("-cpu"@, f);
    lemma_not_flag("max"@, f);
    lemma_not_flag("host"@, f);
    lemma_not_flag("-enable-kvm"@, f);
    lemma_not_flag("-accel"@, f);
    lemma_not_flag("whpx"@, f);
    lemma_not_flag("tcg"@, f);
    lemma_not_flag("-display"@, f);
    lemma_not_flag("none"@, f);
    lemma_not_flag("gtk"@, f);
    lemma_not_flag("sdl"@, f);
    lemma_not_flag("-cdrom"@, f);
    lemma_not_flag("-boot"@, f);
    lemma_not_flag("d"@, f);
    lemma_not_flag("-chardev"@, f);
    lemma_not_flag("-mon"@, f);
    lemma_not_flag("chardev=qmp0,mode=control"@, f);
    lemma_not_flag("-pidfile"@, f);
    lemma_not_flag("-daemonize"@, f);
    lemma_not_flag("q35"@, f);
    lemma_not_flag("pc"@, f);
    lemma_not_flag("microvm"@, f);
}

} // verus!

verus! {

/// The VM's free text (name, ISO path, pidfile path) is not the flag `f`.
pub open spec fn free_text_not(vm: Vm, f: Seq<char>) -> bool {
    &&& vm.name@ != f
    &&& vm.iso matches Some(p) ==> p@ != f
    &&& vm.pidfile_spec() != f
}

proof fn lemma_parts_lack(
    vm: Vm,
    qmp_port: u16,
    accel: Accel,
    daemonize: bool,
    ovmf_code: Option<Seq<char>>,
    os: HostOs,
    f: Seq<char>,
)
    requires
        single_flag(f),
        free_text_not(vm, f),
    ensures
        lacks(machine_args(vm.machine), f),
        lacks(cpu_args(vm.cpu, accel), f),
        lacks(accel_args(accel), f),
        lacks(firmware_args(vm, ovmf_code), f),
        lacks(iso_args(vm), f),
        lacks(control_args(vm, qmp_port), f),
        lacks(daemon_args(daemonize, os), f),
        forall|i: int| 0 <= i < 10 && i != 8 ==> #[trigger] base_args(vm)[i] != f,
        vm.display != DisplayMode::Vnc ==> lacks(display_args(vm, "127.0.0.1"@), f),
{
    lemma_literals_not_flag(f);
    lemma_flag_shape(f);
    reveal_strlit("file=");
    reveal_strlit("if=pflash,format=raw,readonly=on,file=");
    reveal_strlit("if=pflash,format=raw,file=");
    reveal_strlit("socket,host=127.0.0.1,port=");
    reveal_strlit("user");
    reveal_strlit("tap");
    reveal_strlit("none");
    lemma_decimal_not_flag(vm.memory_mb as nat, f);
    lemma_decimal_not_flag(vm.cpus as nat, f);
    lemma_prefixed_not_flag("file="@, vm.disk_path@ + ",if=virtio,format=qcow2"@, f);
    assert("file="@ + vm.disk_path@ + ",if=virtio,format=qcow2"@ == "file="@ + (vm.disk_path@
        + ",if=virtio,format=qcow2"@));
    assert(nic_spec(vm) != f) by {
        match vm.net_mode {
            NetMode::Nat => {
                lemma_prefixed_not_flag("user"@, model_part(vm.net_model) + fwd_parts(vm.hostfwd@), f);
                assert("user"@ + model_part(vm.net_model) + fwd_parts(vm.hostfwd@) == "user"@ + (
                model_part(vm.net_model) + fwd_parts(vm.hostfwd@)));
            },
            NetMode::Bridged => {
                lemma_prefixed_not_flag("tap"@, model_part(vm.net_model), f);
            },
            NetMode::Off => {},
        }
    }
    let s = "socket,host=127.0.0.1,port="@ + decimal(qmp_port as nat) + ",server=on,wait=off,id=qmp0"@;
    lemma_prefixed_not_flag(
        "socket,host=127.0.0.1,port="@,
        decimal(qmp_port as nat) + ",server=on,wait=off,id=qmp0"@,
        f,
    );
    assert(s == "socket,host=127.0.0.1,port="@ + (decimal(qmp_port as nat)
        + ",server=on,wait=off,id=qmp0"@));
    if let Some(code) = ovmf_code {
        lemma_prefixed_not_flag("if=pflash,format=raw,readonly=on,file="@, code, f);
        lemma_prefixed_not_flag("if=pflash,format=raw,file="@, uefi_vars_spec(vm), f);
    }
}

/// `p` holds `nic` at index 8 only, and holds `vnc` exactly when `has_vnc`.
pub open spec fn flags_shape(p: Seq<Seq<char>>, nic: Seq<char>, vnc: Seq<char>, has_vnc: bool) -> bool {
    &&& p.len() > 8
    &&& p[8] == nic
    &&& forall|i: int| 0 <= i < p.len() && i != 8 ==> p[i] != nic
    &&& p.contains(vnc) == has_vnc
}

proof fn lemma_extend_flags(
    p: Seq<Seq<char>>,
    q: Seq<Seq<char>>,
    nic: Seq<char>,
    vnc: Seq<char>,
    has_vnc: bool,
)
    requires
        flags_shape(p, nic, vnc, has_vnc),
        lacks(q, nic),
        lacks(q, vnc),
    ensures
        flags_shape(p + q, nic, vnc, has_vnc),
{
    let a = p + q;
    assert(a[8] == p[8]);
    assert forall|i: int| 0 <= i < a.len() && i != 8 implies a[i] != nic by {
        if i < p.len() {
            assert(a[i] == p[i]);
        } else {
            assert(a[i] == q[i - p.len()]);
        }
    }
    if has_vnc {
        let j = choose|j: int| 0 <= j < p.len() && p[j] == vnc;
        assert(a[j] == vnc);
    } else {
        assert forall|i: int| 0 <= i < a.len() implies a[i] != vnc by {
            if i < p.len() {
                assert(a[i] == p[i]);
            } else {
                assert(a[i] == q[i - p.len()]);
            }
        }
    }
}

proof fn lemma_extend_display(
    p: Seq<Seq<char>>,
    d: Seq<Seq<char>>,
    nic: Seq<char>,
    vnc: Seq<char>,
    vnc_display: bool,
)
    requires
        flags_shape(p, nic, vnc, false),
        lacks(d, nic),
        vnc_display ==> d.len() > 0 && d[0] == vnc,
        !vnc_display ==> lacks(d, vnc),
    ensures
        flags_shape(p + d, nic, vnc, vnc_display),
{
    if vnc_display {
        let a = p + d;
        assert(a[8] == p[8]);
        assert forall|i: int| 0 <= i < a.len() && i != 8 implies a[i] != nic by {
            if i < p.len() {
                assert(a[i] == p[i]);
            } else {
                assert(a[i] == d[i - p.len()]);
            }
        }
        assert(a[p.len() as int] == vnc);
    } else {
        lemma_extend_flags(p, d, nic, vnc, false);
    }
}

proof fn lemma_display_flags(vm: Vm, vnc_bind: Seq<char>)
    ensures
        lacks(display_args(vm, vnc_bind), "-nic"@),
        vm.display == DisplayMode::Vnc ==> display_args(vm, vnc_bind)[0] == "-vnc"@,
        vm.display != DisplayMode::Vnc ==> lacks(display_args(vm, vnc_bind), "-vnc"@),
{
    reveal_strlit("-nic");
    reveal_strlit("-vnc");
    reveal_strlit(":");
    reveal_strlit(",to=");
    reveal_strlit("-display");
    reveal_strlit("none");
    reveal_strlit("gtk");
    reveal_strlit("sdl");
    assert(single_flag("-nic"@));
    assert(single_flag("-vnc"@));
    lemma_literals_not_flag("-nic"@);
    lemma_literals_not_flag("-vnc"@);
    let d = display_args(vm, vnc_bind);
    if vm.display == DisplayMode::Vnc {
        assert("-nic"@[1] != "-vnc"@[1]);
        assert forall|i: int| 0 <= i < d.len() implies d[i] != "-nic"@ by {
            if i == 1 {
                assert(d[1].len() >= 6);
            }
        }
    } else {
        assert forall|i: int| 0 <= i < d.len() implies d[i] != "-nic"@ && d[i] != "-vnc"@ by {}
    }
}

proof fn lemma_base_flags(vm: Vm)
    requires
        free_text_not(vm, "-nic"@),
        free_text_not(vm, "-vnc"@),
    ensures
        flags_shape(base_args(vm), "-nic"@, "-vnc"@, false),
{
    reveal_strlit("-nic");
    reveal_strlit("-vnc");
    assert(single_flag("-nic"@));
    assert(single_flag("-vnc"@));
    lemma_parts_lack(vm, 0, Accel::Auto, false, None, HostOs::Other, "-nic"@);
    lemma_parts_lack(vm, 0, Accel::Auto, false, None, HostOs::Other, "-vnc"@);
    let b = base_args(vm);
    assert("-nic"@[1] != "-vnc"@[1]);
    assert(b[8] == "-nic"@);
    assert forall|i: int| 0 <= i < b.len() implies b[i] != "-vnc"@ by {
        if i != 8 {
            assert(b[i] != "-vnc"@);
        }
    }
}

/// `-nic` stands on the command line once, right after the disk, and `-vnc`
/// stands on it exactly for a VNC display. This holds whenever the VM's free
/// text (its name, ISO path and pidfile path) is neither flag.
pub proof fn lemma_single_flags(
    vm: Vm,
    qmp_port: u16,
    vnc_bind: Seq<char>,
    accel: Accel,
    daemonize: bool,
    ovmf_code: Option<Seq<char>>,
    os: HostOs,
)
    requires
        free_text_not(vm, "-nic"@),
        free_text_not(vm, "-vnc"@),
    ensures
        qemu_args_spec(vm, qmp_port, vnc_bind, accel, daemonize, ovmf_code, os) matches Some(a) ==> {
            &&& a[8] == "-nic"@
            &&& forall|i: int| 0 <= i < a.len() && i != 8 ==> a[i] != "-nic"@
            &&& a.contains("-vnc"@) <==> vm.display == DisplayMode::Vnc
        },
{
    let nic = "-nic"@;
    let vnc = "-vnc"@;
    reveal_strlit("-nic");
    reveal_strlit("-vnc");
    assert(single_flag(nic));
    assert(single_flag(vnc));
    lemma_parts_lack(vm, qmp_port, accel, daemonize, ovmf_code, os, nic);
    lemma_parts_lack(vm, qmp_port, accel, daemonize, ovmf_code, os, vnc);
    lemma_base_flags(vm);
    lemma_display_flags(vm, vnc_bind);
    let is_vnc = vm.display == DisplayMode::Vnc;
    let p1 = base_args(vm) + machine_args(vm.machine);
    lemma_extend_flags(base_args(vm), machine_args(vm.machine), nic, vnc, false);
    let p2 = p1 + cpu_args(vm.cpu, accel);
    lemma_extend_flags(p1, cpu_args(vm.cpu, accel), nic, vnc, false);
    let p3 = p2 + accel_args(accel);
    lemma_extend_flags(p2, accel_args(accel), nic, vnc, false);
    let p4 = p3 + display_args(vm, vnc_bind);
    lemma_extend_display(p3, display_args(vm, vnc_bind), nic, vnc, is_vnc);
    let p5 = p4 + firmware_args(vm, ovmf_code);
    lemma_extend_flags(p4, firmware_args(vm, ovmf_code), nic, vnc, is_vnc);
    let p6 = p5 + iso_args(vm);
    lemma_extend_flags(p5, iso_args(vm), nic, vnc, is_vnc);
    let p7 = p6 + control_args(vm, qmp_port);
    lemma_extend_flags(p6, control_args(vm, qmp_port), nic, vnc, is_vnc);
    lemma_extend_flags(p7, daemon_args(daemonize, os), nic, vnc, is_vnc);
}

/// A VM shown in a window or without a display gets `-display` followed by
/// QEMU's name for that choice: `none` for no display, `gtk` for a GTK
/// window, `sdl` for an SDL window.
pub proof fn lemma_display_choice(
    vm: Vm,
    qmp_port: u16,
    vnc_bind: Seq<char>,
    accel: Accel,
    daemonize: bool,
    ovmf_code: Option<Seq<char>>,
    os: HostOs,
)
    requires
        vm.display != DisplayMode::Vnc,
    ensures
        qemu_args_spec(vm, qmp_port, vnc_bind, accel, daemonize, ovmf_code, os) matches Some(a)
            ==> exists|i: int|
            0 <= i < a.len() - 1 && a[i] == "-display"@ && #[trigger] a[i + 1] == match vm.display {
                DisplayMode::Gtk => "gtk"@,
                DisplayMode::Sdl => "sdl"@,
                _ => "none"@,
            },
{
    if let Some(a) = qemu_args_spec(vm, qmp_port, vnc_bind, accel, daemonize, ovmf_code, os) {
        let p = base_args(vm) + machine_args(vm.machine) + cpu_args(vm.cpu, accel) + accel_args(
            accel,
        );
        let d = display_args(vm, vnc_bind);
        let i = p.len() as int;
        let q = p + d;
        assert(q[i] == d[0] && q[i + 1] == d[1]);
        assert(a =~= q + firmware_args(vm, ovmf_code) + iso_args(vm) + control_args(vm, qmp_port)
            + daemon_args(daemonize, os));
        assert(a[i] == q[i] && a[i + 1] == q[i + 1]);
    }
}

} // verus!
