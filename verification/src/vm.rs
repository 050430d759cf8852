//! VM records, their enumerated settings, and validation of the creation form.

use vstd::prelude::*;

use crate::paths::{is_file, opt_view, parent_or_current, parent_or_dot, path_join, path_join_spec};
use crate::text::{append_decimal, append_str, chars_of, decimal, string_of, trim, trim_chars};

verus! {

/// Hardware accelerator requested for a VM.
#[derive(Clone, Copy, PartialEq, Eq, Debug, Structural)]
pub enum Accel {
    Auto,
    Kvm,
    Whpx,
    Tcg,
    /// No accelerator option at all (QEMU's `none`).
    Off,
}

impl Default for Accel {
    fn default() -> (r: Accel)
        ensures
            r == Accel::Auto,
    {
        Accel::Auto
    }
}

impl Accel {
    /// Every accelerator choice, in the order the settings list them.
    pub const ALL: [Accel; 5] = [Accel::Auto, Accel::Kvm, Accel::Whpx, Accel::Tcg, Accel::Off];

    pub open spec fn label_spec(self) -> Seq<char> {
        match self {
            Accel::Auto => "auto"@,
            Accel::Kvm => "kvm"@,
            Accel::Whpx => "whpx"@,
            Accel::Tcg => "tcg"@,
            Accel::Off => "none"@,
        }
    }

    pub fn label(&self) -> (r: &'static str)
        ensures
            r@ == self.label_spec(),
    {
        match self {
            Accel::Auto => "auto",
            Accel::Kvm => "kvm",
            Accel::Whpx => "whpx",
            Accel::Tcg => "tcg",
            Accel::Off => "none",
        }
    }
}

/// How the VM's screen is shown.
#[derive(Clone, Copy, PartialEq, Eq, Debug, Structural)]
pub enum DisplayMode {
    /// No display (QEMU's `-display none`).
    Headless,
    Vnc,
    Gtk,
    Sdl,
}

impl Default for DisplayMode {
    fn default() -> (r: DisplayMode)
        ensures
            r == DisplayMode::Headless,
    {
        DisplayMode::Headless
    }
}

impl DisplayMode {
    /// Every display choice, in the order the settings list them.
    pub const ALL: [DisplayMode; 4] = [
        DisplayMode::Headless,
        DisplayMode::Vnc,
        DisplayMode::Gtk,
        DisplayMode::Sdl,
    ];

    pub open spec fn label_spec(self) -> Seq<char> {
        match self {
            DisplayMode::Headless => "none (headless)"@,
            DisplayMode::Vnc => "vnc (remote)"@,
            DisplayMode::Gtk => "gtk (window)"@,
            DisplayMode::Sdl => "sdl (window)"@,
        }
    }

    pub fn label(&self) -> (r: &'static str)
        ensures
            r@ == self.label_spec(),
    {
        match self {
            DisplayMode::Headless => "none (headless)",
            DisplayMode::Vnc => "vnc (remote)",
            DisplayMode::Gtk => "gtk (window)",
            DisplayMode::Sdl => "sdl (window)",
        }
    }
}

/// Emulated chipset.
#[derive(Clone, Copy, PartialEq, Eq, Debug, Structural)]
pub enum MachineType {
    /// No `-machine` option (QEMU's default).
    Auto,
    /// Modern ICH9 chipset: PCIe, AHCI, UEFI, virtio.
    Q35,
    /// Legacy PIIX chipset (old guests only).
    I440Fx,
    /// Minimal platform (headless/virtio only).
    MicroVm,
}

impl Default for MachineType {
    fn default() -> (r: MachineType)
        ensures
            r == MachineType::Auto,
    {
        MachineType::Auto
    }
}

impl MachineType {
    /// Every platform choice, in the order the settings list them.
    pub const ALL: [MachineType; 4] = [
        MachineType::Q35,
        MachineType::I440Fx,
        MachineType::MicroVm,
        MachineType::Auto,
    ];

    pub open spec fn label_spec(self) -> Seq<char> {
        match self {
            MachineType::Auto => "авто (дефолт QEMU)"@,
            MachineType::Q35 => "q35 (современный)"@,
            MachineType::I440Fx => "i440fx (легаси)"@,
            MachineType::MicroVm => "microvm (мини)"@,
        }
    }

    pub fn label(&self) -> (r: &'static str)
        ensures
            r@ == self.label_spec(),
    {
        match self {
            MachineType::Auto => "авто (дефолт QEMU)",
            MachineType::Q35 => "q35 (современный)",
            MachineType::I440Fx => "i440fx (легаси)",
            MachineType::MicroVm => "microvm (мини)",
        }
    }

    /// The value of QEMU's `-machine` option, if one is passed.
    pub open spec fn qemu_flag_spec(self) -> Option<Seq<char>> {
        match self {
            MachineType::Auto => None,
            MachineType::Q35 => Some("q35"@),
            MachineType::I440Fx => Some("pc"@),
            MachineType::MicroVm => Some("microvm"@),
        }
    }

    pub fn qemu_flag(&self) -> (r: Option<&'static str>)
        ensures
            opt_str_view(r) == self.qemu_flag_spec(),
    {
        match self {
            MachineType::Auto => None,
            MachineType::Q35 => Some("q35"),
            MachineType::I440Fx => Some("pc"),
            MachineType::MicroVm => Some("microvm"),
        }
    }

    pub open spec fn supports_vnc_spec(self) -> bool {
        self != MachineType::MicroVm
    }

    pub fn supports_vnc(&self) -> (b: bool)
        ensures
            b == self.supports_vnc_spec(),
    {
        !matches!(self, MachineType::MicroVm)
    }
}

/// The text of an optional string slice.
pub open spec fn opt_str_view(o: Option<&str>) -> Option<Seq<char>> {
    match o {
        Some(s) => Some(s@),
        None => None,
    }
}

/// Boot firmware.
#[derive(Clone, Copy, PartialEq, Eq, Debug, Structural)]
pub enum Firmware {
    Bios,
    Uefi,
}

impl Default for Firmware {
    fn default() -> (r: Firmware)
        ensures
            r == Firmware::Bios,
    {
        Firmware::Bios
    }
}

impl Firmware {
    /// Every firmware choice, in the order the settings list them.
    pub const ALL: [Firmware; 2] = [Firmware::Bios, Firmware::Uefi];

    pub open spec fn label_spec(self) -> Seq<char> {
        match self {
            Firmware::Bios => "BIOS (SeaBIOS)"@,
            Firmware::Uefi => "UEFI (OVMF)"@,
        }
    }

    pub fn label(&self) -> (r: &'static str)
        ensures
            r@ == self.label_spec(),
    {
        match self {
            Firmware::Bios => "BIOS (SeaBIOS)",
            Firmware::Uefi => "UEFI (OVMF)",
        }
    }
}

/// Guest CPU model.
#[derive(Clone, Copy, PartialEq, Eq, Debug, Structural)]
pub enum CpuModel {
    Auto,
    Max,
    Host,
}

impl Default for CpuModel {
    fn default() -> (r: CpuModel)
        ensures
            r == CpuModel::Auto,
    {
        CpuModel::Auto
    }
}

impl CpuModel {
    /// Every CPU model choice, in the order the settings list them.
    pub const ALL: [CpuModel; 3] = [CpuModel::Auto, CpuModel::Max, CpuModel::Host];

    pub open spec fn label_spec(self) -> Seq<char> {
        match self {
            CpuModel::Auto => "авто"@,
            CpuModel::Max => "max"@,
            CpuModel::Host => "host"@,
        }
    }

    pub fn label(&self) -> (r: &'static str)
        ensures
            r@ == self.label_spec(),
    {
        match self {
            CpuModel::Auto => "авто",
            CpuModel::Max => "max",
            CpuModel::Host => "host",
        }
    }
}

/// Network attachment.
#[derive(Clone, Copy, PartialEq, Eq, Debug, Structural)]
pub enum NetMode {
    /// SLIRP user networking (NAT through the host, no administrator rights).
    Nat,
    /// Bridge into the local network through a host TAP adapter.
    Bridged,
    /// No network card.
    Off,
}

impl Default for NetMode {
    fn default() -> (r: NetMode)
        ensures
            r == NetMode::Nat,
    {
        NetMode::Nat
    }
}

impl NetMode {
    /// Every network choice, in the order the settings list them.
    pub const ALL: [NetMode; 3] = [NetMode::Nat, NetMode::Bridged, NetMode::Off];

    pub open spec fn label_spec(self) -> Seq<char> {
        match self {
            NetMode::Nat => "nat (user)"@,
            NetMode::Bridged => "мост (tap)"@,
            NetMode::Off => "нет"@,
        }
    }

    pub fn label(&self) -> (r: &'static str)
        ensures
            r@ == self.label_spec(),
    {
        match self {
            NetMode::Nat => "nat (user)",
            NetMode::Bridged => "мост (tap)",
            NetMode::Off => "нет",
        }
    }
}

/// Emulated network card.
#[derive(Clone, Copy, PartialEq, Eq, Debug, Structural)]
pub enum NetModel {
    /// No `model=` (QEMU's default, e1000).
    Auto,
    /// Paravirtual virtio network (Linux guests).
    Virtio,
    /// Intel e1000 (Windows guests without virtio drivers).
    E1000,
    /// Realtek rtl8139 (old guests).
    Rtl8139,
}

impl Default for NetModel {
    fn default() -> (r: NetModel)
        ensures
            r == NetModel::Auto,
    {
        NetModel::Auto
    }
}

impl NetModel {
    /// Every network card choice, in the order the settings list them.
    pub const ALL: [NetModel; 4] = [
        NetModel::Auto,
        NetModel::Virtio,
        NetModel::E1000,
        NetModel::Rtl8139,
    ];

    pub open spec fn label_spec(self) -> Seq<char> {
        match self {
            NetModel::Auto => "авто (e1000)"@,
            NetModel::Virtio => "virtio-net"@,
            NetModel::E1000 => "e1000"@,
            NetModel::Rtl8139 => "rtl8139"@,
        }
    }

    pub fn label(&self) -> (r: &'static str)
        ensures
            r@ == self.label_spec(),
    {
        match self {
            NetModel::Auto => "авто (e1000)",
            NetModel::Virtio => "virtio-net",
            NetModel::E1000 => "e1000",
            NetModel::Rtl8139 => "rtl8139",
        }
    }

    /// The value of `model=` on QEMU's `-nic`, if one is passed.
    pub open spec fn qemu_model_spec(self) -> Option<Seq<char>> {
        match self {
            NetModel::Auto => None,
            NetModel::Virtio => Some("virtio-net-pci"@),
            NetModel::E1000 => Some("e1000"@),
            NetModel::Rtl8139 => Some("rtl8139"@),
        }
    }

    pub fn qemu_model(&self) -> (r: Option<&'static str>)
        ensures
            opt_str_view(r) == self.qemu_model_spec(),
    {
        match self {
            NetModel::Auto => None,
            NetModel::Virtio => Some("virtio-net-pci"),
            NetModel::E1000 => Some("e1000"),
            NetModel::Rtl8139 => Some("rtl8139"),
        }
    }
}

/// Transport protocol of a forwarded port.
#[derive(Clone, Copy, PartialEq, Eq, Debug, Hash, Structural)]
pub enum FwdProto {
    Tcp,
    Udp,
}

impl Default for FwdProto {
    fn default() -> (r: FwdProto)
        ensures
            r == FwdProto::Tcp,
    {
        FwdProto::Tcp
    }
}

impl FwdProto {
    pub open spec fn qemu_str_spec(self) -> Seq<char> {
        match self {
            FwdProto::Tcp => "tcp"@,
            FwdProto::Udp => "udp"@,
        }
    }

    pub fn qemu_str(&self) -> (r: &'static str)
        ensures
            r@ == self.qemu_str_spec(),
    {
        match self {
            FwdProto::Tcp => "tcp",
            FwdProto::Udp => "udp",
        }
    }
}

/// A port forwarding rule of user networking: `-nic user,hostfwd=tcp::2222-:22`.
#[derive(Clone, Copy, PartialEq, Eq, Debug, Structural)]
pub struct HostFwd {
    pub proto: FwdProto,
    pub host_port: u16,
    pub guest_port: u16,
}

impl HostFwd {
    /// `hostfwd=<proto>::<host port>-:<guest port>`.
    pub open spec fn fragment_spec(self) -> Seq<char> {
        "hostfwd="@ + self.proto.qemu_str_spec() + "::"@ + decimal(self.host_port as nat) + "-:"@
            + decimal(self.guest_port as nat)
    }

    pub fn qemu_fragment(&self) -> (r: String)
        ensures
            r@ == self.fragment_spec(),
    {
        let mut s = String::from_str("hostfwd=");
        append_str(&mut s, self.proto.qemu_str());
        append_str(&mut s, "::");
        append_decimal(&mut s, self.host_port as u64);
        append_str(&mut s, "-:");
        append_decimal(&mut s, self.guest_port as u64);
        s
    }
}

} // verus!

verus! {

/// A virtual machine as the manager records it.
pub struct Vm {
    pub id: String,
    pub name: String,
    pub memory_mb: u32,
    pub cpus: u32,
    pub disk_size_gb: u32,
    pub disk_path: String,
    /// The disk was created by this manager and may be deleted with the VM.
    /// Records written before this field existed count as owning their disk.
    pub disk_owned: bool,
    pub iso: Option<String>,
    pub accel: Accel,
    pub display: DisplayMode,
    /// Preferred VNC display number (port 5900+N); the real port is asked of QMP.
    pub vnc_display: Option<u16>,
    pub machine: MachineType,
    pub firmware: Firmware,
    pub cpu: CpuModel,
    pub net_mode: NetMode,
    pub net_model: NetModel,
    pub hostfwd: Vec<HostFwd>,
}

/// The value that `disk_owned` takes in a record that lacks the field.
pub fn true_default() -> (b: bool)
    ensures
        b,
{
    true
}

impl Vm {
    /// The two records hold the same values.
    pub open spec fn same_as(self, other: Vm) -> bool {
        &&& self.id == other.id
        &&& self.name == other.name
        &&& self.memory_mb == other.memory_mb
        &&& self.cpus == other.cpus
        &&& self.disk_size_gb == other.disk_size_gb
        &&& self.disk_path == other.disk_path
        &&& self.disk_owned == other.disk_owned
        &&& self.iso == other.iso
        &&& self.accel == other.accel
        &&& self.display == other.display
        &&& self.vnc_display == other.vnc_display
        &&& self.machine == other.machine
        &&& self.firmware == other.firmware
        &&& self.cpu == other.cpu
        &&& self.net_mode == other.net_mode
        &&& self.net_model == other.net_model
        &&& self.hostfwd@ == other.hostfwd@
    }
}

impl Clone for Vm {
    fn clone(&self) -> (r: Vm)
        ensures
            r.same_as(*self),
    {
        let hostfwd = self.hostfwd.clone();
        assert(hostfwd@ =~= self.hostfwd@);
        Vm {
            id: self.id.clone(),
            name: self.name.clone(),
            memory_mb: self.memory_mb,
            cpus: self.cpus,
            disk_size_gb: self.disk_size_gb,
            disk_path: self.disk_path.clone(),
            disk_owned: self.disk_owned,
            iso: self.iso.clone(),
            accel: self.accel,
            display: self.display,
            vnc_display: self.vnc_display,
            machine: self.machine,
            firmware: self.firmware,
            cpu: self.cpu,
            net_mode: self.net_mode,
            net_model: self.net_model,
            hostfwd,
        }
    }
}

impl Vm {
    /// QEMU's pidfile for this VM: `<id>.pid` next to the disk.
    pub open spec fn pidfile_spec(self) -> Seq<char> {
        path_join_spec(parent_or_dot(self.disk_path@), self.id@ + ".pid"@)
    }

    pub fn pidfile_path(&self) -> (r: String)
        ensures
            r@ == self.pidfile_spec(),
    {
        let dir = parent_or_current(self.disk_path.as_str());
        let mut file = self.id.clone();
        append_str(&mut file, ".pid");
        path_join(dir.as_str(), file.as_str())
    }
}

/// The disk of a VM being created.
#[derive(Debug)]
pub enum DiskSpec {
    /// A new qcow2 image of `size_gb` GiB, in `folder` or in the storage directory.
    New { size_gb: u32, folder: Option<String> },
    /// An existing image.
    Existing { path: String },
}

impl Clone for DiskSpec {
    fn clone(&self) -> (r: DiskSpec)
        ensures
            r == *self,
    {
        match self {
            DiskSpec::New { size_gb, folder } => DiskSpec::New { size_gb: *size_gb, folder: folder.clone() },
            DiskSpec::Existing { path } => DiskSpec::Existing { path: path.clone() },
        }
    }
}

/// The VM creation form before validation.
#[derive(Debug)]
pub struct VmDraft {
    pub name: String,
    pub memory_mb: u32,
    pub cpus: u32,
    pub iso: Option<String>,
    pub accel: Accel,
    pub display: DisplayMode,
    pub machine: MachineType,
    pub firmware: Firmware,
    pub cpu: CpuModel,
    pub net_mode: NetMode,
    pub net_model: NetModel,
    pub hostfwd: Vec<HostFwd>,
    pub disk: DiskSpec,
}

impl Clone for VmDraft {
    fn clone(&self) -> (r: VmDraft)
        ensures
            r.name == self.name,
            r.memory_mb == self.memory_mb,
            r.cpus == self.cpus,
            r.iso == self.iso,
            r.accel == self.accel,
            r.display == self.display,
            r.machine == self.machine,
            r.firmware == self.firmware,
            r.cpu == self.cpu,
            r.net_mode == self.net_mode,
            r.net_model == self.net_model,
            r.hostfwd@ == self.hostfwd@,
            r.disk == self.disk,
    {
        let hostfwd = self.hostfwd.clone();
        assert(hostfwd@ =~= self.hostfwd@);
        VmDraft {
            name: self.name.clone(),
            memory_mb: self.memory_mb,
            cpus: self.cpus,
            iso: self.iso.clone(),
            accel: self.accel,
            display: self.display,
            machine: self.machine,
            firmware: self.firmware,
            cpu: self.cpu,
            net_mode: self.net_mode,
            net_model: self.net_model,
            hostfwd,
            disk: self.disk.clone(),
        }
    }
}

/// The checked part of a draft, from which the VM is assembled.
#[derive(Debug)]
pub struct ValidatedDraft {
    pub name: String,
    pub memory_mb: u32,
    pub cpus: u32,
    pub iso: Option<String>,
    pub hostfwd: Vec<HostFwd>,
    pub disk: DiskSpec,
}

impl Clone for ValidatedDraft {
    fn clone(&self) -> (r: ValidatedDraft)
        ensures
            r.name == self.name,
            r.memory_mb == self.memory_mb,
            r.cpus == self.cpus,
            r.iso == self.iso,
            r.hostfwd@ == self.hostfwd@,
            r.disk == self.disk,
    {
        let hostfwd = self.hostfwd.clone();
        assert(hostfwd@ =~= self.hostfwd@);
        ValidatedDraft {
            name: self.name.clone(),
            memory_mb: self.memory_mb,
            cpus: self.cpus,
            iso: self.iso.clone(),
            hostfwd,
            disk: self.disk.clone(),
        }
    }
}

/// Why a draft was refused. The messages are the ones the UI shows.
#[derive(Debug)]
pub enum DraftError {
    EmptyName,
    ZeroMemory,
    ZeroCpus,
    VncUnsupported,
    HostfwdNeedsNat,
    ZeroPort,
    DuplicateHostfwd { proto: FwdProto, host_port: u16 },
    IsoNotFound { path: String },
}

/// A refusal of a draft, with its text as a character sequence.
pub enum DraftFault {
    EmptyName,
    ZeroMemory,
    ZeroCpus,
    VncUnsupported,
    HostfwdNeedsNat,
    ZeroPort,
    DuplicateHostfwd { proto: FwdProto, host_port: u16 },
    IsoNotFound { path: Seq<char> },
}

impl View for DraftError {
    type V = DraftFault;

    open spec fn view(&self) -> DraftFault {
        match self {
            DraftError::EmptyName => DraftFault::EmptyName,
            DraftError::ZeroMemory => DraftFault::ZeroMemory,
            DraftError::ZeroCpus => DraftFault::ZeroCpus,
            DraftError::VncUnsupported => DraftFault::VncUnsupported,
            DraftError::HostfwdNeedsNat => DraftFault::HostfwdNeedsNat,
            DraftError::ZeroPort => DraftFault::ZeroPort,
            DraftError::DuplicateHostfwd { proto, host_port } => DraftFault::DuplicateHostfwd {
                proto: *proto,
                host_port: *host_port,
            },
            DraftError::IsoNotFound { path } => DraftFault::IsoNotFound { path: path@ },
        }
    }
}

impl DraftFault {
    pub open spec fn message_spec(self) -> Seq<char> {
        match self {
            DraftFault::EmptyName => "Имя не может быть пустым"@,
            DraftFault::ZeroMemory => "Память (МБ) должна быть числом > 0"@,
            DraftFault::ZeroCpus => "Число vCPU должно быть > 0"@,
            DraftFault::VncUnsupported => "microvm не поддерживает VNC-дисплей. Выберите другую платформу."@,
            DraftFault::HostfwdNeedsNat => "Проброс портов доступен только для сети nat (user)"@,
            DraftFault::ZeroPort => "Порты проброса должны быть больше 0"@,
            DraftFault::DuplicateHostfwd { proto, host_port } => "Дублирующийся hostfwd: "@
                + proto.qemu_str_spec() + " порт "@ + decimal(host_port as nat),
            DraftFault::IsoNotFound { path } => "ISO не найден: "@ + path,
        }
    }
}

impl DraftError {
    /// The text shown to the user.
    pub fn message(&self) -> (r: String)
        ensures
            r@ == self@.message_spec(),
    {
        match self {
            DraftError::EmptyName => String::from_str("Имя не может быть пустым"),
            DraftError::ZeroMemory => String::from_str("Память (МБ) должна быть числом > 0"),
            DraftError::ZeroCpus => String::from_str("Число vCPU должно быть > 0"),
            DraftError::VncUnsupported => String::from_str(
                "microvm не поддерживает VNC-дисплей. Выберите другую платформу.",
            ),
            DraftError::HostfwdNeedsNat => String::from_str(
                "Проброс портов доступен только для сети nat (user)",
            ),
            DraftError::ZeroPort => String::from_str("Порты проброса должны быть больше 0"),
            DraftError::DuplicateHostfwd { proto, host_port } => {
                let mut s = String::from_str("Дублирующийся hostfwd: ");
                append_str(&mut s, proto.qemu_str());
                append_str(&mut s, " порт ");
                append_decimal(&mut s, *host_port as u64);
                s
            },
            DraftError::IsoNotFound { path } => {
                let mut s = String::from_str("ISO не найден: ");
                append_str(&mut s, path.as_str());
                s
            },
        }
    }
}

/// The fault of forwarding rule `i`: a zero port, or the same protocol and
/// host port as an earlier rule.
pub open spec fn fwd_fault_at(hf: Seq<HostFwd>, i: int) -> Option<DraftFault> {
    if hf[i].host_port == 0 || hf[i].guest_port == 0 {
        Some(DraftFault::ZeroPort)
    } else if exists|j: int|
        0 <= j < i && hf[j].proto == hf[i].proto && hf[j].host_port == hf[i].host_port {
        Some(DraftFault::DuplicateHostfwd { proto: hf[i].proto, host_port: hf[i].host_port })
    } else {
        None
    }
}

/// The fault of the first faulty rule at or after `i`, if any.
pub open spec fn fwd_fault_from(hf: Seq<HostFwd>, i: int) -> Option<DraftFault>
    decreases hf.len() - i,
{
    if i < 0 || i >= hf.len() {
        None
    } else {
        match fwd_fault_at(hf, i) {
            Some(f) => Some(f),
            None => fwd_fault_from(hf, i + 1),
        }
    }
}

/// The ISO path of a draft: the trimmed text, when it is not empty.
pub open spec fn draft_iso(d: VmDraft) -> Option<Seq<char>> {
    match d.iso {
        Some(s) => if trim(s@).len() > 0 {
            Some(trim(s@))
        } else {
            None
        },
        None => None,
    }
}

/// Why `d` is refused, in the order the checks run; `iso_is_file` says
/// whether a file is at the ISO path.
pub open spec fn draft_fault(d: VmDraft, iso_is_file: bool) -> Option<DraftFault> {
    if trim(d.name@).len() == 0 {
        Some(DraftFault::EmptyName)
    } else if d.memory_mb == 0 {
        Some(DraftFault::ZeroMemory)
    } else if d.cpus == 0 {
        Some(DraftFault::ZeroCpus)
    } else if d.display == DisplayMode::Vnc && !d.machine.supports_vnc_spec() {
        Some(DraftFault::VncUnsupported)
    } else if d.net_mode != NetMode::Nat && d.hostfwd@.len() > 0 {
        Some(DraftFault::HostfwdNeedsNat)
    } else if fwd_fault_from(d.hostfwd@, 0) is Some {
        fwd_fault_from(d.hostfwd@, 0)
    } else {
        match draft_iso(d) {
            Some(p) => if iso_is_file {
                None
            } else {
                Some(DraftFault::IsoNotFound { path: p })
            },
            None => None,
        }
    }
}

/// `r` is what validating `d` gives when the ISO check answered `iso_is_file`.
pub open spec fn validation_outcome(
    d: VmDraft,
    iso_is_file: bool,
    r: Result<ValidatedDraft, DraftError>,
) -> bool {
    match r {
        Ok(v) => {
            &&& draft_fault(d, iso_is_file) is None
            &&& v.name@ == trim(d.name@)
            &&& v.memory_mb == d.memory_mb
            &&& v.cpus == d.cpus
            &&& opt_view(v.iso) == draft_iso(d)
            &&& v.hostfwd@ == d.hostfwd@
            &&& v.disk == d.disk
        },
        Err(e) => draft_fault(d, iso_is_file) == Some(e@),
    }
}

/// Whether rule `i` has the protocol and host port of an earlier rule.
fn repeats_earlier(hf: &Vec<HostFwd>, i: usize) -> (b: bool)
    requires
        i < hf@.len(),
    ensures
        b == exists|j: int|
            0 <= j < i && hf@[j].proto == hf@[i as int].proto && hf@[j].host_port
                == hf@[i as int].host_port,
{
    let mut j: usize = 0;
    while j < i
        invariant
            i < hf@.len(),
            j <= i,
            forall|k: int|
                0 <= k < j ==> !(hf@[k].proto == hf@[i as int].proto && hf@[k].host_port
                    == hf@[i as int].host_port),
        decreases i - j,
    {
        if hf[j].proto == hf[i].proto && hf[j].host_port == hf[i].host_port {
            return true;
        }
        j = j + 1;
    }
    false
}

/// The first faulty forwarding rule's fault, if any.
fn check_forwards(hf: &Vec<HostFwd>) -> (r: Option<DraftError>)
    ensures
        match r {
            Some(e) => fwd_fault_from(hf@, 0) == Some(e@),
            None => fwd_fault_from(hf@, 0) is None,
        },
{
    let mut i: usize = 0;
    while i < hf.len()
        invariant
            i <= hf@.len(),
            fwd_fault_from(hf@, 0) == fwd_fault_from(hf@, i as int),
        decreases hf.len() - i,
    {
        let h = hf[i];
        if h.host_port == 0 || h.guest_port == 0 {
            return Some(DraftError::ZeroPort);
        }
        if repeats_earlier(hf, i) {
            return Some(DraftError::DuplicateHostfwd { proto: h.proto, host_port: h.host_port });
        }
        i = i + 1;
    }
    None
}

impl VmDraft {
    /// The trimmed ISO path, when one was given.
    fn iso_path(&self) -> (r: Option<String>)
        ensures
            opt_view(r) == draft_iso(*self),
    {
        match &self.iso {
            Some(s) => {
                let t = trim_chars(chars_of(s.as_str()).as_slice());
                if t.len() > 0 {
                    Some(string_of(t.as_slice()))
                } else {
                    None
                }
            },
            None => None,
        }
    }

    /// Validation of the form, given whether a file is at the ISO path.
    pub fn validate_with(&self, iso_is_file: bool) -> (r: Result<ValidatedDraft, DraftError>)
        ensures
            validation_outcome(*self, iso_is_file, r),
    {
        let name = string_of(trim_chars(chars_of(self.name.as_str()).as_slice()).as_slice());
        if name.as_str().is_empty() {
            return Err(DraftError::EmptyName);
        }
        if self.memory_mb == 0 {
            return Err(DraftError::ZeroMemory);
        }
        if self.cpus == 0 {
            return Err(DraftError::ZeroCpus);
        }
        if self.display == DisplayMode::Vnc && !self.machine.supports_vnc() {
            return Err(DraftError::VncUnsupported);
        }
        if self.net_mode != NetMode::Nat && self.hostfwd.len() > 0 {
            return Err(DraftError::HostfwdNeedsNat);
        }
        if let Some(e) = check_forwards(&self.hostfwd) {
            return Err(e);
        }
        let iso = self.iso_path();
        if let Some(p) = &iso {
            if !iso_is_file {
                return Err(DraftError::IsoNotFound { path: p.clone() });
            }
        }
        Ok(ValidatedDraft {
            name,
            memory_mb: self.memory_mb,
            cpus: self.cpus,
            iso,
            hostfwd: self.hostfwd.clone(),
            disk: self.disk.clone(),
        })
    }

    /// Validation of the form fields. Errors are human-readable (shown in the UI).
    /// Whether a file is at the ISO path is asked of the disk.
    pub fn validate(&self) -> (r: Result<ValidatedDraft, DraftError>)
        ensures
            validation_outcome(*self, true, r) || validation_outcome(*self, false, r),
    {
        let iso_is_file = match self.iso_path() {
            Some(p) => is_file(p.as_str()),
            None => true,
        };
        self.validate_with(iso_is_file)
    }
}

} // verus!

verus! {

proof fn lemma_no_fault_from(hf: Seq<HostFwd>, i: int, j: int)
    requires
        0 <= i <= j < hf.len(),
        fwd_fault_from(hf, i) is None,
    ensures
        fwd_fault_at(hf, j) is None,
    decreases j - i,
{
    if i < j {
        lemma_no_fault_from(hf, i + 1, j);
    }
}

/// A draft that passes validation has a name, memory and vCPUs; a VNC display
/// only on a platform that supports it; forwarding rules only with NAT, each
/// with non-zero ports, no two for the same protocol and host port.
pub proof fn lemma_valid_draft_is_sound(d: VmDraft, iso_is_file: bool)
    requires
        draft_fault(d, iso_is_file) is None,
    ensures
        trim(d.name@).len() > 0,
        d.memory_mb > 0,
        d.cpus > 0,
        d.display == DisplayMode::Vnc ==> d.machine != MachineType::MicroVm,
        d.hostfwd@.len() > 0 ==> d.net_mode == NetMode::Nat,
        forall|i: int|
            0 <= i < d.hostfwd@.len() ==> #[trigger] d.hostfwd@[i].host_port != 0
                && d.hostfwd@[i].guest_port != 0,
        forall|i: int, j: int|
            0 <= i < j < d.hostfwd@.len() ==> !(#[trigger] d.hostfwd@[i].proto
                == #[trigger] d.hostfwd@[j].proto && d.hostfwd@[i].host_port
                == d.hostfwd@[j].host_port),
        draft_iso(d) is Some ==> iso_is_file,
{
    let hf = d.hostfwd@;
    assert forall|i: int| 0 <= i < hf.len() implies #[trigger] hf[i].host_port != 0
        && hf[i].guest_port != 0 by {
        lemma_no_fault_from(hf, 0, i);
    }
    assert forall|i: int, j: int| 0 <= i < j < hf.len() implies !(#[trigger] hf[i].proto
        == #[trigger] hf[j].proto && hf[i].host_port == hf[j].host_port) by {
        lemma_no_fault_from(hf, 0, j);
    }
}

/// Only microvm refuses a VNC display: a draft that passes the other checks
/// (a name that is not blank, memory, vCPUs, no forwarding rules, no ISO)
/// is accepted exactly when it does not ask for VNC on microvm, and
/// otherwise refused with the VNC fault. The ISO answer plays no part.
pub proof fn lemma_only_microvm_refuses_vnc(d: VmDraft, iso_is_file: bool)
    requires
        trim(d.name@).len() > 0,
        d.memory_mb > 0,
        d.cpus > 0,
        d.hostfwd@.len() == 0,
        d.iso is None,
    ensures
        (d.display == DisplayMode::Vnc && d.machine == MachineType::MicroVm) ==> draft_fault(
            d,
            iso_is_file,
        ) == Some(DraftFault::VncUnsupported),
        !(d.display == DisplayMode::Vnc && d.machine == MachineType::MicroVm) ==> draft_fault(
            d,
            iso_is_file,
        ) is None,
{
    assert(fwd_fault_from(d.hostfwd@, 0) is None);
}

} // verus!
