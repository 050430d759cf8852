//! The manager's decisions: the table of running VMs and their statuses,
//! what creating, editing, starting and snapshotting a VM requires, and the
//! state snapshots sent to the UI.

use vstd::prelude::*;

use crate::paths::{opt_view, path_extension, path_extension_spec, path_join, path_join_spec};
use crate::store::RunningInfo;
use crate::text::{append_str, ascii_lower, chars_of, string_of, trim, trim_chars};
use crate::vm::{DiskSpec, DisplayMode, ValidatedDraft, Vm, VmDraft};

verus! {

/// A VM's state as the UI shows it.
#[derive(Clone, Copy, PartialEq, Eq, Debug, Structural)]
pub enum Status {
    Running,
    Paused,
    Shutoff,
    Unknown,
}

impl Status {
    /// The status for a QMP `query-status` answer.
    pub open spec fn from_qmp_spec(s: Seq<char>) -> Status {
        if s == "running"@ {
            Status::Running
        } else if s == "paused"@ {
            Status::Paused
        } else {
            Status::Shutoff
        }
    }

    pub fn from_qmp(s: &str) -> (r: Status)
        ensures
            r == Self::from_qmp_spec(s@),
    {
        let t = String::from_str(s);
        if t == String::from_str("running") {
            Status::Running
        } else if t == String::from_str("paused") {
            Status::Paused
        } else {
            Status::Shutoff
        }
    }
}

/// A QMP command that changes a running VM.
#[derive(Clone, Copy, PartialEq, Eq, Debug, Structural)]
pub enum QmpAction {
    Pause,
    Resume,
    Reset,
    Shutdown,
}

impl QmpAction {
    pub open spec fn cmd_spec(self) -> Seq<char> {
        match self {
            QmpAction::Pause => "stop"@,
            QmpAction::Resume => "cont"@,
            QmpAction::Reset => "system_reset"@,
            QmpAction::Shutdown => "system_powerdown"@,
        }
    }

    /// The QMP command name.
    pub fn cmd(&self) -> (r: &'static str)
        ensures
            r@ == self.cmd_spec(),
    {
        match self {
            QmpAction::Pause => "stop",
            QmpAction::Resume => "cont",
            QmpAction::Reset => "system_reset",
            QmpAction::Shutdown => "system_powerdown",
        }
    }
}

/// A VM action requested by the UI.
#[derive(Clone, Copy, PartialEq, Eq, Debug, Structural)]
pub enum Action {
    Pause,
    Resume,
    Reset,
    Shutdown,
}

impl Action {
    /// The QMP command that carries out the action.
    pub fn qmp_action(&self) -> (r: QmpAction)
        ensures
            r == match self {
                Action::Pause => QmpAction::Pause,
                Action::Resume => QmpAction::Resume,
                Action::Reset => QmpAction::Reset,
                Action::Shutdown => QmpAction::Shutdown,
            },
    {
        match self {
            Action::Pause => QmpAction::Pause,
            Action::Resume => QmpAction::Resume,
            Action::Reset => QmpAction::Reset,
            Action::Shutdown => QmpAction::Shutdown,
        }
    }
}

/// A VM and its status, for the list view.
pub struct VmListItem {
    pub vm: Vm,
    pub status: Status,
}

impl Clone for VmListItem {
    fn clone(&self) -> (r: VmListItem)
        ensures
            r.vm.same_as(self.vm),
            r.status == self.status,
    {
        VmListItem { vm: self.vm.clone(), status: self.status }
    }
}

/// State of one VM for a UI event.
#[derive(Debug)]
pub struct VmUpdate {
    pub id: String,
    pub name: String,
    pub status: Status,
    pub pid: Option<i32>,
    pub qmp_port: Option<u16>,
    pub vnc_port: Option<u16>,
    pub console_port: Option<u16>,
    pub started_at: Option<u64>,
}

impl Clone for VmUpdate {
    fn clone(&self) -> (r: VmUpdate)
        ensures
            r == *self,
    {
        VmUpdate {
            id: self.id.clone(),
            name: self.name.clone(),
            status: self.status,
            pid: self.pid,
            qmp_port: self.qmp_port,
            vnc_port: self.vnc_port,
            console_port: self.console_port,
            started_at: self.started_at,
        }
    }
}

/// Where the console of a VM can be reached.
#[derive(Clone, Copy, PartialEq, Eq, Debug, Structural)]
pub struct ConsoleInfo {
    pub ws_port: u16,
    pub vnc_port: u16,
}

impl VmUpdate {
    /// The state of `vm` with status `status`, its running process `info`
    /// (if any) and the port of its console proxy (if any).
    pub fn of(vm: &Vm, status: Status, info: Option<&RunningInfo>, console_port: Option<u16>) -> (r:
        VmUpdate)
        requires
            info matches Some(i) ==> i.vnc_hint_fits(),
        ensures
            r.id == vm.id,
            r.name == vm.name,
            r.status == status,
            r.pid == (match info {
                Some(i) => Some(i.pid),
                None => None::<i32>,
            }),
            r.qmp_port == (match info {
                Some(i) => Some(i.qmp_port),
                None => None::<u16>,
            }),
            r.vnc_port == (match info {
                Some(i) => i.effective_vnc_port_spec(),
                None => None::<u16>,
            }),
            r.console_port == console_port,
            r.started_at == (match info {
                Some(i) => i.started_at,
                None => None::<u64>,
            }),
    {
        let (pid, qmp_port, vnc_port, started_at) = match info {
            Some(i) => (Some(i.pid), Some(i.qmp_port), i.effective_vnc_port(), i.started_at),
            None => (None, None, None, None),
        };
        VmUpdate {
            id: vm.id.clone(),
            name: vm.name.clone(),
            status,
            pid,
            qmp_port,
            vnc_port,
            console_port,
            started_at,
        }
    }
}

/// Why the manager refused or failed a request.
pub enum ManagerError {
    NotFound { id: String },
    AlreadyRunning,
    NotRunning,
    DiskMissing { path: String },
    StopBeforeEditing,
    OnlyQcow2,
    ConsoleNeedsVnc,
    VncPortUnknown,
    PoweredOffRequired,
}

pub enum ManagerFault {
    NotFound { id: Seq<char> },
    AlreadyRunning,
    NotRunning,
    DiskMissing { path: Seq<char> },
    StopBeforeEditing,
    OnlyQcow2,
    ConsoleNeedsVnc,
    VncPortUnknown,
    PoweredOffRequired,
}

impl View for ManagerError {
    type V = ManagerFault;

    open spec fn view(&self) -> ManagerFault {
        match self {
            ManagerError::NotFound { id } => ManagerFault::NotFound { id: id@ },
            ManagerError::AlreadyRunning => ManagerFault::AlreadyRunning,
            ManagerError::NotRunning => ManagerFault::NotRunning,
            ManagerError::DiskMissing { path } => ManagerFault::DiskMissing { path: path@ },
            ManagerError::StopBeforeEditing => ManagerFault::StopBeforeEditing,
            ManagerError::OnlyQcow2 => ManagerFault::OnlyQcow2,
            ManagerError::ConsoleNeedsVnc => ManagerFault::ConsoleNeedsVnc,
            ManagerError::VncPortUnknown => ManagerFault::VncPortUnknown,
            ManagerError::PoweredOffRequired => ManagerFault::PoweredOffRequired,
        }
    }
}

impl ManagerFault {
    pub open spec fn message_spec(self) -> Seq<char> {
        match self {
            ManagerFault::NotFound { id } => "VM '"@ + id + "' not found"@,
            ManagerFault::AlreadyRunning => "VM is already running"@,
            ManagerFault::NotRunning => "VM is not running"@,
            ManagerFault::DiskMissing { path } => "Disk file not found: "@ + path,
            ManagerFault::StopBeforeEditing => "Stop the VM before editing"@,
            ManagerFault::OnlyQcow2 => "Only disks in the qcow2 format are supported"@,
            ManagerFault::ConsoleNeedsVnc => "The console is available only for VMs with a VNC display"@,
            ManagerFault::VncPortUnknown => "VNC port unknown — wait a couple of seconds"@,
            ManagerFault::PoweredOffRequired => "Snapshot operations require the VM to be powered off"@,
        }
    }
}

impl ManagerError {
    pub fn message(&self) -> (r: String)
        ensures
            r@ == self@.message_spec(),
    {
        match self {
            ManagerError::NotFound { id } => {
                let mut s = String::from_str("VM '");
                append_str(&mut s, id.as_str());
                append_str(&mut s, "' not found");
                s
            },
            ManagerError::AlreadyRunning => String::from_str("VM is already running"),
            ManagerError::NotRunning => String::from_str("VM is not running"),
            ManagerError::DiskMissing { path } => {
                let mut s = String::from_str("Disk file not found: ");
                append_str(&mut s, path.as_str());
                s
            },
            ManagerError::StopBeforeEditing => String::from_str("Stop the VM before editing"),
            ManagerError::OnlyQcow2 => String::from_str("Only disks in the qcow2 format are supported"),
            ManagerError::ConsoleNeedsVnc => String::from_str(
                "The console is available only for VMs with a VNC display",
            ),
            ManagerError::VncPortUnknown => String::from_str(
                "VNC port unknown — wait a couple of seconds",
            ),
            ManagerError::PoweredOffRequired => String::from_str(
                "Snapshot operations require the VM to be powered off",
            ),
        }
    }
}

} // verus!

verus! {

/// `m` with `k` mapped to `v`, or without `k` when `v` is `None`.
pub open spec fn map_set<V>(m: Map<Seq<char>, V>, k: Seq<char>, v: Option<V>) -> Map<Seq<char>, V> {
    match v {
        Some(x) => m.insert(k, x),
        None => m.remove(k),
    }
}

/// One VM's row: its last known status and its running process.
struct Entry {
    id: String,
    status: Option<Status>,
    running: Option<RunningInfo>,
}

/// The VMs the manager has started (keyed by VM id) and the statuses it has
/// observed. Each id has at most one row.
pub struct Registry {
    entries: Vec<Entry>,
}

impl Registry {
    #[verifier::type_invariant]
    closed spec fn unique(self) -> bool {
        forall|i: int, j: int|
            0 <= i < self.entries@.len() && 0 <= j < self.entries@.len() && i != j
                ==> self.entries@[i].id@ != self.entries@[j].id@
    }

    closed spec fn has(self, k: Seq<char>) -> bool {
        exists|i: int| 0 <= i < self.entries@.len() && self.entries@[i].id@ == k
    }

    closed spec fn index_of(self, k: Seq<char>) -> int {
        choose|i: int| 0 <= i < self.entries@.len() && self.entries@[i].id@ == k
    }

    /// The running processes, by VM id.
    pub closed spec fn running(self) -> Map<Seq<char>, RunningInfo> {
        Map::new(
            |k: Seq<char>| self.has(k) && self.entries@[self.index_of(k)].running is Some,
            |k: Seq<char>| self.entries@[self.index_of(k)].running->0,
        )
    }

    /// The observed statuses, by VM id.
    pub closed spec fn statuses(self) -> Map<Seq<char>, Status> {
        Map::new(
            |k: Seq<char>| self.has(k) && self.entries@[self.index_of(k)].status is Some,
            |k: Seq<char>| self.entries@[self.index_of(k)].status->0,
        )
    }

    proof fn lemma_index_of(self, i: int)
        requires
            self.unique(),
            0 <= i < self.entries@.len(),
        ensures
            self.has(self.entries@[i].id@),
            self.index_of(self.entries@[i].id@) == i,
    {
        let k = self.entries@[i].id@;
        assert(self.has(k));
        let j = self.index_of(k);
        assert(0 <= j < self.entries@.len() && self.entries@[j].id@ == k);
    }

    /// An empty table.
    pub fn new() -> (r: Registry)
        ensures
            r.running() == Map::<Seq<char>, RunningInfo>::empty(),
            r.statuses() == Map::<Seq<char>, Status>::empty(),
    {
        let r = Registry { entries: Vec::new() };
        assert(r.running() =~= Map::<Seq<char>, RunningInfo>::empty());
        assert(r.statuses() =~= Map::<Seq<char>, Status>::empty());
        r
    }

    fn find(&self, id: &str) -> (r: Option<usize>)
        ensures
            match r {
                Some(i) => i < self.entries@.len() && self.entries@[i as int].id@ == id@,
                None => !self.has(id@),
            },
    {
        let key = String::from_str(id);
        let mut i: usize = 0;
        while i < self.entries.len()
            invariant
                i <= self.entries@.len(),
                key@ == id@,
                forall|k: int| 0 <= k < i ==> self.entries@[k].id@ != id@,
            decreases self.entries.len() - i,
        {
            if self.entries[i].id == key {
                return Some(i);
            }
            i = i + 1;
        }
        None
    }

    /// Sets the row of `id` to `status` and `running`.
    fn put(&mut self, id: &str, status: Option<Status>, running: Option<RunningInfo>)
        ensures
            final(self).running() == map_set(old(self).running(), id@, running),
            final(self).statuses() == map_set(old(self).statuses(), id@, status),
    {
        proof {
            use_type_invariant(&*self);
        }
        let ghost old_self = *self;
        let e = Entry { id: String::from_str(id), status, running };
        let found = self.find(id);
        let mut entries: Vec<Entry> = Vec::new();
        std::mem::swap(&mut entries, &mut self.entries);
        match found {
            Some(i) => {
                entries.set(i, e);
                self.entries = entries;
                proof {
                    let new_self = *self;
                    assert(new_self.unique());
                    assert forall|k: Seq<char>| #![auto] true implies (new_self.has(k) == old_self.has(
                        k,
                    )) by {
                        if old_self.has(k) {
                            let j = old_self.index_of(k);
                            if j != i {
                                assert(new_self.entries@[j].id@ == k);
                            } else {
                                assert(new_self.entries@[i as int].id@ == k);
                            }
                        }
                        if new_self.has(k) {
                            let j = new_self.index_of(k);
                            if j != i {
                                assert(old_self.entries@[j].id@ == k);
                            } else {
                                assert(old_self.entries@[i as int].id@ == k);
                            }
                        }
                    }
                    assert forall|k: Seq<char>| new_self.has(k) && k != id@ implies new_self.index_of(k)
                        == old_self.index_of(k) by {
                        let j = new_self.index_of(k);
                        new_self.lemma_index_of(j);
                        assert(j != i);
                        assert(old_self.entries@[j].id@ == k);
                        old_self.lemma_index_of(j);
                    }
                    new_self.lemma_index_of(i as int);
                    assert(new_self.running() =~= map_set(old_self.running(), id@, running));
                    assert(new_self.statuses() =~= map_set(old_self.statuses(), id@, status));
                }
            },
            None => {
                entries.push(e);
                self.entries = entries;
                proof {
                    let new_self = *self;
                    let n = old_self.entries@.len() as int;
                    assert(new_self.unique());
                    assert forall|k: Seq<char>| old_self.has(k) implies new_self.has(k)
                        && new_self.index_of(k) == old_self.index_of(k) by {
                        let j = old_self.index_of(k);
                        assert(new_self.entries@[j] == old_self.entries@[j]);
                        new_self.lemma_index_of(j);
                    }
                    assert forall|k: Seq<char>| new_self.has(k) && k != id@ implies old_self.has(k) by {
                        let j = new_self.index_of(k);
                        assert(j != n);
                        assert(old_self.entries@[j].id@ == k);
                    }
                    new_self.lemma_index_of(n);
                    assert(new_self.running() =~= map_set(old_self.running(), id@, running));
                    assert(new_self.statuses() =~= map_set(old_self.statuses(), id@, status));
                }
            },
        }
    }

    fn row(&self, id: &str) -> (r: (Option<Status>, Option<RunningInfo>))
        ensures
            r.0 == (if self.statuses().dom().contains(id@) {
                Some(self.statuses()[id@])
            } else {
                None
            }),
            r.1 == (if self.running().dom().contains(id@) {
                Some(self.running()[id@])
            } else {
                None
            }),
    {
        proof {
            use_type_invariant(self);
        }
        match self.find(id) {
            Some(i) => {
                proof {
                    self.lemma_index_of(i as int);
                }
                let e = &self.entries[i];
                let running = match &e.running {
                    Some(info) => Some(info.clone()),
                    None => None,
                };
                (e.status, running)
            },
            None => (None, None),
        }
    }

    /// Whether a process of `id` is recorded as running.
    pub fn is_running(&self, id: &str) -> (b: bool)
        ensures
            b == self.running().dom().contains(id@),
    {
        let (_, r) = self.row(id);
        r.is_some()
    }

    /// The running process of `id`, if any.
    pub fn running_info(&self, id: &str) -> (r: Option<RunningInfo>)
        ensures
            r == (if self.running().dom().contains(id@) {
                Some(self.running()[id@])
            } else {
                None
            }),
    {
        let (_, r) = self.row(id);
        r
    }

    /// The last observed status of `id` (`Unknown` when none was).
    pub fn status(&self, id: &str) -> (s: Status)
        ensures
            s == (if self.statuses().dom().contains(id@) {
                self.statuses()[id@]
            } else {
                Status::Unknown
            }),
    {
        let (s, _) = self.row(id);
        match s {
            Some(st) => st,
            None => Status::Unknown,
        }
    }

    /// Records a process found in the saved running table (no status yet).
    pub fn restore(&mut self, id: &str, info: RunningInfo)
        ensures
            final(self).running() == old(self).running().insert(id@, info),
            final(self).statuses() == old(self).statuses(),
    {
        let (s, _) = self.row(id);
        self.put(id, s, Some(info));
        assert(map_set(old(self).statuses(), id@, s) =~= old(self).statuses());
    }

    /// Records that `id` was started: its process is `info`, its status `Running`.
    pub fn record_started(&mut self, id: &str, info: RunningInfo)
        ensures
            final(self).running() == old(self).running().insert(id@, info),
            final(self).statuses() == old(self).statuses().insert(id@, Status::Running),
    {
        self.put(id, Some(Status::Running), Some(info));
    }

    /// Takes the process of `id` out of the table for a forced stop and marks
    /// the VM shut off; nothing changes when it is not running.
    pub fn record_stopped(&mut self, id: &str) -> (r: Option<RunningInfo>)
        ensures
            match old(self).running().get(id@) {
                Some(info) => {
                    &&& r == Some(info)
                    &&& final(self).running() == old(self).running().remove(id@)
                    &&& final(self).statuses() == old(self).statuses().insert(id@, Status::Shutoff)
                },
                None => {
                    &&& r is None
                    &&& final(self).running() == old(self).running()
                    &&& final(self).statuses() == old(self).statuses()
                },
            },
    {
        let (_, r) = self.row(id);
        if r.is_some() {
            self.put(id, Some(Status::Shutoff), None);
        }
        r
    }

    /// Records a status seen by polling. A VM seen shut off leaves the
    /// running table; the result says whether it was in it.
    pub fn observe(&mut self, id: &str, status: Status) -> (removed: bool)
        ensures
            final(self).statuses() == old(self).statuses().insert(id@, status),
            status == Status::Shutoff ==> final(self).running() == old(self).running().remove(id@)
                && removed == old(self).running().dom().contains(id@),
            status != Status::Shutoff ==> final(self).running() == old(self).running() && !removed,
    {
        let (_, r) = self.row(id);
        if status == Status::Shutoff {
            self.put(id, Some(status), None);
            r.is_some()
        } else {
            self.put(id, Some(status), r);
            proof {
                assert(map_set(old(self).running(), id@, r) =~= old(self).running());
            }
            false
        }
    }

    /// Forgets the status of a deleted VM.
    pub fn forget(&mut self, id: &str)
        ensures
            final(self).statuses() == old(self).statuses().remove(id@),
            final(self).running() == old(self).running(),
    {
        let (_, r) = self.row(id);
        self.put(id, None, r);
        proof {
            assert(map_set(old(self).running(), id@, r) =~= old(self).running());
        }
    }

    /// The running processes, each with its VM id.
    pub fn running_entries(&self) -> (r: Vec<(String, RunningInfo)>)
        ensures
            forall|i: int|
                0 <= i < r@.len() ==> self.running().dom().contains(#[trigger] r@[i].0@)
                    && self.running()[r@[i].0@] == r@[i].1,
            forall|k: Seq<char>|
                self.running().dom().contains(k) ==> exists|i: int|
                    0 <= i < r@.len() && #[trigger] r@[i].0@ == k,
            forall|i: int, j: int|
                0 <= i < r@.len() && 0 <= j < r@.len() && i != j ==> r@[i].0@ != r@[j].0@,
    {
        proof {
            use_type_invariant(self);
        }
        let mut r: Vec<(String, RunningInfo)> = Vec::new();
        let mut idx: Vec<usize> = Vec::new();
        for i in 0..self.entries.len()
            invariant
                self.unique(),
                r@.len() == idx@.len(),
                forall|m: int|
                    0 <= m < r@.len() ==> #[trigger] idx@[m] < i && self.entries@[idx@[m] as int].id@
                        == r@[m].0@ && self.entries@[idx@[m] as int].running == Some(r@[m].1),
                forall|a: int, b: int|
                    0 <= a < idx@.len() && 0 <= b < idx@.len() && a != b ==> idx@[a] != idx@[b],
                forall|j: int|
                    0 <= j < i && self.entries@[j].running is Some ==> exists|m: int|
                        0 <= m < idx@.len() && #[trigger] idx@[m] == j,
        {
            let ghost old_idx = idx@;
            match &self.entries[i].running {
                Some(info) => {
                    let ghost m = r@.len() as int;
                    r.push((self.entries[i].id.clone(), info.clone()));
                    idx.push(i);
                    assert(idx@[m] == i);
                    assert forall|j: int|
                        0 <= j <= i && self.entries@[j].running is Some implies exists|m2: int|
                            0 <= m2 < idx@.len() && #[trigger] idx@[m2] == j by {
                        if j < i {
                            let m0 = choose|m0: int| 0 <= m0 < old_idx.len() && #[trigger] old_idx[m0] == j;
                            assert(idx@[m0] == j);
                        } else {
                            assert(idx@[m] == j);
                        }
                    }
                },
                None => {},
            }
        }
        proof {
            assert forall|m: int| 0 <= m < r@.len() implies self.running().dom().contains(
                #[trigger] r@[m].0@,
            ) && self.running()[r@[m].0@] == r@[m].1 by {
                self.lemma_index_of(idx@[m] as int);
            }
            assert forall|k: Seq<char>| self.running().dom().contains(k) implies exists|m: int|
                0 <= m < r@.len() && #[trigger] r@[m].0@ == k by {
                let j = self.index_of(k);
                let m = choose|m: int| 0 <= m < idx@.len() && idx@[m] == j;
                assert(r@[m].0@ == k);
            }
            assert forall|a: int, b: int|
                0 <= a < r@.len() && 0 <= b < r@.len() && a != b implies r@[a].0@ != r@[b].0@ by {
                assert(idx@[a] != idx@[b]);
            }
        }
        r
    }
}

/// Statuses seen by polling, each with its VM id, as text.
pub open spec fn seen_view(seen: Seq<(String, Status)>) -> Seq<(Seq<char>, Status)> {
    seen.map_values(|p: (String, Status)| (p.0@, p.1))
}

/// The running table after the statuses `seen` were observed in order: a VM
/// seen shut off leaves it.
pub open spec fn observed_running(
    running: Map<Seq<char>, RunningInfo>,
    seen: Seq<(Seq<char>, Status)>,
) -> Map<Seq<char>, RunningInfo>
    decreases seen.len(),
{
    if seen.len() == 0 {
        running
    } else {
        let r = observed_running(running, seen.drop_last());
        if seen.last().1 == Status::Shutoff {
            r.remove(seen.last().0)
        } else {
            r
        }
    }
}

/// The statuses after `seen` were observed in order: each id's last one.
pub open spec fn observed_statuses(
    statuses: Map<Seq<char>, Status>,
    seen: Seq<(Seq<char>, Status)>,
) -> Map<Seq<char>, Status>
    decreases seen.len(),
{
    if seen.len() == 0 {
        statuses
    } else {
        observed_statuses(statuses, seen.drop_last()).insert(seen.last().0, seen.last().1)
    }
}

/// The ids that observing `seen` in order took out of the running table, in
/// that order.
pub open spec fn removed_ids(
    running: Map<Seq<char>, RunningInfo>,
    seen: Seq<(Seq<char>, Status)>,
) -> Seq<Seq<char>>
    decreases seen.len(),
{
    if seen.len() == 0 {
        Seq::empty()
    } else {
        let before = removed_ids(running, seen.drop_last());
        let (id, st) = seen.last();
        if st == Status::Shutoff && observed_running(running, seen.drop_last()).dom().contains(id) {
            before.push(id)
        } else {
            before
        }
    }
}

/// The state of `vm` for the UI, with status `status`, running process
/// `info` and console proxy port `console_port`.
pub open spec fn update_of(
    vm: Vm,
    status: Status,
    info: Option<RunningInfo>,
    console_port: Option<u16>,
) -> VmUpdate {
    VmUpdate {
        id: vm.id,
        name: vm.name,
        status,
        pid: match info {
            Some(i) => Some(i.pid),
            None => None,
        },
        qmp_port: match info {
            Some(i) => Some(i.qmp_port),
            None => None,
        },
        vnc_port: match info {
            Some(i) => i.effective_vnc_port_spec(),
            None => None,
        },
        console_port,
        started_at: match info {
            Some(i) => i.started_at,
            None => None,
        },
    }
}

impl Registry {
    /// The last observed status of `id`, `Unknown` when none was.
    pub open spec fn status_of(self, id: Seq<char>) -> Status {
        if self.statuses().dom().contains(id) {
            self.statuses()[id]
        } else {
            Status::Unknown
        }
    }

    /// The running process of `id`, if any.
    pub open spec fn info_of(self, id: Seq<char>) -> Option<RunningInfo> {
        if self.running().dom().contains(id) {
            Some(self.running()[id])
        } else {
            None
        }
    }

    /// Records the statuses a round of polling saw, in order; returns the ids
    /// that left the running table (seen shut off while recorded as running).
    pub fn observe_all(&mut self, seen: &Vec<(String, Status)>) -> (removed: Vec<String>)
        ensures
            final(self).running() == observed_running(old(self).running(), seen_view(seen@)),
            final(self).statuses() == observed_statuses(old(self).statuses(), seen_view(seen@)),
            crate::text::string_views(removed@) == removed_ids(
                old(self).running(),
                seen_view(seen@),
            ),
    {
        let ghost running0 = self.running();
        let ghost statuses0 = self.statuses();
        let ghost sv = seen_view(seen@);
        let mut removed: Vec<String> = Vec::new();
        assert(sv.take(0) =~= Seq::<(Seq<char>, Status)>::empty());
        for i in 0..seen.len()
            invariant
                sv == seen_view(seen@),
                sv.len() == seen@.len(),
                self.running() == observed_running(running0, sv.take(i as int)),
                self.statuses() == observed_statuses(statuses0, sv.take(i as int)),
                crate::text::string_views(removed@) == removed_ids(running0, sv.take(i as int)),
        {
            let ghost t = sv.take(i + 1);
            assert(t.drop_last() =~= sv.take(i as int));
            assert(t.last() == sv[i as int]);
            assert(sv[i as int] == (seen@[i as int].0@, seen@[i as int].1));
            let was = self.observe(&seen[i].0, seen[i].1);
            if was {
                let ghost before = crate::text::string_views(removed@);
                let id = seen[i].0.clone();
                removed.push(id);
                assert(crate::text::string_views(removed@) =~= before.push(sv[i as int].0));
            }
        }
        assert(sv.take(seen@.len() as int) =~= sv);
        removed
    }

    /// The state of each of `vms` for the UI, in order, with the console
    /// proxy port that `console_ports` gives at the same position.
    pub fn updates(&self, vms: &Vec<Vm>, console_ports: &Vec<Option<u16>>) -> (r: Vec<VmUpdate>)
        requires
            console_ports@.len() == vms@.len(),
            forall|i: int|
                0 <= i < vms@.len() && self.running().dom().contains(#[trigger] vms@[i].id@)
                    ==> self.running()[vms@[i].id@].vnc_hint_fits(),
        ensures
            r@.len() == vms@.len(),
            forall|i: int|
                0 <= i < vms@.len() ==> #[trigger] r@[i] == update_of(
                    vms@[i],
                    self.status_of(vms@[i].id@),
                    self.info_of(vms@[i].id@),
                    console_ports@[i],
                ),
    {
        let mut r: Vec<VmUpdate> = Vec::new();
        for i in 0..vms.len()
            invariant
                console_ports@.len() == vms@.len(),
                forall|k: int|
                    0 <= k < vms@.len() && self.running().dom().contains(#[trigger] vms@[k].id@)
                        ==> self.running()[vms@[k].id@].vnc_hint_fits(),
                r@.len() == i,
                forall|k: int|
                    0 <= k < i ==> #[trigger] r@[k] == update_of(
                        vms@[k],
                        self.status_of(vms@[k].id@),
                        self.info_of(vms@[k].id@),
                        console_ports@[k],
                    ),
        {
            let vm = &vms[i];
            let info = self.running_info(vm.id.as_str());
            let u = VmUpdate::of(vm, self.status(vm.id.as_str()), info.as_ref(), console_ports[i]);
            assert(u == update_of(
                vms@[i as int],
                self.status_of(vms@[i as int].id@),
                self.info_of(vms@[i as int].id@),
                console_ports@[i as int],
            ));
            r.push(u);
        }
        r
    }
}

/// Stopping a VM undoes starting it: after a start of a VM that was not
/// running and a forced stop of it, the running table is as before.
pub proof fn lemma_stop_undoes_start(
    before: Registry,
    started: Registry,
    stopped: Registry,
    id: Seq<char>,
    info: RunningInfo,
)
    requires
        !before.running().dom().contains(id),
        started.running() == before.running().insert(id, info),
        stopped.running() == started.running().remove(id),
    ensures
        stopped.running() == before.running(),
{
    assert(stopped.running() =~= before.running());
}

/// A started VM keeps its process in the running table through any polling
/// that does not see it shut off, whatever is seen of other VMs.
pub proof fn lemma_started_stays_running(
    running: Map<Seq<char>, RunningInfo>,
    id: Seq<char>,
    info: RunningInfo,
    seen: Seq<(Seq<char>, Status)>,
)
    requires
        forall|i: int| 0 <= i < seen.len() && (#[trigger] seen[i]).0 == id ==> seen[i].1 != Status::Shutoff,
    ensures
        observed_running(running.insert(id, info), seen).dom().contains(id),
        observed_running(running.insert(id, info), seen)[id] == info,
    decreases seen.len(),
{
    if seen.len() > 0 {
        let init = seen.drop_last();
        assert forall|i: int| 0 <= i < init.len() && (#[trigger] init[i]).0 == id implies init[i].1
            != Status::Shutoff by {
            assert(init[i] == seen[i]);
        }
        lemma_started_stays_running(running, id, info, init);
        assert(seen[seen.len() - 1] == seen.last());
    }
}

/// A refresh polls each running VM once and gives it a real status (QMP's
/// answer, or `Shutoff` when QMP cannot be reached; never `Unknown`). After
/// the round every such VM has that status, and stays in the running table
/// exactly when the status is not `Shutoff`; [`Registry::updates`] then shows
/// each VM with these statuses and the processes left in the table.
pub proof fn lemma_refresh_round(
    running: Map<Seq<char>, RunningInfo>,
    statuses: Map<Seq<char>, Status>,
    seen: Seq<(Seq<char>, Status)>,
)
    requires
        forall|i: int, j: int| 0 <= i < j < seen.len() ==> (#[trigger] seen[i]).0 != (#[trigger] seen[j]).0,
        forall|k: Seq<char>|
            running.dom().contains(k) ==> exists|i: int| 0 <= i < seen.len() && (#[trigger] seen[i]).0 == k,
        forall|i: int| 0 <= i < seen.len() ==> (#[trigger] seen[i]).1 != Status::Unknown,
    ensures
        forall|k: Seq<char>|
            #![trigger running.dom().contains(k)]
            running.dom().contains(k) ==> {
                &&& observed_statuses(statuses, seen).dom().contains(k)
                &&& observed_statuses(statuses, seen)[k] != Status::Unknown
                &&& observed_running(running, seen).dom().contains(k) <==> observed_statuses(
                    statuses,
                    seen,
                )[k] != Status::Shutoff
            },
{
    assert forall|k: Seq<char>| #![trigger running.dom().contains(k)] running.dom().contains(k) implies {
        &&& observed_statuses(statuses, seen).dom().contains(k)
        &&& observed_statuses(statuses, seen)[k] != Status::Unknown
        &&& observed_running(running, seen).dom().contains(k) <==> observed_statuses(
            statuses,
            seen,
        )[k] != Status::Shutoff
    } by {
        let i = choose|i: int| 0 <= i < seen.len() && (#[trigger] seen[i]).0 == k;
        assert forall|j: int| i < j < seen.len() implies (#[trigger] seen[j]).0 != seen[i].0 by {
            assert(seen[i].0 != seen[j].0);
        }
        lemma_polled_statuses(running, statuses, seen, i);
        if seen[i].1 != Status::Shutoff {
            assert forall|j: int| 0 <= j < seen.len() && (#[trigger] seen[j]).0 == k implies seen[j].1
                != Status::Shutoff by {
                if j < i {
                    assert(seen[j].0 != seen[i].0);
                } else if j > i {
                    assert(seen[i].0 != seen[j].0);
                }
            }
            lemma_started_stays_running(running, k, running[k], seen);
            assert(running.insert(k, running[k]) =~= running);
        }
    }
}

/// After a round of polling, every VM it saw has a status, the last one seen
/// for it; a VM whose last status seen is `Shutoff` is out of the running
/// table.
pub proof fn lemma_polled_statuses(
    running: Map<Seq<char>, RunningInfo>,
    statuses: Map<Seq<char>, Status>,
    seen: Seq<(Seq<char>, Status)>,
    i: int,
)
    requires
        0 <= i < seen.len(),
        forall|j: int| i < j < seen.len() ==> (#[trigger] seen[j]).0 != seen[i].0,
    ensures
        observed_statuses(statuses, seen).dom().contains(seen[i].0),
        observed_statuses(statuses, seen)[seen[i].0] == seen[i].1,
        seen[i].1 == Status::Shutoff ==> !observed_running(running, seen).dom().contains(seen[i].0),
    decreases seen.len(),
{
    if i < seen.len() - 1 {
        let init = seen.drop_last();
        assert forall|j: int| i < j < init.len() implies (#[trigger] init[j]).0 != init[i].0 by {
            assert(init[j] == seen[j]);
        }
        assert(seen[seen.len() - 1] == seen.last());
        lemma_polled_statuses(running, statuses, init, i);
        assert(init[i] == seen[i]);
    }
}

} // verus!

verus! {

/// `current` with the settings of `patch`; the id and the disk (path,
/// size, ownership) stay those of `current`.
pub open spec fn patched(current: Vm, patch: Vm) -> Vm {
    Vm {
        id: current.id,
        name: patch.name,
        memory_mb: patch.memory_mb,
        cpus: patch.cpus,
        disk_size_gb: current.disk_size_gb,
        disk_path: current.disk_path,
        disk_owned: current.disk_owned,
        iso: patch.iso,
        accel: patch.accel,
        display: patch.display,
        vnc_display: patch.vnc_display,
        machine: patch.machine,
        firmware: patch.firmware,
        cpu: patch.cpu,
        net_mode: patch.net_mode,
        net_model: patch.net_model,
        hostfwd: patch.hostfwd,
    }
}

/// The edited record: the VM must exist and be stopped; disk fields and the
/// id cannot be edited.
pub fn update_record(current: Option<Vm>, patch: Vm, running: bool) -> (r: Result<Vm, ManagerError>)
    ensures
        match current {
            None => r matches Err(e) && e@ == ManagerFault::NotFound { id: patch.id@ },
            Some(c) => if running {
                r matches Err(e) && e@ == ManagerFault::StopBeforeEditing
            } else {
                r == Ok::<Vm, ManagerError>(patched(c, patch))
            },
        },
{
    let c = match current {
        Some(c) => c,
        None => return Err(ManagerError::NotFound { id: patch.id }),
    };
    if running {
        return Err(ManagerError::StopBeforeEditing);
    }
    Ok(
        Vm {
            id: c.id,
            name: patch.name,
            memory_mb: patch.memory_mb,
            cpus: patch.cpus,
            disk_size_gb: c.disk_size_gb,
            disk_path: c.disk_path,
            disk_owned: c.disk_owned,
            iso: patch.iso,
            accel: patch.accel,
            display: patch.display,
            vnc_display: patch.vnc_display,
            machine: patch.machine,
            firmware: patch.firmware,
            cpu: patch.cpu,
            net_mode: patch.net_mode,
            net_model: patch.net_model,
            hostfwd: patch.hostfwd,
        },
    )
}

/// Editing never moves, resizes or changes the ownership of a VM's disk,
/// nor its id, whatever the patch says.
pub proof fn lemma_update_keeps_disk(current: Vm, patch: Vm)
    ensures
        patched(current, patch).id == current.id,
        patched(current, patch).disk_path == current.disk_path,
        patched(current, patch).disk_size_gb == current.disk_size_gb,
        patched(current, patch).disk_owned == current.disk_owned,
{
}

/// Editing saves every setting of the patch other than the disk and the id:
/// name, memory, vCPUs, ISO, accelerator, display and its VNC hint,
/// platform, firmware, CPU model, network mode and card, and forwarding
/// rules all come from the patch.
pub proof fn lemma_update_takes_settings(current: Vm, patch: Vm)
    ensures
        ({
            let r = patched(current, patch);
            &&& r.name == patch.name
            &&& r.memory_mb == patch.memory_mb
            &&& r.cpus == patch.cpus
            &&& r.iso == patch.iso
            &&& r.accel == patch.accel
            &&& r.display == patch.display
            &&& r.vnc_display == patch.vnc_display
            &&& r.machine == patch.machine
            &&& r.firmware == patch.firmware
            &&& r.cpu == patch.cpu
            &&& r.net_mode == patch.net_mode
            &&& r.net_model == patch.net_model
            &&& r.hostfwd == patch.hostfwd
        }),
{
}

/// Where a new VM's disk goes.
pub struct DiskPlan {
    /// The folder to create first (new images only).
    pub folder: Option<String>,
    pub disk_path: String,
    pub disk_size_gb: u32,
    /// A new qcow2 image is to be created (and the VM owns it).
    pub new_image: bool,
}

/// The path has the extension `qcow2` (any letter case).
pub open spec fn is_qcow2(p: Seq<char>) -> bool {
    path_extension_spec(p) matches Some(e) && ascii_lower(e) == "qcow2"@
}

/// The folder of a new image: `<folder>/<name>` when a folder was given,
/// else `<storage>/<name>`.
pub open spec fn new_disk_folder(folder: Option<String>, storage_dir: Seq<char>, name: Seq<char>) -> Seq<
    char,
> {
    match folder {
        Some(f) => if trim(f@).len() > 0 {
            path_join_spec(trim(f@), name)
        } else {
            path_join_spec(storage_dir, name)
        },
        None => path_join_spec(storage_dir, name),
    }
}

/// `plan` is where the disk of `v` goes, with `image_id` naming a new image.
pub open spec fn disk_plan_matches(
    v: ValidatedDraft,
    storage_dir: Seq<char>,
    image_id: Seq<char>,
    plan: DiskPlan,
) -> bool {
    match v.disk {
        DiskSpec::New { size_gb, folder } => {
            let f = new_disk_folder(folder, storage_dir, v.name@);
            &&& plan.folder matches Some(pf) && pf@ == f
            &&& plan.disk_path@ == path_join_spec(f, image_id + ".qcow2"@)
            &&& plan.disk_size_gb == size_gb
            &&& plan.new_image
        },
        DiskSpec::Existing { path } => {
            &&& plan.folder is None
            &&& plan.disk_path@ == trim(path@)
            &&& plan.disk_size_gb == 0
            &&& !plan.new_image
        },
    }
}

/// Plans the disk of a validated draft: a new image `<image_id>.qcow2` in
/// its folder, or an existing image, which must be a qcow2 file.
pub fn plan_disk(v: &ValidatedDraft, storage_dir: &str, image_id: &str) -> (r: Result<
    DiskPlan,
    ManagerError,
>)
    ensures
        match r {
            Ok(plan) => disk_plan_matches(*v, storage_dir@, image_id@, plan),
            Err(e) => e@ == ManagerFault::OnlyQcow2 && (v.disk matches DiskSpec::Existing { path }
                && !is_qcow2(trim(path@))),
        },
        (v.disk is New) ==> r is Ok,
        (v.disk matches DiskSpec::Existing { path } && is_qcow2(trim(path@))) ==> r is Ok,
        (v.disk matches DiskSpec::Existing { path } && !is_qcow2(trim(path@))) ==> (r matches Err(e)
            && e@ == ManagerFault::OnlyQcow2),
{
    match &v.disk {
        DiskSpec::New { size_gb, folder } => {
            let given = match folder {
                Some(f) => {
                    let t = trim_chars(chars_of(f.as_str()).as_slice());
                    if t.len() > 0 {
                        Some(string_of(t.as_slice()))
                    } else {
                        None
                    }
                },
                None => None,
            };
            let dir = match given {
                Some(g) => path_join(g.as_str(), v.name.as_str()),
                None => path_join(storage_dir, v.name.as_str()),
            };
            let mut file = String::from_str(image_id);
            append_str(&mut file, ".qcow2");
            let disk_path = path_join(dir.as_str(), file.as_str());
            Ok(DiskPlan { folder: Some(dir), disk_path, disk_size_gb: *size_gb, new_image: true })
        },
        DiskSpec::Existing { path } => {
            let p = string_of(trim_chars(chars_of(path.as_str()).as_slice()).as_slice());
            let qcow2 = match path_extension(p.as_str()) {
                Some(e) => {
                    let lowered = crate::text::ascii_lower_chars(chars_of(e.as_str()).as_slice());
                    let want = chars_of("qcow2");
                    crate::text::chars_equal(lowered.as_slice(), want.as_slice())
                },
                None => false,
            };
            if !qcow2 {
                return Err(ManagerError::OnlyQcow2);
            }
            Ok(DiskPlan { folder: None, disk_path: p, disk_size_gb: 0, new_image: false })
        },
    }
}

/// The record of a new VM `id` from its validated draft `v`, the draft's
/// remaining settings, and its planned disk.
pub fn assemble_vm(id: String, v: ValidatedDraft, draft: &VmDraft, plan: DiskPlan) -> (r: Vm)
    ensures
        r.id == id,
        r.name == v.name,
        r.memory_mb == v.memory_mb,
        r.cpus == v.cpus,
        r.disk_size_gb == plan.disk_size_gb,
        r.disk_path == plan.disk_path,
        r.disk_owned == plan.new_image,
        r.iso == v.iso,
        r.accel == draft.accel,
        r.display == draft.display,
        r.vnc_display is None,
        r.machine == draft.machine,
        r.firmware == draft.firmware,
        r.cpu == draft.cpu,
        r.net_mode == draft.net_mode,
        r.net_model == draft.net_model,
        r.hostfwd == v.hostfwd,
{
    Vm {
        id,
        name: v.name,
        memory_mb: v.memory_mb,
        cpus: v.cpus,
        disk_size_gb: plan.disk_size_gb,
        disk_path: plan.disk_path,
        disk_owned: plan.new_image,
        iso: v.iso,
        accel: draft.accel,
        display: draft.display,
        vnc_display: None,
        machine: draft.machine,
        firmware: draft.firmware,
        cpu: draft.cpu,
        net_mode: draft.net_mode,
        net_model: draft.net_model,
        hostfwd: v.hostfwd,
    }
}

/// A VM may start when it is not running, exists, and its disk is there.
pub fn start_check(running: bool, id: &str, vm: Option<&Vm>, disk_exists: bool) -> (r: Result<
    (),
    ManagerError,
>)
    ensures
        running ==> (r matches Err(e) && e@ == ManagerFault::AlreadyRunning),
        (!running && (vm is None)) ==> (r matches Err(e) && e@ == (ManagerFault::NotFound { id: id@ })),
        (!running && (vm is Some) && !disk_exists) ==> (r matches Err(e) && e@ == (
        ManagerFault::DiskMissing { path: vm->0.disk_path@ })),
        (r is Ok) <==> (!running && (vm is Some) && disk_exists),
{
    if running {
        return Err(ManagerError::AlreadyRunning);
    }
    match vm {
        None => Err(ManagerError::NotFound { id: String::from_str(id) }),
        Some(v) => if disk_exists {
            Ok(())
        } else {
            Err(ManagerError::DiskMissing { path: v.disk_path.clone() })
        },
    }
}

/// Snapshots are taken, applied and deleted only on a stopped VM that exists.
pub fn snapshot_check(running: bool, id: &str, vm: Option<&Vm>) -> (r: Result<(), ManagerError>)
    ensures
        running ==> (r matches Err(e) && e@ == ManagerFault::PoweredOffRequired),
        (!running && (vm is None)) ==> (r matches Err(e) && e@ == (ManagerFault::NotFound { id: id@ })),
        (r is Ok) <==> (!running && (vm is Some)),
{
    if running {
        return Err(ManagerError::PoweredOffRequired);
    }
    match vm {
        None => Err(ManagerError::NotFound { id: String::from_str(id) }),
        Some(_) => Ok(()),
    }
}

/// The VNC port the console connects to: the VM must be running with a VNC
/// display whose port is known.
pub fn console_vnc_port(info: Option<&RunningInfo>) -> (r: Result<u16, ManagerError>)
    requires
        info matches Some(i) ==> i.vnc_hint_fits(),
    ensures
        match info {
            None => r matches Err(e) && e@ == ManagerFault::NotRunning,
            Some(i) => if i.display != DisplayMode::Vnc {
                r matches Err(e) && e@ == ManagerFault::ConsoleNeedsVnc
            } else {
                match i.effective_vnc_port_spec() {
                    Some(p) => r == Ok::<u16, ManagerError>(p),
                    None => r matches Err(e) && e@ == ManagerFault::VncPortUnknown,
                }
            },
        },
{
    let i = match info {
        Some(i) => i,
        None => return Err(ManagerError::NotRunning),
    };
    if i.display != DisplayMode::Vnc {
        return Err(ManagerError::ConsoleNeedsVnc);
    }
    match i.effective_vnc_port() {
        Some(p) => Ok(p),
        None => Err(ManagerError::VncPortUnknown),
    }
}

/// Seconds since `started_at`, given the clock `now` (both epoch seconds);
/// 0 when either is unknown.
pub fn uptime_secs(started_at: Option<u64>, now: Option<u64>) -> (r: u64)
    requires
        started_at matches Some(t) ==> (now matches Some(n) ==> t <= n),
    ensures
        r == match (started_at, now) {
            (Some(t), Some(n)) => (n - t) as u64,
            _ => 0,
        },
{
    match (started_at, now) {
        (Some(t), Some(n)) => n - t,
        _ => 0,
    }
}

pub open spec fn is_lower_hex(c: char) -> bool {
    ('0' <= c <= '9') || ('a' <= c <= 'f')
}

/// A fresh random (version 4) UUID in its simple form: 32 lower-case hex
/// digits. Each call gives a new random value, so only the form is promised.
#[verifier::external_body]
fn new_uuid_simple() -> (r: String)
    ensures
        r@.len() == 32,
        forall|i: int| 0 <= i < 32 ==> is_lower_hex(#[trigger] r@[i]),
{
    uuid::Uuid::new_v4().simple().to_string()
}

/// The VM id made of the UUID text `u`: `vm` followed by it.
pub fn vm_id(u: &str) -> (r: String)
    ensures
        r@ == "vm"@ + u@,
{
    let mut r = String::from_str("vm");
    append_str(&mut r, u);
    r
}

/// A new VM id: [`vm_id`] of a fresh random UUID's 32 hex digits.
pub fn gen_id() -> (r: String)
    ensures
        exists|h: Seq<char>|
            r@ == "vm"@ + h && h.len() == 32 && forall|i: int|
                0 <= i < 32 ==> is_lower_hex(#[trigger] h[i]),
{
    let u = new_uuid_simple();
    vm_id(u.as_str())
}

} // verus!
