//! On-disk layout of the VM records, the running table's entries, and what
//! deleting a VM touches.

use vstd::prelude::*;

use crate::paths::{path_join, path_join_spec};
use crate::text::{
    append_str, chars_le, chars_of, lemma_text_le_total, lemma_text_le_trans, lowercase, text_le,
    to_lowercase,
};
use crate::vm::{DisplayMode, Vm};

verus! {

/// A running QEMU process of a VM.
#[derive(Debug)]
pub struct RunningInfo {
    pub id: String,
    pub pid: i32,
    pub qmp_port: u16,
    /// Display-number hint (port 5900+N) from older records.
    pub vnc_display: Option<u16>,
    /// The VNC port QMP `query-vnc` reported after start.
    pub vnc_port: Option<u16>,
    pub display: DisplayMode,
    /// Process start time in epoch seconds (for uptime).
    pub started_at: Option<u64>,
}

impl Clone for RunningInfo {
    fn clone(&self) -> (r: RunningInfo)
        ensures
            r == *self,
    {
        RunningInfo {
            id: self.id.clone(),
            pid: self.pid,
            qmp_port: self.qmp_port,
            vnc_display: self.vnc_display,
            vnc_port: self.vnc_port,
            display: self.display,
            started_at: self.started_at,
        }
    }
}

impl RunningInfo {
    /// The port QMP reported; else the port of the display-number hint.
    pub open spec fn effective_vnc_port_spec(self) -> Option<u16> {
        match self.vnc_port {
            Some(p) => Some(p),
            None => match self.vnc_display {
                Some(d) => Some((5900 + d) as u16),
                None => None,
            },
        }
    }

    /// The hint's port `5900 + d` is computed whether or not it is used, and
    /// must fit in a port number.
    pub open spec fn vnc_hint_fits(self) -> bool {
        self.vnc_display matches Some(d) ==> 5900 + d <= 65535
    }

    pub fn effective_vnc_port(&self) -> (r: Option<u16>)
        requires
            self.vnc_hint_fits(),
        ensures
            r == self.effective_vnc_port_spec(),
    {
        let hint = match self.vnc_display {
            Some(d) => Some(5900 + d),
            None => None,
        };
        match self.vnc_port {
            Some(p) => Some(p),
            None => hint,
        }
    }
}

/// What deleting a VM did to its files.
#[derive(Debug)]
pub struct DeleteReport {
    pub json_removed: bool,
    pub pidfile_removed: bool,
    /// Whether removing the disk file was attempted.
    pub disk_attempted: bool,
    pub disk_deleted: bool,
    /// Failures (a file held by a process, ...), shown in the UI.
    pub errors: Vec<String>,
}

impl Clone for DeleteReport {
    fn clone(&self) -> (r: DeleteReport)
        ensures
            r.json_removed == self.json_removed,
            r.pidfile_removed == self.pidfile_removed,
            r.disk_attempted == self.disk_attempted,
            r.disk_deleted == self.disk_deleted,
            r.errors@ == self.errors@,
    {
        let errors = self.errors.clone();
        assert(errors@ =~= self.errors@);
        DeleteReport {
            json_removed: self.json_removed,
            pidfile_removed: self.pidfile_removed,
            disk_attempted: self.disk_attempted,
            disk_deleted: self.disk_deleted,
            errors,
        }
    }
}

/// Where the records live under the manager's base directory.
pub struct Store {
    base: String,
    vms_dir: String,
    running_file: String,
}

/// The files a VM deletion removes. The disk is among them only when the
/// manager created it and the user asked for it.
pub struct DeletePlan {
    /// The disk image to remove.
    pub disk: Option<String>,
    /// The pidfile to remove (when the record exists).
    pub pidfile: Option<String>,
    /// The record file.
    pub record: String,
}

/// What removing one file did.
pub enum RemoveOutcome {
    /// Nothing was there.
    Absent,
    Removed,
    Failed { reason: String },
}

impl RemoveOutcome {
    /// The goal (no such file) is reached.
    pub open spec fn gone(self) -> bool {
        !(self is Failed)
    }
}

impl Store {
    pub open spec fn vms_dir_spec(base: Seq<char>) -> Seq<char> {
        path_join_spec(base, "vms"@)
    }

    pub open spec fn running_file_spec(base: Seq<char>) -> Seq<char> {
        path_join_spec(base, "running.json"@)
    }

    /// The base directory.
    pub closed spec fn base_spec(self) -> Seq<char> {
        self.base@
    }

    /// `vms/` and `running.json` under `base`.
    #[verifier::type_invariant]
    closed spec fn laid_out(self) -> bool {
        &&& self.vms_dir@ == Self::vms_dir_spec(self.base_spec())
        &&& self.running_file@ == Self::running_file_spec(self.base_spec())
    }

    /// The store under `base` (no directory is created here).
    pub fn at(base: String) -> (r: Store)
        ensures
            r.base_spec() == base@,
    {
        let vms_dir = path_join(base.as_str(), "vms");
        let running_file = path_join(base.as_str(), "running.json");
        Store { base, vms_dir, running_file }
    }

    /// The base directory.
    pub fn base(&self) -> (r: &str)
        ensures
            r@ == self.base_spec(),
    {
        self.base.as_str()
    }

    pub fn vms_dir(&self) -> (r: &str)
        ensures
            r@ == Self::vms_dir_spec(self.base_spec()),
    {
        proof {
            use_type_invariant(self);
        }
        self.vms_dir.as_str()
    }

    pub fn running_file(&self) -> (r: &str)
        ensures
            r@ == Self::running_file_spec(self.base_spec()),
    {
        proof {
            use_type_invariant(self);
        }
        self.running_file.as_str()
    }

    /// `vms/<id>.json`.
    pub open spec fn record_spec(base: Seq<char>, id: Seq<char>) -> Seq<char> {
        path_join_spec(Self::vms_dir_spec(base), id + ".json"@)
    }

    pub fn record_path(&self, id: &str) -> (r: String)
        ensures
            r@ == Self::record_spec(self.base_spec(), id@),
    {
        proof {
            use_type_invariant(self);
        }
        let mut file = String::from_str(id);
        append_str(&mut file, ".json");
        path_join(self.vms_dir.as_str(), file.as_str())
    }

    /// `vms/.<id>.json.tmp`, written first and renamed over the record.
    pub open spec fn record_tmp_spec(base: Seq<char>, id: Seq<char>) -> Seq<char> {
        path_join_spec(Self::vms_dir_spec(base), "."@ + id + ".json.tmp"@)
    }

    pub fn record_tmp_path(&self, id: &str) -> (r: String)
        ensures
            r@ == Self::record_tmp_spec(self.base_spec(), id@),
    {
        proof {
            use_type_invariant(self);
        }
        let mut file = String::from_str(".");
        append_str(&mut file, id);
        append_str(&mut file, ".json.tmp");
        path_join(self.vms_dir.as_str(), file.as_str())
    }

    /// `.running.json.tmp` under the base, renamed over `running.json`.
    pub fn running_tmp_path(&self) -> (r: String)
        ensures
            r@ == path_join_spec(self.base_spec(), ".running.json.tmp"@),
    {
        path_join(self.base.as_str(), ".running.json.tmp")
    }

    /// The disk is removed only when the VM owns it and removal was asked for.
    pub open spec fn disk_removal_allowed(vm: Vm, requested: bool) -> bool {
        requested && vm.disk_owned
    }

    /// What deleting the VM `id` removes, given its record (if any).
    pub fn plan_delete(&self, id: &str, vm: Option<&Vm>, delete_disk: bool) -> (p: DeletePlan)
        ensures
            p.record@ == Self::record_spec(self.base_spec(), id@),
            match vm {
                Some(v) => {
                    &&& (p.disk matches Some(d) <==> Self::disk_removal_allowed(*v, delete_disk))
                    &&& (p.disk matches Some(d) ==> d@ == v.disk_path@)
                    &&& (p.pidfile matches Some(f) && f@ == v.pidfile_spec())
                },
                None => p.disk is None && p.pidfile is None,
            },
    {
        proof {
            use_type_invariant(self);
        }
        let record = self.record_path(id);
        match vm {
            Some(v) => {
                let disk = if delete_disk && v.disk_owned {
                    Some(v.disk_path.clone())
                } else {
                    None
                };
                DeletePlan { disk, pidfile: Some(v.pidfile_path()), record }
            },
            None => DeletePlan { disk: None, pidfile: None, record },
        }
    }
}

/// The errors a deletion reports, in order: the disk's, then the record's.
pub open spec fn delete_errors(
    plan: DeletePlan,
    disk: RemoveOutcome,
    record: RemoveOutcome,
) -> Seq<Seq<char>> {
    let disk_err = match (plan.disk, disk) {
        (Some(d), RemoveOutcome::Failed { reason }) => seq![
            "Failed to delete disk "@ + d@ + ": "@ + reason@,
        ],
        _ => Seq::empty(),
    };
    let record_err = match record {
        RemoveOutcome::Failed { reason } => seq!["Failed to remove the VM record: "@ + reason@],
        _ => Seq::empty(),
    };
    disk_err + record_err
}

impl DeleteReport {
    /// The report of carrying out `plan`: `disk` is what removing the disk
    /// did (ignored when the plan keeps the disk), `record` what removing the
    /// record did.
    pub fn from_outcomes(plan: &DeletePlan, disk: RemoveOutcome, record: RemoveOutcome) -> (r:
        DeleteReport)
        ensures
            r.pidfile_removed == plan.pidfile is Some,
            r.disk_attempted == plan.disk is Some,
            r.disk_deleted == (plan.disk is Some && disk.gone()),
            r.json_removed == record.gone(),
            crate::text::string_views(r.errors@) == delete_errors(*plan, disk, record),
    {
        let mut errors: Vec<String> = Vec::new();
        let ghost e0 = crate::text::string_views(errors@);
        assert(e0 =~= Seq::<Seq<char>>::empty());
        let disk_attempted = plan.disk.is_some();
        let mut disk_deleted = false;
        if let Some(d) = &plan.disk {
            match &disk {
                RemoveOutcome::Failed { reason } => {
                    let mut m = String::from_str("Failed to delete disk ");
                    append_str(&mut m, d.as_str());
                    append_str(&mut m, ": ");
                    append_str(&mut m, reason.as_str());
                    crate::text::push_arg(&mut errors, m);
                },
                _ => {
                    disk_deleted = true;
                },
            }
        }
        let ghost e1 = crate::text::string_views(errors@);
        let json_removed = match &record {
            RemoveOutcome::Failed { reason } => {
                let mut m = String::from_str("Failed to remove the VM record: ");
                append_str(&mut m, reason.as_str());
                crate::text::push_arg(&mut errors, m);
                false
            },
            _ => true,
        };
        assert(crate::text::string_views(errors@) =~= delete_errors(*plan, disk, record));
        DeleteReport {
            json_removed,
            pidfile_removed: plan.pidfile.is_some(),
            disk_attempted,
            disk_deleted,
            errors,
        }
    }
}

} // verus!

verus! {

/// The key the VM list is ordered by: the name, lower-cased.
pub open spec fn name_key(vm: Vm) -> Seq<char> {
    lowercase(vm.name@)
}

/// Each VM's key comes no later than the keys of the VMs after it.
pub open spec fn name_sorted(s: Seq<Vm>) -> bool {
    forall|i: int, j: int|
        0 <= i < j < s.len() ==> text_le(name_key(#[trigger] s[i]), name_key(#[trigger] s[j]))
}

/// `v` placed into the ordered `s` after every VM whose key is not greater.
pub open spec fn insert_by_name(s: Seq<Vm>, v: Vm) -> Seq<Vm>
    decreases s.len(),
{
    if s.len() == 0 {
        seq![v]
    } else if text_le(name_key(s.last()), name_key(v)) {
        s.push(v)
    } else {
        insert_by_name(s.drop_last(), v).push(s.last())
    }
}

/// `s` in the order of the VM list: by lower-cased name, VMs with equal keys
/// in the order they came (a stable sort).
pub open spec fn sorted_by_name(s: Seq<Vm>) -> Seq<Vm>
    decreases s.len(),
{
    if s.len() == 0 {
        Seq::empty()
    } else {
        insert_by_name(sorted_by_name(s.drop_last()), s.last())
    }
}

proof fn lemma_insert_at(s: Seq<Vm>, v: Vm, j: int)
    requires
        0 <= j <= s.len(),
        forall|k: int| j <= k < s.len() ==> !text_le(name_key(#[trigger] s[k]), name_key(v)),
        j == 0 || text_le(name_key(s[j - 1]), name_key(v)),
    ensures
        insert_by_name(s, v) == s.insert(j, v),
    decreases s.len(),
{
    if s.len() == 0 {
        assert(s.insert(j, v) =~= seq![v]);
    } else if j == s.len() {
        assert(s.insert(j, v) =~= s.push(v));
    } else {
        assert(!text_le(name_key(s[s.len() - 1]), name_key(v)));
        lemma_insert_at(s.drop_last(), v, j);
        assert(s.insert(j, v) =~= s.drop_last().insert(j, v).push(s.last()));
    }
}

proof fn lemma_insert_sorted(s: Seq<Vm>, v: Vm)
    requires
        name_sorted(s),
    ensures
        name_sorted(insert_by_name(s, v)),
        insert_by_name(s, v).to_multiset() == s.to_multiset().insert(v),
    decreases s.len(),
{
    broadcast use vstd::seq_lib::group_to_multiset_ensures;

    if s.len() == 0 {
        assert(seq![v] =~= Seq::<Vm>::empty().push(v));
        assert(Seq::<Vm>::empty().to_multiset() =~= vstd::multiset::Multiset::empty());
    } else {
        let last = s.last();
        let init = s.drop_last();
        assert(s =~= init.push(last));
        if text_le(name_key(last), name_key(v)) {
            let r = s.push(v);
            assert forall|i: int, j: int| 0 <= i < j < r.len() implies text_le(
                name_key(#[trigger] r[i]),
                name_key(#[trigger] r[j]),
            ) by {
                if j == s.len() {
                    if i < s.len() - 1 {
                        assert(text_le(name_key(s[i]), name_key(s[s.len() - 1])));
                        lemma_text_le_trans(name_key(s[i]), name_key(last), name_key(v));
                    }
                } else {
                    assert(r[i] == s[i] && r[j] == s[j]);
                }
            }
        } else {
            assert(name_sorted(init)) by {
                assert forall|i: int, j: int| 0 <= i < j < init.len() implies text_le(
                    name_key(#[trigger] init[i]),
                    name_key(#[trigger] init[j]),
                ) by {
                    assert(init[i] == s[i] && init[j] == s[j]);
                }
            }
            lemma_insert_sorted(init, v);
            let t = insert_by_name(init, v);
            let r = t.push(last);
            lemma_text_le_total(name_key(last), name_key(v));
            assert forall|i: int, j: int| 0 <= i < j < r.len() implies text_le(
                name_key(#[trigger] r[i]),
                name_key(#[trigger] r[j]),
            ) by {
                if j == t.len() {
                    let x = t[i];
                    assert(t.contains(x));
                    assert(t.to_multiset().count(x) > 0);
                    if x != v {
                        assert(init.to_multiset().count(x) > 0);
                        assert(init.contains(x));
                        let k = choose|k: int| 0 <= k < init.len() && init[k] == x;
                        assert(s[k] == x);
                        assert(text_le(name_key(s[k]), name_key(s[s.len() - 1])));
                    }
                } else {
                    assert(r[i] == t[i] && r[j] == t[j]);
                }
            }
            assert(r.to_multiset() =~= s.to_multiset().insert(v));
        }
    }
}

/// The list order is a sort: each VM's lower-cased name comes no later than
/// those after it, and the list holds exactly the VMs it was made from.
pub proof fn lemma_sorted_by_name(s: Seq<Vm>)
    ensures
        name_sorted(sorted_by_name(s)),
        sorted_by_name(s).to_multiset() == s.to_multiset(),
    decreases s.len(),
{
    broadcast use vstd::seq_lib::group_to_multiset_ensures;

    if s.len() == 0 {
        assert(Seq::<Vm>::empty().to_multiset() =~= vstd::multiset::Multiset::empty());
    } else {
        lemma_sorted_by_name(s.drop_last());
        lemma_insert_sorted(sorted_by_name(s.drop_last()), s.last());
        assert(s =~= s.drop_last().push(s.last()));
    }
}

/// The lower-cased name of `vm`.
fn name_key_chars(vm: &Vm) -> (k: Vec<char>)
    ensures
        k@ == name_key(*vm),
{
    let l = to_lowercase(vm.name.as_str());
    chars_of(l.as_str())
}

/// The VMs in list order: by lower-cased name, equal names in the order given.
pub fn sort_by_name(vms: Vec<Vm>) -> (r: Vec<Vm>)
    ensures
        r@ == sorted_by_name(vms@),
{
    let ghost orig = vms@;
    let mut rest = vms;
    let mut r: Vec<Vm> = Vec::new();
    let n = rest.len();
    let mut i: usize = 0;
    assert(orig.take(0) =~= Seq::<Vm>::empty());
    assert(orig.skip(0) =~= orig);
    while i < n
        invariant
            i <= n == orig.len(),
            rest@ == orig.skip(i as int),
            r@ == sorted_by_name(orig.take(i as int)),
        decreases n - i,
    {
        let v = rest.remove(0);
        assert(v == orig[i as int]);
        assert(rest@ =~= orig.skip(i + 1));
        let kv = name_key_chars(&v);
        let mut j = r.len();
        while j > 0 && !chars_le(name_key_chars(&r[j - 1]).as_slice(), kv.as_slice())
            invariant
                j <= r@.len(),
                kv@ == name_key(v),
                forall|k: int| j <= k < r@.len() ==> !text_le(name_key(#[trigger] r@[k]), name_key(v)),
            decreases j,
        {
            j = j - 1;
        }
        proof {
            lemma_insert_at(r@, v, j as int);
            assert(orig.take(i + 1).drop_last() =~= orig.take(i as int));
            assert(orig.take(i + 1).last() == v);
        }
        r.insert(j, v);
        i = i + 1;
    }
    assert(orig.take(n as int) =~= orig);
    r
}

} // verus!

verus! {

/// `<id>.log` in the storage directory: QEMU's output for VM `id`.
pub open spec fn log_file_spec(storage_dir: Seq<char>, id: Seq<char>) -> Seq<char> {
    path_join_spec(storage_dir, id + ".log"@)
}

/// The log file of VM `id` in the storage directory `storage_dir`.
pub fn log_file(storage_dir: &str, id: &str) -> (r: String)
    ensures
        r@ == log_file_spec(storage_dir@, id@),
{
    let mut file = String::from_str(id);
    append_str(&mut file, ".log");
    path_join(storage_dir, file.as_str())
}

} // verus!
