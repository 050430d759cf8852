//! qcow2 snapshots: names, `qemu-img snapshot` command lines and the listing.

use vstd::prelude::*;

use crate::text::{
    alphanumeric, append_int, append_str, chars_of, int_text, is_alphanumeric,
    is_ascii_alphanumeric, is_ascii_seq, push_arg, push_str_arg, string_of, string_views, trim,
    trim_chars,
};

verus! {

/// A snapshot as the UI lists it.
#[derive(Debug)]
pub struct SnapInfo {
    pub name: String,
    /// The snapshot's numeric id (shown as "id").
    pub tag: Option<String>,
    pub date_time: Option<String>,
}

impl Clone for SnapInfo {
    fn clone(&self) -> (r: SnapInfo)
        ensures
            r == *self,
    {
        SnapInfo { name: self.name.clone(), tag: self.tag.clone(), date_time: self.date_time.clone() }
    }
}

/// One entry of `qemu-img snapshot -l --output=json`.
pub struct RawSnapshot {
    pub name: String,
    pub id: Option<String>,
    pub date_sec: Option<i64>,
    pub date_nsec: Option<i64>,
}

/// The date shown for a snapshot: its epoch seconds (sortable; the
/// nanoseconds are not shown).
pub fn format_date(sec: i64, nsec: i64) -> (r: Option<String>)
    ensures
        r matches Some(s) && s@ == int_text(sec as int),
{
    let _ = nsec;
    let mut s = String::new();
    append_int(&mut s, sec);
    Some(s)
}

impl SnapInfo {
    pub fn from_raw(raw: RawSnapshot) -> (r: SnapInfo)
        ensures
            r.name == raw.name,
            r.tag == raw.id,
            match raw.date_sec {
                Some(sec) => r.date_time matches Some(d) && d@ == int_text(sec as int),
                None => r.date_time is None,
            },
    {
        let date_time = match raw.date_sec {
            Some(sec) => format_date(
                sec,
                match raw.date_nsec {
                    Some(n) => n,
                    None => 0,
                },
            ),
            None => None,
        };
        SnapInfo { name: raw.name, tag: raw.id, date_time }
    }
}

/// Why a snapshot name was refused.
#[derive(Clone, Copy, PartialEq, Eq, Debug, Structural)]
pub enum SnapshotNameError {
    Empty,
    Invalid,
}

impl SnapshotNameError {
    pub open spec fn message_spec(self) -> Seq<char> {
        match self {
            SnapshotNameError::Empty => "Имя снапшота не может быть пустым"@,
            SnapshotNameError::Invalid => "Имя снапшота: буквы, цифры, пробел и символы - _ . (до 60 символов)"@,
        }
    }

    pub fn message(&self) -> (r: String)
        ensures
            r@ == self.message_spec(),
    {
        match self {
            SnapshotNameError::Empty => String::from_str("Имя снапшота не может быть пустым"),
            SnapshotNameError::Invalid => String::from_str(
                "Имя снапшота: буквы, цифры, пробел и символы - _ . (до 60 символов)",
            ),
        }
    }
}

/// Letters, digits, space and `- _ .`.
pub open spec fn snapshot_char_ok(c: char) -> bool {
    alphanumeric(c) || c == '-' || c == '_' || c == ' ' || c == '.'
}

/// Why the name `name` is refused: empty once trimmed, or longer than 60
/// characters, or holding another character.
pub open spec fn snapshot_name_fault(name: Seq<char>) -> Option<SnapshotNameError> {
    let t = trim(name);
    if t.len() == 0 {
        Some(SnapshotNameError::Empty)
    } else if t.len() > 60 || !(forall|i: int|
        0 <= i < t.len() ==> snapshot_char_ok(#[trigger] t[i])) {
        Some(SnapshotNameError::Invalid)
    } else {
        None
    }
}

/// A valid snapshot name, trimmed.
pub fn valid_snapshot_name(name: &str) -> (r: Result<String, SnapshotNameError>)
    ensures
        match r {
            Ok(n) => snapshot_name_fault(name@) is None && n@ == trim(name@),
            Err(e) => snapshot_name_fault(name@) == Some(e),
        },
{
    let t = trim_chars(chars_of(name).as_slice());
    if t.len() == 0 {
        return Err(SnapshotNameError::Empty);
    }
    if t.len() > 60 {
        return Err(SnapshotNameError::Invalid);
    }
    for i in 0..t.len()
        invariant
            t@ == trim(name@),
            forall|k: int| 0 <= k < i ==> snapshot_char_ok(#[trigger] t@[k]),
    {
        let c = t[i];
        if !(is_alphanumeric(c) || c == '-' || c == '_' || c == ' ' || c == '.') {
            assert(!snapshot_char_ok(t@[i as int]));
            return Err(SnapshotNameError::Invalid);
        }
    }
    Ok(string_of(t.as_slice()))
}

/// The snapshot operations of `qemu-img snapshot`.
#[derive(Clone, Copy, PartialEq, Eq, Debug, Structural)]
pub enum SnapshotOp {
    Create,
    Apply,
    Delete,
}

impl SnapshotOp {
    pub open spec fn flag_spec(self) -> Seq<char> {
        match self {
            SnapshotOp::Create => "-c"@,
            SnapshotOp::Apply => "-a"@,
            SnapshotOp::Delete => "-d"@,
        }
    }

    pub fn flag(&self) -> (r: &'static str)
        ensures
            r@ == self.flag_spec(),
    {
        match self {
            SnapshotOp::Create => "-c",
            SnapshotOp::Apply => "-a",
            SnapshotOp::Delete => "-d",
        }
    }
}

/// `qemu-img` arguments that list the snapshots of `disk` as JSON.
pub fn list_args(disk: &str) -> (a: Vec<String>)
    ensures
        string_views(a@) == seq!["snapshot"@, "-l"@, "--output=json"@, disk@],
{
    let mut a: Vec<String> = Vec::new();
    push_str_arg(&mut a, "snapshot");
    push_str_arg(&mut a, "-l");
    push_str_arg(&mut a, "--output=json");
    push_str_arg(&mut a, disk);
    assert(string_views(a@) =~= seq!["snapshot"@, "-l"@, "--output=json"@, disk@]);
    a
}

/// `qemu-img` arguments for `op` on the snapshot `name` of `disk`; the name
/// must be valid, and is passed trimmed.
pub fn snapshot_args(op: SnapshotOp, disk: &str, name: &str) -> (r: Result<
    Vec<String>,
    SnapshotNameError,
>)
    ensures
        match r {
            Ok(a) => snapshot_name_fault(name@) is None && string_views(a@) == seq![
                "snapshot"@,
                op.flag_spec(),
                trim(name@),
                disk@,
            ],
            Err(e) => snapshot_name_fault(name@) == Some(e),
        },
{
    let n = valid_snapshot_name(name)?;
    let mut a: Vec<String> = Vec::new();
    push_str_arg(&mut a, "snapshot");
    push_str_arg(&mut a, op.flag());
    let ghost nv = n@;
    push_arg(&mut a, n);
    push_str_arg(&mut a, disk);
    assert(string_views(a@) =~= seq!["snapshot"@, op.flag_spec(), nv, disk@]);
    Ok(a)
}

/// The error text of a failed `qemu-img` run.
pub fn qemu_img_failure(stderr: &str) -> (r: String)
    ensures
        r@ == "qemu-img: "@ + trim(stderr@),
{
    let mut s = String::from_str("qemu-img: ");
    let t = string_of(trim_chars(chars_of(stderr).as_slice()).as_slice());
    append_str(&mut s, t.as_str());
    s
}

} // verus!

verus! {

/// A name that was accepted is accepted again as it was returned: checking
/// is stable under the trimming that acceptance applies.
pub proof fn lemma_valid_name_stable(name: Seq<char>)
    requires
        snapshot_name_fault(name) is None,
    ensures
        snapshot_name_fault(trim(name)) is None,
        trim(trim(name)) == trim(name),
{
    crate::text::lemma_trim_idempotent(name);
}

/// An ASCII name is accepted exactly when, trimmed, it is not empty, has at
/// most 60 characters, and holds only ASCII letters, digits, space and
/// `- _ .`.
pub proof fn lemma_ascii_snapshot_names(name: Seq<char>)
    requires
        is_ascii_seq(name),
    ensures
        snapshot_name_fault(name) is None <==> {
            let t = trim(name);
            &&& 0 < t.len() <= 60
            &&& forall|i: int|
                0 <= i < t.len() ==> is_ascii_alphanumeric(#[trigger] t[i]) || t[i] == '-' || t[i]
                    == '_' || t[i] == ' ' || t[i] == '.'
        },
{
    crate::text::lemma_trim_ascii(name);
}

} // verus!
