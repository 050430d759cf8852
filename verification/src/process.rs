//! Checks made before signalling a QEMU process: a PID may have been reused
//! by another program since QEMU started.

use vstd::prelude::*;

use crate::paths::opt_view;
use crate::text::{
    append_int, append_str, ascii_lower, ascii_lower_chars, char_views, chars_equal, chars_of,
    copy_range, has_prefix, int_text, lines, split_lines, starts_with, lowercase, string_of,
    to_lowercase, trim, trim_chars,
};

verus! {

/// The process image `name` is the expected binary: lower-cased, it starts
/// with the lower-cased `prefix`.
pub open spec fn image_matches(name: Seq<char>, prefix: Seq<char>) -> bool {
    starts_with(lowercase(name), lowercase(prefix))
}

fn matches_prefix(name: &str, prefix: &str) -> (b: bool)
    ensures
        b == image_matches(name@, prefix@),
{
    let n = to_lowercase(name);
    let p = to_lowercase(prefix);
    let nc = chars_of(n.as_str());
    let pc = chars_of(p.as_str());
    has_prefix(nc.as_slice(), pc.as_slice())
}

/// Whether the process whose image name is `image_name` (`None`: no such
/// process) is the expected binary.
pub fn is_alive(image_name: Option<&str>, expect_prefix: &str) -> (b: bool)
    ensures
        b == (image_name matches Some(n) && image_matches(n@, expect_prefix@)),
{
    match image_name {
        Some(n) => matches_prefix(n, expect_prefix),
        None => false,
    }
}

/// Why a process was not stopped.
pub enum KillError {
    /// The PID now belongs to another program.
    Foreign { pid: i32, name: String, expected: String },
    /// The kill command failed.
    Failed { pid: i32 },
}

pub enum KillFault {
    Foreign { pid: i32, name: Seq<char>, expected: Seq<char> },
    Failed { pid: i32 },
}

impl View for KillError {
    type V = KillFault;

    open spec fn view(&self) -> KillFault {
        match self {
            KillError::Foreign { pid, name, expected } => KillFault::Foreign {
                pid: *pid,
                name: name@,
                expected: expected@,
            },
            KillError::Failed { pid } => KillFault::Failed { pid: *pid },
        }
    }
}

impl KillFault {
    pub open spec fn message_spec(self) -> Seq<char> {
        match self {
            KillFault::Foreign { pid, name, expected } => "PID "@ + int_text(pid as int)
                + " теперь принадлежит '"@ + name + "', а не '"@ + expected
                + "*'. Процесс не будет остановлен."@,
            KillFault::Failed { pid } => "Не удалось завершить процесс "@ + int_text(pid as int),
        }
    }
}

impl KillError {
    pub fn message(&self) -> (r: String)
        ensures
            r@ == self@.message_spec(),
    {
        match self {
            KillError::Foreign { pid, name, expected } => {
                let mut s = String::from_str("PID ");
                append_int(&mut s, *pid as i64);
                append_str(&mut s, " теперь принадлежит '");
                append_str(&mut s, name.as_str());
                append_str(&mut s, "', а не '");
                append_str(&mut s, expected.as_str());
                append_str(&mut s, "*'. Процесс не будет остановлен.");
                s
            },
            KillError::Failed { pid } => {
                let mut s = String::from_str("Не удалось завершить процесс ");
                append_int(&mut s, *pid as i64);
                s
            },
        }
    }
}

/// What to do about a forced stop of `pid`.
pub enum KillDecision {
    /// The process no longer exists: the stop has succeeded.
    AlreadyGone,
    /// The process is the expected binary: kill it.
    Kill,
    /// The PID belongs to another program: leave it alone.
    Refuse(KillError),
}

/// A process is killed only when its image is the expected binary: a PID
/// reused by another program is refused, a vanished process counts as stopped.
pub fn kill_decision(pid: i32, image_name: Option<&str>, expect_prefix: &str) -> (d: KillDecision)
    ensures
        match image_name {
            None => d is AlreadyGone,
            Some(n) => if image_matches(n@, expect_prefix@) {
                d is Kill
            } else {
                d matches KillDecision::Refuse(e) && e@ == (KillFault::Foreign {
                    pid,
                    name: n@,
                    expected: expect_prefix@,
                })
            },
        },
{
    match image_name {
        None => KillDecision::AlreadyGone,
        Some(n) => {
            if matches_prefix(n, expect_prefix) {
                KillDecision::Kill
            } else {
                KillDecision::Refuse(
                    KillError::Foreign {
                        pid,
                        name: String::from_str(n),
                        expected: String::from_str(expect_prefix),
                    },
                )
            }
        },
    }
}

} // verus!

verus! {

/// `s` without its leading `'"'` characters.
pub open spec fn strip_quotes_start(s: Seq<char>) -> Seq<char>
    decreases s.len(),
{
    if s.len() > 0 && s[0] == '"' {
        strip_quotes_start(s.drop_first())
    } else {
        s
    }
}

/// `s` without its trailing `'"'` characters.
pub open spec fn strip_quotes_end(s: Seq<char>) -> Seq<char>
    decreases s.len(),
{
    if s.len() > 0 && s.last() == '"' {
        strip_quotes_end(s.drop_last())
    } else {
        s
    }
}

/// `s` without the `'"'` characters at either end (`trim_matches('"')`).
pub open spec fn strip_quotes(s: Seq<char>) -> Seq<char> {
    strip_quotes_end(strip_quotes_start(s))
}

/// The image name that `tasklist /FO CSV /NH` reports: its first line,
/// trimmed, when it is a quoted CSV row, without the quotes at its ends; an
/// `INFO:` notice (no such process) gives none.
pub open spec fn tasklist_image_spec(out: Seq<char>) -> Option<Seq<char>> {
    let ls = lines(out);
    if ls.len() == 0 {
        None
    } else {
        let first = trim(ls[0]);
        if first.len() > 0 && first[0] == '"' {
            let name = strip_quotes(first);
            if ascii_lower(name) == "info:"@ {
                None
            } else {
                Some(name)
            }
        } else {
            None
        }
    }
}

proof fn lemma_strip_start_skip(s: Seq<char>, i: int)
    requires
        0 <= i <= s.len(),
        forall|k: int| 0 <= k < i ==> #[trigger] s[k] == '"',
    ensures
        strip_quotes_start(s) == strip_quotes_start(s.subrange(i, s.len() as int)),
    decreases i,
{
    if i > 0 {
        lemma_strip_start_skip(s, i - 1);
        let t = s.subrange(i - 1, s.len() as int);
        assert(t.drop_first() == s.subrange(i, s.len() as int));
    } else {
        assert(s.subrange(0, s.len() as int) == s);
    }
}

proof fn lemma_strip_end_skip(s: Seq<char>, j: int)
    requires
        0 <= j <= s.len(),
        forall|k: int| j <= k < s.len() ==> #[trigger] s[k] == '"',
    ensures
        strip_quotes_end(s) == strip_quotes_end(s.subrange(0, j)),
    decreases s.len() - j,
{
    if j < s.len() {
        lemma_strip_end_skip(s, j + 1);
        let t = s.subrange(0, j + 1);
        assert(t.drop_last() == s.subrange(0, j));
    } else {
        assert(s.subrange(0, s.len() as int) == s);
    }
}

/// `s` without the `'"'` characters at either end.
fn strip_quote_chars(s: &[char]) -> (r: Vec<char>)
    ensures
        r@ == strip_quotes(s@),
{
    let n = s.len();
    let mut i: usize = 0;
    while i < n && s[i] == '"'
        invariant
            i <= n == s@.len(),
            forall|k: int| 0 <= k < i ==> #[trigger] s@[k] == '"',
        decreases n - i,
    {
        i = i + 1;
    }
    proof {
        lemma_strip_start_skip(s@, i as int);
    }
    let ghost rest = s@.subrange(i as int, n as int);
    assert(strip_quotes_start(s@) == rest) by {
        if rest.len() > 0 {
            assert(rest[0] == s@[i as int]);
        }
    }
    let mut j: usize = n;
    while j > i && s[j - 1] == '"'
        invariant
            i <= j <= n == s@.len(),
            rest == s@.subrange(i as int, n as int),
            forall|k: int| j - i <= k < rest.len() ==> #[trigger] rest[k] == '"',
        decreases j,
    {
        j = j - 1;
    }
    proof {
        lemma_strip_end_skip(rest, j - i);
        let t = rest.subrange(0, j - i);
        assert(t == s@.subrange(i as int, j as int));
        if t.len() > 0 {
            assert(t.last() == s@[j - 1]);
        }
    }
    copy_range(s, i, j)
}

/// The image name in the output of `tasklist /FO CSV /NH` for one PID.
pub fn tasklist_image(out: &str) -> (r: Option<String>)
    ensures
        opt_view(r) == tasklist_image_spec(out@),
{
    let text = chars_of(out);
    let ls = split_lines(text.as_slice());
    if ls.len() == 0 {
        return None;
    }
    assert(char_views(ls@)[0] == ls@[0]@);
    let first = trim_chars(ls[0].as_slice());
    if first.len() == 0 || first[0] != '"' {
        return None;
    }
    let name = strip_quote_chars(first.as_slice());
    let lower = ascii_lower_chars(name.as_slice());
    let info = chars_of("info:");
    if chars_equal(lower.as_slice(), info.as_slice()) {
        None
    } else {
        Some(string_of(name.as_slice()))
    }
}

/// The image name in `/proc/<pid>/comm`: its contents, trimmed.
pub fn comm_image(contents: &str) -> (r: String)
    ensures
        r@ == trim(contents@),
{
    string_of(trim_chars(chars_of(contents).as_slice()).as_slice())
}

} // verus!
