//! Hardware accelerators: what a QEMU binary supports, and which one a VM gets.

use vstd::prelude::*;

use crate::text::{
    all_ascii_alphanumeric, before_first, char_views, chars_of, check_all_ascii_alphanumeric,
    lines, split_lines, lowercase, string_of, string_views, take_before, to_lowercase, trim, trim_chars,
};
use crate::vm::Accel;

verus! {

/// Accelerators supported by a specific QEMU binary.
#[derive(Debug)]
pub struct AccelSupport {
    known: Vec<String>,
}

impl AccelSupport {
    /// No name is recorded twice.
    #[verifier::type_invariant]
    closed spec fn wf(self) -> bool {
        string_views(self.known@).no_duplicates()
    }

    /// The accelerators' names.
    pub closed spec fn names(self) -> Set<Seq<char>> {
        string_views(self.known@).to_set()
    }

    pub fn supports(&self, accel: &str) -> (b: bool)
        ensures
            b == self.names().contains(accel@),
    {
        let a = String::from_str(accel);
        let mut i: usize = 0;
        while i < self.known.len()
            invariant
                i <= self.known@.len(),
                a@ == accel@,
                forall|k: int| 0 <= k < i ==> self.known@[k]@ != accel@,
            decreases self.known.len() - i,
        {
            if self.known[i] == a {
                assert(string_views(self.known@)[i as int] == accel@);
                return true;
            }
            i = i + 1;
        }
        assert(!string_views(self.known@).contains(accel@));
        false
    }
}

impl Clone for AccelSupport {
    fn clone(&self) -> (r: AccelSupport)
        ensures
            r.names() == self.names(),
    {
        proof {
            use_type_invariant(self);
        }
        let known = self.known.clone();
        assert(known@ =~= self.known@);
        AccelSupport { known }
    }
}

impl Default for AccelSupport {
    fn default() -> (r: AccelSupport)
        ensures
            r.names() == Set::<Seq<char>>::empty(),
    {
        let r = AccelSupport { known: Vec::new() };
        assert(r.names() =~= Set::<Seq<char>>::empty());
        r
    }
}

/// The accelerator name a help line announces: the text before the first
/// `':'`, trimmed and lower-cased.
pub open spec fn line_token(line: Seq<char>) -> Seq<char> {
    lowercase(trim(before_first(trim(line), ':')))
}

/// A help line that names an accelerator: not blank, and its token a single
/// ASCII word of at most 16 characters (headers such as
/// "Accelerators supported by QEMU binary:" hold spaces and are left out).
pub open spec fn names_accel(line: Seq<char>) -> bool {
    let t = line_token(line);
    &&& trim(line).len() > 0
    &&& t.len() > 0
    &&& all_ascii_alphanumeric(t)
    &&& t.len() <= 16
}

/// The tokens of the lines that name an accelerator, in order.
pub open spec fn accel_tokens(ls: Seq<Seq<char>>) -> Seq<Seq<char>>
    decreases ls.len(),
{
    if ls.len() == 0 {
        Seq::empty()
    } else if names_accel(ls.last()) {
        accel_tokens(ls.drop_last()).push(line_token(ls.last()))
    } else {
        accel_tokens(ls.drop_last())
    }
}

/// The accelerators that `qemu-system-x86_64 -accel help` lists in `output`.
pub open spec fn help_accels(output: Seq<char>) -> Set<Seq<char>> {
    accel_tokens(lines(output)).to_set()
}

/// The token of a line, and whether the line names an accelerator.
fn token_of(line: &[char]) -> (r: (String, bool))
    ensures
        r.0@ == line_token(line@),
        r.1 == names_accel(line@),
{
    let trimmed = trim_chars(line);
    let head = take_before(trimmed.as_slice(), ':');
    let head = trim_chars(head.as_slice());
    let head_s = string_of(head.as_slice());
    let token = to_lowercase(head_s.as_str());
    if trimmed.len() == 0 {
        return (token, false);
    }
    let tc = chars_of(token.as_str());
    let ok = tc.len() > 0 && check_all_ascii_alphanumeric(tc.as_slice()) && tc.len() <= 16;
    (token, ok)
}

/// Parse the output of `qemu-system-x86_64 -accel help`.
/// Lines look like: `kvm`, `tcg` or `whpx: Windows Hypervisor Platform support`.
pub fn parse_accel_help(output: &str) -> (r: AccelSupport)
    ensures
        r.names() == help_accels(output@),
{
    let text = chars_of(output);
    let ls = split_lines(text.as_slice());
    let ghost lv = char_views(ls@);
    assert(lv == lines(output@));
    let mut known: Vec<String> = Vec::new();
    for i in 0..ls.len()
        invariant
            lv == char_views(ls@),
            lv.len() == ls@.len(),
            string_views(known@).no_duplicates(),
            string_views(known@).to_set() == accel_tokens(lv.take(i as int)).to_set(),
    {
        assert(lv.take(i + 1).drop_last() == lv.take(i as int));
        assert(lv[i as int] == ls@[i as int]@);
        let (token, ok) = token_of(ls[i].as_slice());
        if ok {
            let ghost before = string_views(known@);
            let mut present = false;
            let mut k: usize = 0;
            while k < known.len()
                invariant
                    k <= known@.len(),
                    before == string_views(known@),
                    !present ==> forall|m: int| 0 <= m < k ==> known@[m]@ != token@,
                    present ==> before.contains(token@),
                decreases known.len() - k,
            {
                if known[k] == token {
                    assert(before[k as int] == token@);
                    present = true;
                }
                k = k + 1;
            }
            let ghost t = token@;
            if !present {
                known.push(token);
                assert(string_views(known@) =~= before.push(t));
                proof {
                    before.lemma_push_to_set_commute(t);
                }
            } else {
                assert(before.to_set().insert(t) =~= before.to_set());
            }
            assert(accel_tokens(lv.take(i + 1)) == accel_tokens(lv.take(i as int)).push(t));
            proof {
                accel_tokens(lv.take(i as int)).lemma_push_to_set_commute(t);
            }
        } else {
            assert(accel_tokens(lv.take(i + 1)) == accel_tokens(lv.take(i as int)));
        }
    }
    assert(lv.take(lv.len() as int) == lv);
    AccelSupport { known }
}

/// The accelerators of a QEMU binary from running `-accel help`: none when
/// it could not be run (`None`), else those its standard output followed by
/// its standard error list.
pub fn support_from_run(run: Option<(String, String)>) -> (r: AccelSupport)
    ensures
        r.names() == match run {
            None => Set::<Seq<char>>::empty(),
            Some((out, err)) => help_accels(out@ + err@),
        },
{
    match run {
        None => AccelSupport::default(),
        Some((out, err)) => {
            let mut text = out;
            crate::text::append_str(&mut text, err.as_str());
            parse_accel_help(text.as_str())
        },
    }
}

/// The operating system the manager runs on.
#[derive(Clone, Copy, PartialEq, Eq, Debug, Structural)]
pub enum HostOs {
    Linux,
    Windows,
    Other,
}

/// The accelerator a VM runs with: `Auto` resolves by platform and by what the
/// binary supports (KVM on Linux when `/dev/kvm` is present and the binary
/// supports it, WHPX on Windows when supported, TCG otherwise); an explicit
/// choice is kept.
pub open spec fn effective_spec(
    accel: Accel,
    supported: Set<Seq<char>>,
    os: HostOs,
    kvm_device: bool,
) -> Accel {
    match accel {
        Accel::Auto => match os {
            HostOs::Linux => if kvm_device && supported.contains("kvm"@) {
                Accel::Kvm
            } else {
                Accel::Tcg
            },
            HostOs::Windows => if supported.contains("whpx"@) {
                Accel::Whpx
            } else {
                Accel::Tcg
            },
            HostOs::Other => Accel::Tcg,
        },
        other => other,
    }
}

/// Resolve `Auto` taking the platform and actually supported accelerators
/// into account; `kvm_device` says whether `/dev/kvm` is present.
pub fn effective(accel: Accel, support: &AccelSupport, os: HostOs, kvm_device: bool) -> (r: Accel)
    ensures
        r == effective_spec(accel, support.names(), os, kvm_device),
{
    match accel {
        Accel::Auto => match os {
            HostOs::Linux => {
                if kvm_device && support.supports("kvm") {
                    Accel::Kvm
                } else {
                    Accel::Tcg
                }
            },
            HostOs::Windows => {
                if support.supports("whpx") {
                    Accel::Whpx
                } else {
                    Accel::Tcg
                }
            },
            HostOs::Other => Accel::Tcg,
        },
        other => other,
    }
}

} // verus!

verus! {

/// `Auto` always resolves to a concrete accelerator, and to KVM or WHPX only
/// on their platform and when the binary supports them (KVM also needs
/// `/dev/kvm`); TCG is the fallback.
pub proof fn lemma_auto_resolves_to_supported(supported: Set<Seq<char>>, os: HostOs, kvm_device: bool)
    ensures
        ({
            let r = effective_spec(Accel::Auto, supported, os, kvm_device);
            &&& r == Accel::Kvm || r == Accel::Whpx || r == Accel::Tcg
            &&& r == Accel::Kvm ==> os == HostOs::Linux && kvm_device && supported.contains("kvm"@)
            &&& r == Accel::Whpx ==> os == HostOs::Windows && supported.contains("whpx"@)
        }),
{
}

/// An explicit accelerator is used as chosen, whatever the host.
pub proof fn lemma_explicit_accel_kept(
    accel: Accel,
    supported: Set<Seq<char>>,
    os: HostOs,
    kvm_device: bool,
)
    requires
        accel != Accel::Auto,
    ensures
        effective_spec(accel, supported, os, kvm_device) == accel,
{
}

} // verus!

verus! {

proof fn lemma_accel_tokens_contain(ls: Seq<Seq<char>>, x: Seq<char>)
    ensures
        accel_tokens(ls).contains(x) <==> exists|i: int|
            0 <= i < ls.len() && names_accel(#[trigger] ls[i]) && line_token(ls[i]) == x,
    decreases ls.len(),
{
    if ls.len() > 0 {
        let init = ls.drop_last();
        lemma_accel_tokens_contain(init, x);
        if exists|i: int| 0 <= i < ls.len() && names_accel(#[trigger] ls[i]) && line_token(ls[i]) == x {
            let i = choose|i: int| 0 <= i < ls.len() && names_accel(#[trigger] ls[i]) && line_token(ls[i]) == x;
            if i < ls.len() - 1 {
                assert(init[i] == ls[i]);
                assert(accel_tokens(init).contains(x));
                if names_accel(ls.last()) {
                    assert(accel_tokens(ls) == accel_tokens(init).push(line_token(ls.last())));
                    let j = choose|j: int| 0 <= j < accel_tokens(init).len() && accel_tokens(init)[j] == x;
                    assert(accel_tokens(ls)[j] == x);
                }
            } else {
                assert(accel_tokens(ls) == accel_tokens(init).push(line_token(ls.last())));
                assert(accel_tokens(ls)[accel_tokens(init).len() as int] == x);
            }
        }
        if accel_tokens(ls).contains(x) {
            if names_accel(ls.last()) && line_token(ls.last()) == x {
                assert(names_accel(ls[ls.len() - 1]));
            } else if names_accel(ls.last()) {
                let t = accel_tokens(init).push(line_token(ls.last()));
                let j = choose|j: int| 0 <= j < t.len() && t[j] == x;
                assert(j < accel_tokens(init).len());
                assert(accel_tokens(init)[j] == x);
                let i = choose|i: int| 0 <= i < init.len() && names_accel(#[trigger] init[i]) && line_token(init[i]) == x;
                assert(ls[i] == init[i]);
            } else {
                let i = choose|i: int| 0 <= i < init.len() && names_accel(#[trigger] init[i]) && line_token(init[i]) == x;
                assert(ls[i] == init[i]);
            }
        }
    }
}

/// The accelerators that the help output lists are exactly the tokens of
/// its lines that name one: the text before the first `':'` of a non-blank
/// line, trimmed and lower-cased, when that is a single ASCII word of 1 to 16
/// letters and digits.
pub proof fn lemma_help_accels(output: Seq<char>, x: Seq<char>)
    ensures
        help_accels(output).contains(x) <==> exists|i: int|
            0 <= i < lines(output).len() && names_accel(#[trigger] lines(output)[i])
                && line_token(lines(output)[i]) == x,
{
    lemma_accel_tokens_contain(lines(output), x);
}

} // verus!
