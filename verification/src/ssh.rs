//! SSH sessions to a VM, opened in an external terminal with the system
//! OpenSSH client.

use vstd::prelude::*;

use crate::text::{append_str, chars_of, decimal, push_arg, push_str_arg, string_views, trim, trim_chars};

verus! {

/// Where to connect.
#[derive(Debug)]
pub struct SshConfig {
    pub host: String,
    pub port: u16,
    pub user: String,
}

impl Default for SshConfig {
    /// `root@127.0.0.1`, port 22.
    fn default() -> (r: SshConfig)
        ensures
            r.host@ == "127.0.0.1"@,
            r.port == 22,
            r.user@ == "root"@,
    {
        SshConfig { host: String::from_str("127.0.0.1"), port: 22, user: String::from_str("root") }
    }
}

/// `user@host`.
pub open spec fn ssh_target(cfg: SshConfig) -> Seq<char> {
    cfg.user@ + "@"@ + cfg.host@
}

/// ssh arguments for the target: port, accept new host keys, `user@host`.
pub open spec fn ssh_args_spec(cfg: SshConfig) -> Seq<Seq<char>> {
    seq!["-p"@, decimal(cfg.port as nat), "-o"@, "StrictHostKeyChecking=accept-new"@, ssh_target(cfg)]
}

pub fn build_ssh_args(cfg: &SshConfig) -> (a: Vec<String>)
    ensures
        string_views(a@) == ssh_args_spec(*cfg),
{
    let mut a: Vec<String> = Vec::new();
    push_str_arg(&mut a, "-p");
    let mut port = String::new();
    crate::text::append_decimal(&mut port, cfg.port as u64);
    push_arg(&mut a, port);
    push_str_arg(&mut a, "-o");
    push_str_arg(&mut a, "StrictHostKeyChecking=accept-new");
    let mut target = cfg.user.clone();
    append_str(&mut target, "@");
    append_str(&mut target, cfg.host.as_str());
    push_arg(&mut a, target);
    assert(string_views(a@) =~= ssh_args_spec(*cfg));
    a
}

/// Why no SSH session was opened.
pub enum SshError {
    EmptyTarget,
    NoTerminal,
    LaunchFailed { reason: String },
}

impl SshError {
    pub fn message(&self) -> (r: String)
        ensures
            match self {
                SshError::EmptyTarget => r@ == "SSH user/host must not be empty"@,
                SshError::NoTerminal => r@ == "no terminal emulator found to run ssh"@,
                SshError::LaunchFailed { reason } => r@ == "failed to launch ssh: "@ + reason@,
            },
    {
        match self {
            SshError::EmptyTarget => String::from_str("SSH user/host must not be empty"),
            SshError::NoTerminal => String::from_str("no terminal emulator found to run ssh"),
            SshError::LaunchFailed { reason } => {
                let mut s = String::from_str("failed to launch ssh: ");
                append_str(&mut s, reason.as_str());
                s
            },
        }
    }
}

/// A session needs a user and a host (blank ones are refused).
pub fn check_target(cfg: &SshConfig) -> (r: Result<(), SshError>)
    ensures
        r is Ok <==> (trim(cfg.user@).len() > 0 && trim(cfg.host@).len() > 0),
        r matches Err(e) ==> e is EmptyTarget,
{
    let user = trim_chars(chars_of(cfg.user.as_str()).as_slice());
    let host = trim_chars(chars_of(cfg.host.as_str()).as_slice());
    if user.len() == 0 || host.len() == 0 {
        Err(SshError::EmptyTarget)
    } else {
        Ok(())
    }
}

/// Terminal emulators tried on Linux, in order, with the option that runs a
/// command.
pub open spec fn linux_terminals() -> Seq<(Seq<char>, Seq<char>)> {
    seq![
        ("gnome-terminal"@, "--"@),
        ("konsole"@, "-e"@),
        ("xfce4-terminal"@, "-x"@),
        ("x-terminal-emulator"@, "-e"@),
        ("xterm"@, "-e"@),
    ]
}

pub fn linux_terminal(i: usize) -> (r: (&'static str, &'static str))
    requires
        i < 5,
    ensures
        (r.0@, r.1@) == linux_terminals()[i as int],
{
    match i {
        0 => ("gnome-terminal", "--"),
        1 => ("konsole", "-e"),
        2 => ("xfce4-terminal", "-x"),
        3 => ("x-terminal-emulator", "-e"),
        _ => ("xterm", "-e"),
    }
}

/// The arguments of terminal `i` that run ssh to the target:
/// `<run option> ssh -p <port> user@host`.
pub fn terminal_args(i: usize, cfg: &SshConfig) -> (a: Vec<String>)
    requires
        i < 5,
    ensures
        string_views(a@) == seq![
            linux_terminals()[i as int].1,
            "ssh"@,
            "-p"@,
            decimal(cfg.port as nat),
            ssh_target(*cfg),
        ],
{
    let (_, run) = linux_terminal(i);
    let mut a: Vec<String> = Vec::new();
    push_str_arg(&mut a, run);
    push_str_arg(&mut a, "ssh");
    push_str_arg(&mut a, "-p");
    let mut port = String::new();
    crate::text::append_decimal(&mut port, cfg.port as u64);
    push_arg(&mut a, port);
    let mut target = cfg.user.clone();
    append_str(&mut target, "@");
    append_str(&mut target, cfg.host.as_str());
    push_arg(&mut a, target);
    assert(string_views(a@) =~= seq![
        linux_terminals()[i as int].1,
        "ssh"@,
        "-p"@,
        decimal(cfg.port as nat),
        ssh_target(*cfg),
    ]);
    a
}

} // verus!
