//! The SSH target check and the fixed, non-interactive SSH argument lists.
use vstd::prelude::*;
use super::CollectorError;
use super::local::FIXED_COLLECT_COMMAND;
use crate::text::{chars_of, debug_quoted, debug_string, string_views};

verus! {

/// A character that may appear in an SSH target: ASCII letters and digits, `.`, `-`, `_`, `@`.
pub open spec fn is_host_char(c: char) -> bool {
    ('a' <= c && c <= 'z') || ('A' <= c && c <= 'Z') || ('0' <= c && c <= '9') || c == '.'
        || c == '-' || c == '_' || c == '@'
}

/// An SSH target that cannot be read as an option: not empty, not starting
/// with `-`, and made only of host characters.
pub open spec fn valid_ssh_host(h: Seq<char>) -> bool {
    &&& h.len() > 0
    &&& h[0] != '-'
    &&& forall|i: int| 0 <= i < h.len() ==> is_host_char(#[trigger] h[i])
}

/// Accepts a safe SSH target; refuses any other as an unsupported source that
/// quotes it.
pub fn validate_ssh_host(host: &str) -> (r: Result<(), CollectorError>)
    ensures
        valid_ssh_host(host@) ==> r is Ok,
        !valid_ssh_host(host@) ==> (r matches Err(CollectorError::UnsupportedSource(m)) && m@
            == "invalid SSH host alias: "@ + debug_quoted(host@)),
{
    let h = chars_of(host);
    let mut ok = h.len() > 0 && h[0] != '-';
    let mut i: usize = 0;
    while ok && i < h.len()
        invariant
            i <= h.len(),
            h@ == host@,
            ok ==> h@.len() > 0 && h@[0] != '-',
            ok ==> forall|j: int| 0 <= j < i ==> is_host_char(#[trigger] h@[j]),
            !ok ==> !valid_ssh_host(host@),
        decreases h.len() - i,
    {
        let c = h[i];
        if !(('a' <= c && c <= 'z') || ('A' <= c && c <= 'Z') || ('0' <= c && c <= '9') || c == '.'
            || c == '-' || c == '_' || c == '@') {
            ok = false;
        }
        i = i + 1;
    }
    if ok {
        Ok(())
    } else {
        let m = String::from_str("invalid SSH host alias: ");
        Err(CollectorError::UnsupportedSource(m.concat(debug_string(host).as_str())))
    }
}

/// The options every SSH call uses: batch mode, no password or keyboard prompts,
/// a 5 second connect timeout and a single attempt.
pub open spec fn safety_options() -> Seq<Seq<char>> {
    seq![
        "-o"@, "BatchMode=yes"@,
        "-o"@, "PasswordAuthentication=no"@,
        "-o"@, "KbdInteractiveAuthentication=no"@,
        "-o"@, "ConnectTimeout=5"@,
        "-o"@, "ConnectionAttempts=1"@,
        "-o"@, "NumberOfPasswordPrompts=0"@,
    ]
}

/// Connection sharing options, used where the platform supports them.
pub open spec fn multiplex_options() -> Seq<Seq<char>> {
    seq![
        "-o"@, "ControlMaster=auto"@,
        "-o"@, "ControlPersist=10m"@,
        "-o"@, "ControlPath=~/.ssh/rktop-%C"@,
    ]
}

/// The arguments before the target: `-n` when standard input is detached, the
/// safety options, and the sharing options when `multiplex` holds.
pub open spec fn base_args(detach_stdin: bool, multiplex: bool) -> Seq<Seq<char>> {
    (if detach_stdin { seq!["-n"@] } else { Seq::empty() }) + safety_options() + (if multiplex {
        multiplex_options()
    } else {
        Seq::empty()
    })
}

fn push_arg(args: &mut Vec<String>, lit: &str)
    ensures
        string_views(final(args)@) == string_views(old(args)@).push(lit@),
{
    let ghost before = args@;
    args.push(String::from_str(lit));
    assert(string_views(args@) =~= string_views(before).push(lit@));
}

fn push_option(args: &mut Vec<String>, lit: &str)
    ensures
        string_views(final(args)@) == string_views(old(args)@).push("-o"@).push(lit@),
{
    push_arg(args, "-o");
    push_arg(args, lit);
}

/// The SSH arguments that come before the target (see `base_args`).
pub fn ssh_base_args(detach_stdin: bool, multiplex: bool) -> (r: Vec<String>)
    ensures
        string_views(r@) == base_args(detach_stdin, multiplex),
{
    let mut args: Vec<String> = Vec::new();
    if detach_stdin {
        push_arg(&mut args, "-n");
    }
    let ghost start = string_views(args@);
    push_option(&mut args, "BatchMode=yes");
    push_option(&mut args, "PasswordAuthentication=no");
    push_option(&mut args, "KbdInteractiveAuthentication=no");
    push_option(&mut args, "ConnectTimeout=5");
    push_option(&mut args, "ConnectionAttempts=1");
    push_option(&mut args, "NumberOfPasswordPrompts=0");
    assert(string_views(args@) =~= start + safety_options());
    let ghost mid = string_views(args@);
    if multiplex {
        push_option(&mut args, "ControlMaster=auto");
        push_option(&mut args, "ControlPersist=10m");
        push_option(&mut args, "ControlPath=~/.ssh/rktop-%C");
        assert(string_views(args@) =~= mid + multiplex_options());
    } else {
        assert(string_views(args@) =~= mid + Seq::<Seq<char>>::empty());
    }
    assert(base_args(detach_stdin, multiplex) =~= start + safety_options() + (if multiplex {
        multiplex_options()
    } else {
        Seq::<Seq<char>>::empty()
    }));
    args
}

/// The text inside single quotes that a POSIX shell reads back as `s`: each
/// `'` written as `'\''`.
pub open spec fn quoted_body(s: Seq<char>) -> Seq<char>
    decreases s.len(),
{
    if s.len() == 0 {
        Seq::empty()
    } else {
        quoted_body(s.drop_last()) + if s.last() == '\'' {
            seq!['\'', '\\', '\'', '\'']
        } else {
            seq![s.last()]
        }
    }
}

/// `s` as one single-quoted shell word.
pub open spec fn shell_quoted(s: Seq<char>) -> Seq<char> {
    seq!['\''] + quoted_body(s) + seq!['\'']
}

/// `s` as one single-quoted shell word (see `shell_quoted`).
pub fn shell_quote(s: &str) -> (r: String)
    ensures
        r@ == shell_quoted(s@),
{
    let v = chars_of(s);
    let mut out = String::new();
    out.push('\'');
    let mut i: usize = 0;
    assert(v@.take(0) =~= Seq::<char>::empty());
    while i < v.len()
        invariant
            i <= v.len(),
            v@ == s@,
            out@ == seq!['\''] + quoted_body(v@.take(i as int)),
        decreases v.len() - i,
    {
        assert(v@.take(i + 1).drop_last() =~= v@.take(i as int));
        assert(v@.take(i + 1).last() == v@[i as int]);
        let c = v[i];
        if c == '\'' {
            out.push('\'');
            out.push('\\');
            out.push('\'');
            out.push('\'');
        } else {
            out.push(c);
        }
        assert(out@ =~= seq!['\''] + quoted_body(v@.take(i + 1)));
        i = i + 1;
    }
    assert(v@.take(v.len() as int) =~= s@);
    out.push('\'');
    out
}

/// Arguments that run the fixed collector script on `host`: standard input
/// detached, the script handed to `sh -c` as one quoted word.
pub fn ssh_command_args(host: &str, multiplex: bool) -> (r: Vec<String>)
    ensures
        string_views(r@) == base_args(true, multiplex) + seq![
            host@,
            "sh"@,
            "-c"@,
            shell_quoted(FIXED_COLLECT_COMMAND@),
        ],
{
    let mut args = ssh_base_args(true, multiplex);
    let ghost start = string_views(args@);
    push_arg(&mut args, host);
    push_arg(&mut args, "sh");
    push_arg(&mut args, "-c");
    let script = shell_quote(FIXED_COLLECT_COMMAND);
    let ghost before = args@;
    args.push(script);
    assert(string_views(args@) =~= string_views(before).push(shell_quoted(FIXED_COLLECT_COMMAND@)));
    assert(string_views(args@) =~= start + seq![host@, "sh"@, "-c"@, shell_quoted(FIXED_COLLECT_COMMAND@)]);
    args
}

/// Arguments that only check key authentication on `host`: stdin detached, `true` run.
pub fn ssh_probe_command_args(host: &str, multiplex: bool) -> (r: Vec<String>)
    ensures
        string_views(r@) == base_args(true, multiplex) + seq![host@, "true"@],
{
    let mut args = ssh_base_args(true, multiplex);
    let ghost start = string_views(args@);
    push_arg(&mut args, host);
    push_arg(&mut args, "true");
    assert(string_views(args@) =~= start + seq![host@, "true"@]);
    args
}

} // verus!
