//! What the commands decide and print around their I/O: the editor and how
//! it is started, the config path, the config summary, where the config
//! came from, and the lines and summary of `doctor`.
use vstd::prelude::*;
use crate::config::{enabled_views, server_views, AppConfig, ConfigOrigin, ServerConfig, ServerView};
use crate::listing::pad_right;
use crate::paths::{config_file_under, config_home, default_config_path, ConfigEnv};
use crate::config::APP_CONFIG_DIR;
use crate::text::{chars_of, decimal, split_words, trim, trim_chars, u64_text, words};
use crate::cardtext::push_repeated;

verus! {

/// A value that is set and not blank.
pub open spec fn non_blank(v: Option<Seq<char>>) -> Option<Seq<char>> {
    match v {
        Some(x) => if trim(x).len() > 0 {
            Some(x)
        } else {
            None
        },
        None => None,
    }
}

pub open spec fn text_of(v: Option<String>) -> Option<Seq<char>> {
    match v {
        Some(s) => Some(s@),
        None => None,
    }
}

/// The editor: `VISUAL` when set and not blank, else `EDITOR`, else `nano`
/// where it is installed, `notepad` on Windows and `vi` elsewhere.
pub open spec fn editor_spec(visual: Option<Seq<char>>, editor: Option<Seq<char>>, nano: bool, windows: bool) -> Seq<char> {
    match non_blank(visual) {
        Some(v) => v,
        None => match non_blank(editor) {
            Some(e) => e,
            None => if nano {
                "nano"@
            } else if windows {
                "notepad"@
            } else {
                "vi"@
            },
        },
    }
}

fn is_blank(s: &String) -> (r: bool)
    ensures
        r == (trim(s@).len() == 0),
{
    trim_chars(&chars_of(s.as_str())).len() == 0
}

pub fn choose_editor(visual: Option<String>, editor: Option<String>, nano_available: bool, windows: bool) -> (r: String)
    ensures
        r@ == editor_spec(text_of(visual), text_of(editor), nano_available, windows),
{
    if let Some(v) = visual {
        if !is_blank(&v) {
            return v;
        }
    }
    if let Some(e) = editor {
        if !is_blank(&e) {
            return e;
        }
    }
    if nano_available {
        String::from_str("nano")
    } else if windows {
        String::from_str("notepad")
    } else {
        String::from_str("vi")
    }
}

/// An editor given as several words (a command with arguments) is started
/// through the shell; a single word is started directly.
pub fn editor_needs_shell(editor: &str) -> (r: bool)
    ensures
        r == (words(editor@).len() > 1),
{
    split_words(&chars_of(editor)).len() > 1
}

pub open spec fn no_path_message() -> Seq<char> {
    "could not determine config path; pass --config PATH"@
}

/// The path given, else the default user config path, else an error.
pub fn config_path_or_default(path: Option<String>, env: &ConfigEnv) -> (r: Result<String, String>)
    ensures
        match path {
            Some(p) => r == Ok::<String, String>(p),
            None => match config_file_under(config_home(env@), APP_CONFIG_DIR@, env@.windows) {
                Some(d) => r matches Ok(x) && x@ == d,
                None => r matches Err(m) && m@ == no_path_message(),
            },
        },
{
    match path {
        Some(p) => Ok(p),
        None => match default_config_path(env) {
            Some(d) => Ok(d),
            None => Err(String::from_str("could not determine config path; pass --config PATH")),
        },
    }
}

/// `config ok: <enabled> enabled / <total> total servers, refresh <ms>ms`.
pub open spec fn config_ok_text(enabled: nat, total: nat, refresh_ms: u64) -> Seq<char> {
    "config ok: "@ + decimal(enabled) + " enabled / "@ + decimal(total) + " total servers, refresh "@
        + decimal(refresh_ms as nat) + "ms"@
}

fn count_enabled(config: &AppConfig) -> (r: usize)
    ensures
        r == enabled_views(config@.servers).len(),
{
    let ghost all = config@.servers;
    let mut n: usize = 0;
    let mut i: usize = 0;
    proof {
        reveal_with_fuel(Seq::<crate::config::ServerView>::filter, 1);
    }
    assert(all.take(0).filter(|v: crate::config::ServerView| v.enabled) =~= Seq::<crate::config::ServerView>::empty());
    while i < config.servers.len()
        invariant
            i <= config.servers@.len(),
            all == config@.servers,
            all.len() == config.servers@.len(),
            n == all.take(i as int).filter(|v: crate::config::ServerView| v.enabled).len(),
            n <= i,
        decreases config.servers.len() - i,
    {
        proof {
            reveal_with_fuel(Seq::<crate::config::ServerView>::filter, 1);
        }
        assert(all.take(i + 1).drop_last() == all.take(i as int));
        assert(all[i as int] == config.servers@[i as int]@);
        if config.servers[i].enabled {
            n = n + 1;
        }
        i = i + 1;
    }
    assert(all.take(config.servers@.len() as int) == all);
    n
}

/// The summary printed after the configuration is checked.
pub fn config_ok_line(config: &AppConfig) -> (r: String)
    ensures
        r@ == config_ok_text(
            enabled_views(config@.servers).len(),
            config@.servers.len(),
            config.refresh_interval_ms,
        ),
{
    let mut s = String::from_str("config ok: ");
    s.append(u64_text(count_enabled(config) as u64).as_str());
    s.append(" enabled / ");
    s.append(u64_text(config.servers.len() as u64).as_str());
    s.append(" total servers, refresh ");
    s.append(u64_text(config.refresh_interval_ms).as_str());
    s.append("ms");
    s
}

/// Where the configuration came from: its file, or the built-in defaults
/// with a hint to create the user file where there is one.
pub open spec fn origin_texts(origin: ConfigOrigin) -> Seq<Seq<char>> {
    match origin {
        ConfigOrigin::File(p) => seq!["config: "@ + p@],
        ConfigOrigin::BuiltIn { default_path } => match default_path {
            Some(p) => seq![
                "config: built-in defaults"@,
                "hint: run `rktop config` to create and set up "@ + p@,
            ],
            None => seq!["config: built-in defaults"@],
        },
    }
}

pub fn config_origin_lines(origin: &ConfigOrigin) -> (r: Vec<String>)
    ensures
        crate::text::string_views(r@) == origin_texts(*origin),
{
    let mut lines: Vec<String> = Vec::new();
    match origin {
        ConfigOrigin::File(p) => {
            lines.push(String::from_str("config: ").concat(p.as_str()));
        },
        ConfigOrigin::BuiltIn { default_path } => {
            lines.push(String::from_str("config: built-in defaults"));
            if let Some(p) = default_path {
                lines.push(String::from_str("hint: run `rktop config` to create and set up ").concat(p.as_str()));
            }
        },
    }
    assert(crate::text::string_views(lines@) =~= origin_texts(*origin));
    lines
}

/// A doctor line: `[ok]   ` for a server that passed, `[warn] ` for an
/// optional one that failed and `[fail] ` for a required one; then the name
/// in 10 columns, `optional`/`required` in 8, and the message.
pub open spec fn doctor_text(name: Seq<char>, optional: bool, passed: bool, message: Seq<char>) -> Seq<char> {
    (if passed {
        "[ok]   "@
    } else if optional {
        "[warn] "@
    } else {
        "[fail] "@
    }) + pad_right(name, 10) + " "@ + pad_right(
        if optional {
            "optional"@
        } else {
            "required"@
        },
        8,
    ) + " "@ + message
}

fn push_padded(out: &mut String, value: &str, width: usize)
    ensures
        final(out)@ == old(out)@ + pad_right(value@, width as nat),
{
    let n = chars_of(value).len();
    out.append(value);
    if n < width {
        push_repeated(out, ' ', width - n);
    }
}

/// The line for one server and whether it is a failure of a required
/// server; `outcome` is the check's message on success or its error.
pub fn doctor_line(server: &ServerConfig, outcome: &Result<String, String>) -> (r: (String, bool))
    ensures
        r.0@ == doctor_text(
            server.name@,
            server.optional,
            outcome is Ok,
            match outcome {
                Ok(m) => m@,
                Err(e) => e@,
            },
        ),
        r.1 == (outcome is Err && !server.optional),
{
    let (mut s, message, failed) = match outcome {
        Ok(m) => (String::from_str("[ok]   "), m, false),
        Err(e) => if server.optional {
            (String::from_str("[warn] "), e, false)
        } else {
            (String::from_str("[fail] "), e, true)
        },
    };
    push_padded(&mut s, server.name.as_str(), 10);
    s.append(" ");
    push_padded(&mut s, if server.optional {
        "optional"
    } else {
        "required"
    }, 8);
    s.append(" ");
    s.append(message.as_str());
    (s, failed)
}

/// How the doctor run ends: it fails with no enabled server, or when required
/// servers failed (with their count); else `doctor: ok`.
pub open spec fn doctor_summary_spec(enabled: nat, required_failures: nat) -> Result<Seq<char>, Seq<char>> {
    if enabled == 0 {
        Err("doctor failed: no enabled servers in config"@)
    } else if required_failures > 0 {
        Err("doctor failed: "@ + decimal(required_failures) + " required server(s) unavailable"@)
    } else {
        Ok("doctor: ok"@)
    }
}

pub fn doctor_summary(enabled: usize, required_failures: usize) -> (r: Result<String, String>)
    ensures
        match doctor_summary_spec(enabled as nat, required_failures as nat) {
            Ok(m) => r matches Ok(x) && x@ == m,
            Err(m) => r matches Err(x) && x@ == m,
        },
{
    if enabled == 0 {
        Err(String::from_str("doctor failed: no enabled servers in config"))
    } else if required_failures > 0 {
        let mut s = String::from_str("doctor failed: ");
        s.append(u64_text(required_failures as u64).as_str());
        s.append(" required server(s) unavailable");
        Err(s)
    } else {
        Ok(String::from_str("doctor: ok"))
    }
}

/// The number of required servers whose check failed.
pub open spec fn required_failures(servers: Seq<ServerView>, outcomes: Seq<bool>) -> nat
    decreases servers.len(),
{
    if servers.len() == 0 || outcomes.len() == 0 {
        0
    } else {
        required_failures(servers.drop_last(), outcomes.take(servers.len() - 1)) + if !outcomes[servers.len()
            - 1] && !servers.last().optional {
            1nat
        } else {
            0nat
        }
    }
}


proof fn lemma_required_failures(servers: Seq<ServerView>, outcomes: Seq<bool>)
    requires
        servers.len() == outcomes.len(),
    ensures
        required_failures(servers, outcomes) <= servers.len(),
        required_failures(servers, outcomes) > 0 <==> exists|i: int|
            0 <= i < servers.len() && !outcomes[i] && !(#[trigger] servers[i]).optional,
    decreases servers.len(),
{
    if servers.len() > 0 {
        let n = servers.len() - 1;
        let s2 = servers.drop_last();
        let o2 = outcomes.take(n as int);
        lemma_required_failures(s2, o2);
        if exists|i: int| 0 <= i < servers.len() && !outcomes[i] && !(#[trigger] servers[i]).optional {
            let i = choose|i: int| 0 <= i < servers.len() && !outcomes[i] && !(#[trigger] servers[i]).optional;
            if i < n {
                assert(s2[i] == servers[i] && o2[i] == outcomes[i]);
            }
        }
        if exists|i: int| 0 <= i < s2.len() && !o2[i] && !(#[trigger] s2[i]).optional {
            let i = choose|i: int| 0 <= i < s2.len() && !o2[i] && !(#[trigger] s2[i]).optional;
            assert(servers[i] == s2[i] && outcomes[i] == o2[i]);
        }
    }
}

/// How a doctor run over the enabled servers ends, given each server's check
/// outcome in order (see `doctor_summary`): it fails exactly when no server is
/// enabled or a required server's check failed; an optional server's failure
/// is only a warning line.
pub fn doctor_outcome_summary(servers: &Vec<ServerConfig>, outcomes: &Vec<Result<String, String>>) -> (r: Result<String, String>)
    requires
        servers@.len() == outcomes@.len(),
    ensures
        match doctor_summary_spec(
            servers@.len(),
            required_failures(server_views(servers@), outcomes@.map_values(|o: Result<String, String>| o is Ok)),
        ) {
            Ok(m) => r matches Ok(x) && x@ == m,
            Err(m) => r matches Err(x) && x@ == m,
        },
        r is Err <==> (servers@.len() == 0 || exists|i: int|
            0 <= i < servers@.len() && outcomes@[i] is Err && !(#[trigger] servers@[i]).optional),
{
    let ghost sv = server_views(servers@);
    let ghost ov = outcomes@.map_values(|o: Result<String, String>| o is Ok);
    let mut failures: usize = 0;
    let mut i: usize = 0;
    assert(sv.take(0) =~= Seq::<ServerView>::empty());
    while i < servers.len()
        invariant
            i <= servers@.len() == outcomes@.len() == sv.len() == ov.len(),
            sv == server_views(servers@),
            ov == outcomes@.map_values(|o: Result<String, String>| o is Ok),
            failures == required_failures(sv.take(i as int), ov.take(i as int)),
            failures <= i,
        decreases servers.len() - i,
    {
        proof {
            let s1 = sv.take(i + 1);
            let o1 = ov.take(i + 1);
            assert(s1.drop_last() =~= sv.take(i as int));
            assert(o1.take(i as int) =~= ov.take(i as int));
            assert(s1.last() == servers@[i as int]@);
            assert(o1[i as int] == (outcomes@[i as int] is Ok));
        }
        if outcomes[i].is_err() && !servers[i].optional {
            failures = failures + 1;
        }
        i = i + 1;
    }
    assert(sv.take(servers@.len() as int) =~= sv);
    assert(ov.take(servers@.len() as int) =~= ov);
    proof {
        lemma_required_failures(sv, ov);
        assert forall|i: int| 0 <= i < servers@.len() implies (!ov[i] && !sv[i].optional) == (outcomes@[i] is Err
            && !(#[trigger] servers@[i]).optional) by {
            assert(sv[i] == servers@[i]@);
        }
        if exists|i: int| 0 <= i < servers@.len() && outcomes@[i] is Err && !(#[trigger] servers@[i]).optional {
            let i = choose|i: int| 0 <= i < servers@.len() && outcomes@[i] is Err && !(#[trigger] servers@[i]).optional;
            assert(!ov[i] && !sv[i].optional);
        }
        if exists|i: int| 0 <= i < sv.len() && !ov[i] && !(#[trigger] sv[i]).optional {
            let i = choose|i: int| 0 <= i < sv.len() && !ov[i] && !(#[trigger] sv[i]).optional;
            assert(sv[i] == servers@[i]@);
        }
    }
    doctor_summary(servers.len(), failures)
}

/// The message that refuses to overwrite an existing config file.
pub open spec fn config_exists_message(path: Seq<char>) -> Seq<char> {
    "config already exists: "@ + path + "\nrerun with --force to overwrite"@
}

/// Whether `init` may write the example config to `path`: not over an
/// existing file unless `--force` is given.
pub fn example_config_write(path: &str, exists: bool, force: bool) -> (r: Result<(), String>)
    ensures
        exists && !force ==> (r matches Err(m) && m@ == config_exists_message(path@)),
        !(exists && !force) ==> r is Ok,
{
    if exists && !force {
        let m = String::from_str("config already exists: ");
        let m = m.concat(path);
        Err(m.concat("\nrerun with --force to overwrite"))
    } else {
        Ok(())
    }
}

/// What a passing local check reports: the host name, `localhost` when unknown.
pub fn local_check_message(hostname: Option<String>) -> (r: String)
    ensures
        r@ == "local collector ok ("@ + match hostname {
            Some(h) => h@,
            None => "localhost"@,
        } + ")"@,
{
    let mut s = String::from_str("local collector ok (");
    match hostname {
        Some(h) => s.append(h.as_str()),
        None => s.append("localhost"),
    }
    s.append(")");
    s
}

/// What a passing SSH check reports: the host and the reported host name
/// (the host itself when unknown).
pub fn ssh_check_message(host: &str, hostname: Option<String>) -> (r: String)
    ensures
        r@ == "ssh "@ + host@ + " ok ("@ + match hostname {
            Some(h) => h@,
            None => host@,
        } + ")"@,
{
    let mut s = String::from_str("ssh ");
    s.append(host);
    s.append(" ok (");
    match hostname {
        Some(h) => s.append(h.as_str()),
        None => s.append(host),
    }
    s.append(")");
    s
}

/// Why an SSH key check failed: the host and what ssh wrote to standard
/// error, trimmed.
pub fn ssh_key_check_failure(host: &str, stderr: &str) -> (r: String)
    ensures
        r@ == "ssh key check failed for "@ + host@ + ": "@ + trim(stderr@),
{
    let mut s = String::from_str("ssh key check failed for ");
    s.append(host);
    s.append(": ");
    s.append(crate::text::string_of(&trim_chars(&chars_of(stderr))).as_str());
    s
}

/// Why a configured source cannot be checked yet.
pub fn unsupported_check_message(source: &str) -> (r: String)
    ensures
        r@ == source@ + " source is configured but not implemented in the live collector yet"@,
{
    String::from_str(source).concat(" source is configured but not implemented in the live collector yet")
}

} // verus!
