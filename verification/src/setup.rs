//! What setting up a server involves: which check `doctor` runs for its
//! source, and which SSH key commands the user is shown (never run).
use vstd::prelude::*;
use crate::collectors::ssh::{valid_ssh_host, validate_ssh_host};
use crate::config::{ServerConfig, ServerView};
use crate::model::{HostSource, SourceView, source_text};

verus! {

/// The check that a source calls for.
#[derive(Clone, Debug, PartialEq, Eq)]
pub enum SetupEffect {
    LocalCollect,
    SshKeyProbe { host: String },
    UnsupportedSource(String),
}

pub enum EffectView {
    LocalCollect,
    SshKeyProbe(Seq<char>),
    UnsupportedSource(Seq<char>),
}

pub open spec fn effect_view(e: SetupEffect) -> EffectView {
    match e {
        SetupEffect::LocalCollect => EffectView::LocalCollect,
        SetupEffect::SshKeyProbe { host } => EffectView::SshKeyProbe(host@),
        SetupEffect::UnsupportedSource(s) => EffectView::UnsupportedSource(s@),
    }
}

/// Local sources are collected directly, SSH sources get a key probe of
/// their host, and the others are reported unsupported by their text.
pub open spec fn effect_for(s: SourceView) -> EffectView {
    match s {
        SourceView::Local => EffectView::LocalCollect,
        SourceView::Ssh(h) => EffectView::SshKeyProbe(h),
        _ => EffectView::UnsupportedSource(source_text(s)),
    }
}

pub fn setup_effect_for_source(server: &ServerConfig) -> (r: SetupEffect)
    ensures
        effect_view(r) == effect_for(server@.source),
{
    match &server.source {
        HostSource::Local => SetupEffect::LocalCollect,
        HostSource::Ssh { host } => SetupEffect::SshKeyProbe { host: host.clone() },
        source => SetupEffect::UnsupportedSource(source.to_display_string()),
    }
}

/// A command shown to the user for setting up SSH key login.
#[derive(Clone, Debug, PartialEq, Eq)]
pub enum SshSetupCommand {
    GenerateKey,
    CopyKey { host: String },
}

pub open spec fn command_text(c: SshSetupCommand) -> Seq<char> {
    match c {
        SshSetupCommand::GenerateKey => "ssh-keygen -t ed25519"@,
        SshSetupCommand::CopyKey { host } => "ssh-copy-id "@ + host@,
    }
}

impl SshSetupCommand {
    /// Every setup command waits for the user's confirmation.
    pub fn requires_confirmation(&self) -> (r: bool)
        ensures
            r,
    {
        true
    }

    /// The command line as shown to the user.
    pub fn display_command(&self) -> (r: String)
        ensures
            r@ == command_text(*self),
    {
        match self {
            SshSetupCommand::GenerateKey => String::from_str("ssh-keygen -t ed25519"),
            SshSetupCommand::CopyKey { host } => {
                let s = String::from_str("ssh-copy-id ");
                s.concat(host.as_str())
            },
        }
    }
}

/// The setup commands of a server: for an SSH source with a valid host,
/// generating a key and copying it to the host; none otherwise.
pub open spec fn setup_commands(s: SourceView) -> Seq<Option<Seq<char>>> {
    match s {
        SourceView::Ssh(h) => if valid_ssh_host(h) {
            seq![None, Some(h)]
        } else {
            Seq::empty()
        },
        _ => Seq::empty(),
    }
}

/// `None` for key generation, the host for copying the key.
pub open spec fn command_shape(c: SshSetupCommand) -> Option<Seq<char>> {
    match c {
        SshSetupCommand::GenerateKey => None,
        SshSetupCommand::CopyKey { host } => Some(host@),
    }
}

pub fn ssh_setup_commands_for_server(server: &ServerConfig) -> (r: Vec<SshSetupCommand>)
    ensures
        r@.map_values(|c: SshSetupCommand| command_shape(c)) == setup_commands(server@.source),
{
    match &server.source {
        HostSource::Ssh { host } => {
            if validate_ssh_host(host.as_str()).is_ok() {
                let mut v: Vec<SshSetupCommand> = Vec::new();
                v.push(SshSetupCommand::GenerateKey);
                v.push(SshSetupCommand::CopyKey { host: host.clone() });
                assert(v@.map_values(|c: SshSetupCommand| command_shape(c)) =~= setup_commands(
                    server@.source,
                ));
                v
            } else {
                let v: Vec<SshSetupCommand> = Vec::new();
                assert(v@.map_values(|c: SshSetupCommand| command_shape(c)) =~= setup_commands(
                    server@.source,
                ));
                v
            }
        },
        _ => {
            let v: Vec<SshSetupCommand> = Vec::new();
            assert(v@.map_values(|c: SshSetupCommand| command_shape(c)) =~= setup_commands(
                server@.source,
            ));
            v
        },
    }
}

pub open spec fn shape_text(c: Option<Seq<char>>) -> Seq<char> {
    match c {
        None => "ssh-keygen -t ed25519"@,
        Some(h) => "ssh-copy-id "@ + h,
    }
}

/// The commands joined by `; `.
pub open spec fn joined_commands(cs: Seq<Option<Seq<char>>>) -> Seq<char>
    decreases cs.len(),
{
    if cs.len() == 0 {
        Seq::empty()
    } else if cs.len() == 1 {
        shape_text(cs[0])
    } else {
        joined_commands(cs.drop_last()) + "; "@ + shape_text(cs.last())
    }
}

/// The guidance line for a server that has setup commands:
/// `ssh setup: <name> (<id>) -> <commands>`.
pub open spec fn guidance_line(s: ServerView) -> Seq<char> {
    "ssh setup: "@ + s.name + " ("@ + s.id + ") -> "@ + joined_commands(setup_commands(s.source))
}

/// The guidance line of a server, when it has setup commands.
pub fn ssh_setup_guidance_line(server: &ServerConfig) -> (r: Option<String>)
    ensures
        match r {
            Some(l) => setup_commands(server@.source).len() > 0 && l@ == guidance_line(server@),
            None => setup_commands(server@.source).len() == 0,
        },
{
    let commands = ssh_setup_commands_for_server(server);
    let ghost shapes = setup_commands(server@.source);
    if commands.len() == 0 {
        return None;
    }
    let mut line = String::from_str("ssh setup: ");
    line.append(server.name.as_str());
    line.append(" (");
    line.append(server.id.as_str());
    line.append(") -> ");
    let ghost start = line@;
    let mut i: usize = 0;
    assert(shapes.take(0) =~= Seq::<Option<Seq<char>>>::empty());
    while i < commands.len()
        invariant
            i <= commands.len(),
            shapes == setup_commands(server@.source),
            commands@.map_values(|c: SshSetupCommand| command_shape(c)) == shapes,
            line@ == start + joined_commands(shapes.take(i as int)),
        decreases commands.len() - i,
    {
        let ghost before = line@;
        assert(shapes[i as int] == command_shape(commands@[i as int]));
        assert(shapes.take(i + 1).drop_last() =~= shapes.take(i as int));
        if i > 0 {
            line.append("; ");
        }
        let text = commands[i].display_command();
        assert(text@ == shape_text(shapes[i as int]));
        line.append(text.as_str());
        if i == 0 {
            assert(line@ =~= start + joined_commands(shapes.take(1)));
        } else {
            assert(line@ =~= start + joined_commands(shapes.take(i + 1)));
        }
        i = i + 1;
    }
    assert(shapes.take(commands.len() as int) =~= shapes);
    Some(line)
}

} // verus!
