//! Command-line arguments: the command, the collection mode and the flags,
//! and what a run does with them.
use vstd::prelude::*;
use crate::text::{chars_of, eq_str};

verus! {

/// Where host metrics come from: fixtures or live collection.
#[derive(Clone, Copy, Debug, PartialEq, Eq, Structural)]
pub enum Mode {
    Mock,
    Live,
}

/// The command named on the command line.
#[derive(Clone, Copy, Debug, PartialEq, Eq, Structural)]
pub enum CommandMode {
    Run,
    Init { force: bool, print: bool },
    ConfigManager,
    Edit,
    Doctor,
}

#[derive(Clone, Debug)]
pub struct Cli {
    pub command: CommandMode,
    pub mode: Mode,
    pub snapshot: bool,
    pub once: bool,
    pub config_path: Option<String>,
}

pub struct CliView {
    pub command: CommandMode,
    pub mode: Mode,
    pub snapshot: bool,
    pub once: bool,
    pub config_path: Option<Seq<char>>,
}

impl View for Cli {
    type V = CliView;

    open spec fn view(&self) -> CliView {
        CliView {
            command: self.command,
            mode: self.mode,
            snapshot: self.snapshot,
            once: self.once,
            config_path: match self.config_path {
                Some(p) => Some(p@),
                None => None,
            },
        }
    }
}

/// Why the arguments give no command to run: help was asked for, or they
/// are wrong (with the message).
#[derive(Clone, Debug, PartialEq, Eq)]
pub enum CliError {
    HelpRequested,
    Usage(String),
}

pub enum CliOutcome {
    Parsed(CliView),
    Help,
    Usage(Seq<char>),
}

/// What has been read of the arguments so far.
pub struct ArgState {
    pub command: CommandMode,
    pub mode: Mode,
    pub snapshot: bool,
    pub once: bool,
    pub config_path: Option<Seq<char>>,
    pub force: bool,
    pub print: bool,
    pub seen: bool,
}

pub open spec fn start_state() -> ArgState {
    ArgState {
        command: CommandMode::Run,
        mode: Mode::Live,
        snapshot: false,
        once: false,
        config_path: None,
        force: false,
        print: false,
        seen: false,
    }
}

pub open spec fn one_command_message() -> Seq<char> {
    "only one command can be used at a time"@
}

pub open spec fn config_needs_path_message() -> Seq<char> {
    "--config requires a path"@
}

pub open spec fn init_flags_message() -> Seq<char> {
    "--force/--print are only valid with `init`"@
}

pub open spec fn unknown_argument_message(a: Seq<char>) -> Seq<char> {
    "unknown argument: "@ + a
}

/// The arguments once all are read: `--force` and `--print` belong to
/// `init`, which takes them.
pub open spec fn finish_args(st: ArgState) -> CliOutcome {
    if !(st.command is Init) && (st.force || st.print) {
        CliOutcome::Usage(init_flags_message())
    } else {
        CliOutcome::Parsed(
            CliView {
                command: if st.command is Init {
                    CommandMode::Init { force: st.force, print: st.print }
                } else {
                    st.command
                },
                mode: st.mode,
                snapshot: st.snapshot,
                once: st.once,
                config_path: st.config_path,
            },
        )
    }
}

/// Selecting a command, which may happen once.
pub open spec fn select_command(st: ArgState, c: CommandMode) -> Option<ArgState> {
    if st.seen {
        None
    } else {
        Some(ArgState { command: c, seen: true, ..st })
    }
}

/// Reading the arguments from index `i` on, in state `st`.
pub open spec fn scan_args(args: Seq<Seq<char>>, i: int, st: ArgState) -> CliOutcome
    decreases args.len() - i,
{
    if i < 0 || i >= args.len() {
        finish_args(st)
    } else {
        let a = args[i];
        let command = if a == "init"@ {
            Some(CommandMode::Init { force: false, print: false })
        } else if a == "setup"@ || a == "config"@ {
            Some(CommandMode::ConfigManager)
        } else if a == "edit"@ {
            Some(CommandMode::Edit)
        } else if a == "doctor"@ {
            Some(CommandMode::Doctor)
        } else {
            None
        };
        match command {
            Some(c) => match select_command(st, c) {
                Some(next) => scan_args(args, i + 1, next),
                None => CliOutcome::Usage(one_command_message()),
            },
            None => if a == "--mock"@ {
                scan_args(args, i + 1, ArgState { mode: Mode::Mock, ..st })
            } else if a == "--live"@ {
                scan_args(args, i + 1, ArgState { mode: Mode::Live, ..st })
            } else if a == "--snapshot"@ {
                scan_args(args, i + 1, ArgState { snapshot: true, ..st })
            } else if a == "--once"@ {
                scan_args(args, i + 1, ArgState { once: true, ..st })
            } else if a == "--config"@ {
                if i + 1 < args.len() {
                    scan_args(args, i + 2, ArgState { config_path: Some(args[i + 1]), ..st })
                } else {
                    CliOutcome::Usage(config_needs_path_message())
                }
            } else if a == "--force"@ {
                scan_args(args, i + 1, ArgState { force: true, ..st })
            } else if a == "--print"@ {
                scan_args(args, i + 1, ArgState { print: true, ..st })
            } else if a == "--help"@ || a == "-h"@ {
                CliOutcome::Help
            } else {
                CliOutcome::Usage(unknown_argument_message(a))
            },
        }
    }
}

pub open spec fn parse_args(args: Seq<Seq<char>>) -> CliOutcome {
    scan_args(args, 0, start_state())
}

pub open spec fn arg_views(args: Seq<String>) -> Seq<Seq<char>> {
    args.map_values(|a: String| a@)
}

fn usage(message: &str) -> (r: CliError)
    ensures
        r matches CliError::Usage(m) && m@ == message@,
{
    CliError::Usage(String::from_str(message))
}

impl Cli {
    /// Reads the arguments (without the program name).
    pub fn parse(args: Vec<String>) -> (r: Result<Cli, CliError>)
        ensures
            match parse_args(arg_views(args@)) {
                CliOutcome::Parsed(v) => r matches Ok(c) && c@ == v,
                CliOutcome::Help => r matches Err(CliError::HelpRequested),
                CliOutcome::Usage(m) => r matches Err(CliError::Usage(u)) && u@ == m,
            },
    {
        let ghost av = arg_views(args@);
        let mut command = CommandMode::Run;
        let mut mode = Mode::Live;
        let mut snapshot = false;
        let mut once = false;
        let mut config_path: Option<String> = None;
        let mut force = false;
        let mut print = false;
        let mut seen = false;
        let mut i: usize = 0;
        while i < args.len()
            invariant
                i <= args.len(),
                av == arg_views(args@),
                parse_args(av) == scan_args(
                    av,
                    i as int,
                    ArgState {
                        command: command,
                        mode: mode,
                        snapshot: snapshot,
                        once: once,
                        config_path: match config_path {
                            Some(p) => Some(p@),
                            None => None,
                        },
                        force: force,
                        print: print,
                        seen: seen,
                    },
                ),
            decreases args.len() - i,
        {
            proof {
                reveal_strlit("init");
                reveal_strlit("setup");
                reveal_strlit("config");
                reveal_strlit("edit");
                reveal_strlit("doctor");
            }
            let a = chars_of(args[i].as_str());
            assert(av[i as int] == a@);
            let picked: Option<CommandMode> = if eq_str(&a, "init") {
                Some(CommandMode::Init { force: false, print: false })
            } else if eq_str(&a, "setup") || eq_str(&a, "config") {
                Some(CommandMode::ConfigManager)
            } else if eq_str(&a, "edit") {
                Some(CommandMode::Edit)
            } else if eq_str(&a, "doctor") {
                Some(CommandMode::Doctor)
            } else {
                None
            };
            match picked {
                Some(c) => {
                    if seen {
                        return Err(usage("only one command can be used at a time"));
                    }
                    seen = true;
                    command = c;
                    i = i + 1;
                },
                None => {
                    if eq_str(&a, "--mock") {
                        mode = Mode::Mock;
                        i = i + 1;
                    } else if eq_str(&a, "--live") {
                        mode = Mode::Live;
                        i = i + 1;
                    } else if eq_str(&a, "--snapshot") {
                        snapshot = true;
                        i = i + 1;
                    } else if eq_str(&a, "--once") {
                        once = true;
                        i = i + 1;
                    } else if eq_str(&a, "--config") {
                        if i + 1 < args.len() {
                            let p = args[i + 1].clone();
                            assert(av[i + 1] == p@);
                            config_path = Some(p);
                            i = i + 2;
                        } else {
                            return Err(usage("--config requires a path"));
                        }
                    } else if eq_str(&a, "--force") {
                        force = true;
                        i = i + 1;
                    } else if eq_str(&a, "--print") {
                        print = true;
                        i = i + 1;
                    } else if eq_str(&a, "--help") || eq_str(&a, "-h") {
                        return Err(CliError::HelpRequested);
                    } else {
                        let mut m = String::from_str("unknown argument: ");
                        m.append(args[i].as_str());
                        return Err(CliError::Usage(m));
                    }
                },
            }
        }
        let is_init = match command {
            CommandMode::Init { .. } => true,
            _ => false,
        };
        if !is_init && (force || print) {
            return Err(usage("--force/--print are only valid with `init`"));
        }
        if is_init {
            command = CommandMode::Init { force, print };
        }
        Ok(Cli { command, mode, snapshot, once, config_path })
    }
}

/// The usage text that `--help` prints.
pub const HELP_TEXT: &'static str = "rktop\n\nUSAGE:\n  server-tui-monitor [--mock|--live] [--snapshot] [--once] [--config PATH]\n  server-tui-monitor init [--config PATH] [--force|--print]\n  server-tui-monitor setup [--config PATH]   # full-screen config manager\n  server-tui-monitor config [--config PATH]\n  server-tui-monitor edit [--config PATH]    # raw $EDITOR fallback\n  server-tui-monitor doctor [--config PATH]\n\nDefaults to the live TUI, like htop/btop.\nConfig lookup: --config, $RKTOP_CONFIG, ./config.toml beside the executable, ~/.config/rktop/config.toml, /etc/rktop/config.toml\n\nFIRST RUN:\n  rktop config    # create config and open the full-screen setup manager\n  rktop doctor\n  rktop\n\nCONFIG:\n  rktop config  open the full-screen Ratatui config manager\n  rktop setup   alias for config\n  rktop init    create an empty user config without opening the TUI\n  rktop edit    open raw config in $VISUAL/$EDITOR\n  rktop doctor  validate config and SSH key auth\n\nKEYS:\n  +/- or =  adjust refresh by 100ms\n  q / ctrl-c / esc exits";

/// What a run does.
#[derive(Clone, Copy, Debug, PartialEq, Eq, Structural)]
pub enum RunPlan {
    /// Print one text snapshot of the dashboard.
    Snapshot,
    /// Open the live dashboard.
    Dashboard,
    Init { force: bool, print: bool },
    ConfigManager,
    Edit,
    Doctor,
}

pub open spec fn run_plan(c: CliView, interactive: bool) -> RunPlan {
    match c.command {
        CommandMode::Run => if c.snapshot || (c.once && !interactive) {
            RunPlan::Snapshot
        } else {
            RunPlan::Dashboard
        },
        CommandMode::Init { force, print } => RunPlan::Init { force, print },
        CommandMode::ConfigManager => RunPlan::ConfigManager,
        CommandMode::Edit => RunPlan::Edit,
        CommandMode::Doctor => RunPlan::Doctor,
    }
}

/// The work a run of `cli` does; `interactive` tells whether standard
/// output is a terminal. `--snapshot`, or `--once` without a terminal,
/// prints a snapshot instead of opening the dashboard.
pub fn run(cli: &Cli, interactive: bool) -> (r: RunPlan)
    ensures
        r == run_plan(cli@, interactive),
{
    match cli.command {
        CommandMode::Run => if cli.snapshot || (cli.once && !interactive) {
            RunPlan::Snapshot
        } else {
            RunPlan::Dashboard
        },
        CommandMode::Init { force, print } => RunPlan::Init { force, print },
        CommandMode::ConfigManager => RunPlan::ConfigManager,
        CommandMode::Edit => RunPlan::Edit,
        CommandMode::Doctor => RunPlan::Doctor,
    }
}

} // verus!
