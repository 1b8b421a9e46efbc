//! The command line: global options, then a subcommand and its arguments.
use vstd::prelude::*;

use crate::estimate::{cli_basis_of, EstimateBasis};
use crate::numbers::{int_error_message, int_error_text, parse_u32_chars, parse_u64_chars, parse_unsigned};
use crate::text::{chars_of, str_eq, string_views};

verus! {

/// What the command line asks for.
#[derive(Debug)]
pub enum Command {
    Check,
    Lint { path: String },
    Estimate { path: String, basis: EstimateBasis },
    Init {
        name: String,
        repo: String,
        workdir: String,
        base_branch: String,
        agent_command: String,
        plan_command: String,
        default_model: String,
        default_reasoning_effort: String,
    },
    Start { parent: u64, dry_run: bool },
    Nightly { parent: u64, hours: u32, dry_run: bool },
    Help,
}

/// The mathematical content of a [`Command`].
pub ghost enum CommandView {
    Check,
    Lint { path: Seq<char> },
    Estimate { path: Seq<char>, basis: EstimateBasis },
    Init {
        name: Seq<char>,
        repo: Seq<char>,
        workdir: Seq<char>,
        base_branch: Seq<char>,
        agent_command: Seq<char>,
        plan_command: Seq<char>,
        default_model: Seq<char>,
        default_reasoning_effort: Seq<char>,
    },
    Start { parent: u64, dry_run: bool },
    Nightly { parent: u64, hours: u32, dry_run: bool },
    Help,
}

impl View for Command {
    type V = CommandView;

    open spec fn view(&self) -> CommandView {
        match self {
            Command::Check => CommandView::Check,
            Command::Lint { path } => CommandView::Lint { path: path@ },
            Command::Estimate { path, basis } => CommandView::Estimate { path: path@, basis: *basis },
            Command::Init {
                name,
                repo,
                workdir,
                base_branch,
                agent_command,
                plan_command,
                default_model,
                default_reasoning_effort,
            } => CommandView::Init {
                name: name@,
                repo: repo@,
                workdir: workdir@,
                base_branch: base_branch@,
                agent_command: agent_command@,
                plan_command: plan_command@,
                default_model: default_model@,
                default_reasoning_effort: default_reasoning_effort@,
            },
            Command::Start { parent, dry_run } => CommandView::Start {
                parent: *parent,
                dry_run: *dry_run,
            },
            Command::Nightly { parent, hours, dry_run } => CommandView::Nightly {
                parent: *parent,
                hours: *hours,
                dry_run: *dry_run,
            },
            Command::Help => CommandView::Help,
        }
    }
}

/// The parsed command line.
#[derive(Debug)]
pub struct Cli {
    pub explicit_config_path: Option<String>,
    pub target_name: Option<String>,
    pub verbose: bool,
    pub command: Command,
}

/// Why a command line was refused.
#[derive(Debug)]
pub enum CliError {
    MissingValue(String),
    UnknownCommand(String),
    LintRequiresPath,
    EstimateRequiresPath,
    InvalidBasis(String),
    UnexpectedArgument(String),
    InitRequiresArguments,
    InvalidNumber(String),
    StartRequiresParent,
    NightlyRequiresParent,
    NightlyRequiresHours,
}

/// The mathematical content of a [`CliError`].
pub ghost enum CliFault {
    MissingValue(Seq<char>),
    UnknownCommand(Seq<char>),
    LintRequiresPath,
    EstimateRequiresPath,
    InvalidBasis(Seq<char>),
    UnexpectedArgument(Seq<char>),
    InitRequiresArguments,
    InvalidNumber(Seq<char>),
    StartRequiresParent,
    NightlyRequiresParent,
    NightlyRequiresHours,
}

impl View for CliError {
    type V = CliFault;

    open spec fn view(&self) -> CliFault {
        match self {
            CliError::MissingValue(s) => CliFault::MissingValue(s@),
            CliError::UnknownCommand(s) => CliFault::UnknownCommand(s@),
            CliError::LintRequiresPath => CliFault::LintRequiresPath,
            CliError::EstimateRequiresPath => CliFault::EstimateRequiresPath,
            CliError::InvalidBasis(s) => CliFault::InvalidBasis(s@),
            CliError::UnexpectedArgument(s) => CliFault::UnexpectedArgument(s@),
            CliError::InitRequiresArguments => CliFault::InitRequiresArguments,
            CliError::InvalidNumber(s) => CliFault::InvalidNumber(s@),
            CliError::StartRequiresParent => CliFault::StartRequiresParent,
            CliError::NightlyRequiresParent => CliFault::NightlyRequiresParent,
            CliError::NightlyRequiresHours => CliFault::NightlyRequiresHours,
        }
    }
}

/// The text of a command line error.
pub open spec fn cli_fault_text(f: CliFault) -> Seq<char> {
    match f {
        CliFault::MissingValue(flag) => "missing value for "@ + flag,
        CliFault::UnknownCommand(c) => "unknown command: "@ + c,
        CliFault::LintRequiresPath => "lint requires a path"@,
        CliFault::EstimateRequiresPath => "estimate requires a path"@,
        CliFault::InvalidBasis(v) => "invalid estimate basis: "@ + v,
        CliFault::UnexpectedArgument(a) => "unexpected argument: "@ + a,
        CliFault::InitRequiresArguments => "init requires NAME OWNER/REPO WORKDIR"@,
        CliFault::InvalidNumber(t) => int_error_text(t),
        CliFault::StartRequiresParent => "start requires a parent issue number"@,
        CliFault::NightlyRequiresParent => "nightly requires a parent issue number"@,
        CliFault::NightlyRequiresHours => "nightly requires --hours"@,
    }
}

impl CliError {
    pub fn message(&self) -> (r: String)
        ensures
            r@ == cli_fault_text(self@),
    {
        match self {
            CliError::MissingValue(flag) => {
                let mut s = "missing value for ".to_owned();
                s.append(flag.as_str());
                s
            },
            CliError::UnknownCommand(c) => {
                let mut s = "unknown command: ".to_owned();
                s.append(c.as_str());
                s
            },
            CliError::LintRequiresPath => "lint requires a path".to_owned(),
            CliError::EstimateRequiresPath => "estimate requires a path".to_owned(),
            CliError::InvalidBasis(v) => {
                let mut s = "invalid estimate basis: ".to_owned();
                s.append(v.as_str());
                s
            },
            CliError::UnexpectedArgument(a) => {
                let mut s = "unexpected argument: ".to_owned();
                s.append(a.as_str());
                s
            },
            CliError::InitRequiresArguments => "init requires NAME OWNER/REPO WORKDIR".to_owned(),
            CliError::InvalidNumber(t) => int_error_message(t.as_str()).to_owned(),
            CliError::StartRequiresParent => "start requires a parent issue number".to_owned(),
            CliError::NightlyRequiresParent => "nightly requires a parent issue number".to_owned(),
            CliError::NightlyRequiresHours => "nightly requires --hours".to_owned(),
        }
    }
}

/// The global options read so far, and the arguments left for the
/// subcommand.
pub ghost struct Globals {
    pub config: Option<Seq<char>>,
    pub target: Option<Seq<char>>,
    pub verbose: bool,
    pub rest: Seq<Seq<char>>,
    pub help: bool,
}

/// Reads `--config PATH`, `--target NAME` and `--verbose` wherever they
/// stand, and stops at the first `--help` or `-h`.
pub open spec fn scan_globals(args: Seq<Seq<char>>, acc: Globals) -> Result<Globals, CliFault>
    decreases args.len(),
{
    if acc.help || args.len() == 0 {
        Ok(acc)
    } else {
        let a = args[0];
        if a == "--config"@ {
            if args.len() < 2 {
                Err(CliFault::MissingValue("--config"@))
            } else {
                scan_globals(args.skip(2), Globals { config: Some(args[1]), ..acc })
            }
        } else if a == "--target"@ {
            if args.len() < 2 {
                Err(CliFault::MissingValue("--target"@))
            } else {
                scan_globals(args.skip(2), Globals { target: Some(args[1]), ..acc })
            }
        } else if a == "--verbose"@ {
            scan_globals(args.skip(1), Globals { verbose: true, ..acc })
        } else if a == "--help"@ || a == "-h"@ {
            Ok(Globals { help: true, ..acc })
        } else {
            scan_globals(args.skip(1), Globals { rest: acc.rest.push(a), ..acc })
        }
    }
}

/// `lint PATH`.
pub open spec fn lint_of(a: Seq<Seq<char>>) -> Result<CommandView, CliFault> {
    if a.len() != 1 {
        Err(CliFault::LintRequiresPath)
    } else {
        Ok(CommandView::Lint { path: a[0] })
    }
}

/// Reads `--basis B` options and one path.
pub open spec fn scan_estimate(
    a: Seq<Seq<char>>,
    path: Option<Seq<char>>,
    basis: EstimateBasis,
) -> Result<(Option<Seq<char>>, EstimateBasis), CliFault>
    decreases a.len(),
{
    if a.len() == 0 {
        Ok((path, basis))
    } else if a[0] == "--basis"@ {
        if a.len() < 2 {
            Err(CliFault::MissingValue("--basis"@))
        } else {
            match cli_basis_of(a[1]) {
                Some(b) => scan_estimate(a.skip(2), path, b),
                None => Err(CliFault::InvalidBasis(a[1])),
            }
        }
    } else if path is None {
        scan_estimate(a.skip(1), Some(a[0]), basis)
    } else {
        Err(CliFault::UnexpectedArgument(a[0]))
    }
}

/// `estimate PATH [--basis B]`, with the hybrid basis by default.
pub open spec fn estimate_of(a: Seq<Seq<char>>) -> Result<CommandView, CliFault> {
    if a.len() == 0 {
        Err(CliFault::EstimateRequiresPath)
    } else {
        match scan_estimate(a, None, EstimateBasis::Hybrid) {
            Err(e) => Err(e),
            Ok((None, _)) => Err(CliFault::EstimateRequiresPath),
            Ok((Some(p), b)) => Ok(CommandView::Estimate { path: p, basis: b }),
        }
    }
}

/// What `init` has read so far.
pub ghost struct InitAcc {
    pub positional: Seq<Seq<char>>,
    pub base_branch: Seq<char>,
    pub agent_command: Seq<char>,
    pub plan_command: Seq<char>,
    pub default_model: Seq<char>,
    pub default_reasoning_effort: Seq<char>,
}

pub open spec fn init_defaults() -> InitAcc {
    InitAcc {
        positional: Seq::empty(),
        base_branch: "main"@,
        agent_command: "codex exec --full-auto"@,
        plan_command: "codex exec --full-auto"@,
        default_model: "gpt-5.4"@,
        default_reasoning_effort: "medium"@,
    }
}

pub open spec fn is_init_flag(a: Seq<char>) -> bool {
    a == "--base-branch"@ || a == "--agent-command"@ || a == "--plan-command"@ || a
        == "--default-model"@ || a == "--default-reasoning-effort"@
}

pub open spec fn set_init_flag(acc: InitAcc, flag: Seq<char>, v: Seq<char>) -> InitAcc {
    if flag == "--base-branch"@ {
        InitAcc { base_branch: v, ..acc }
    } else if flag == "--agent-command"@ {
        InitAcc { agent_command: v, ..acc }
    } else if flag == "--plan-command"@ {
        InitAcc { plan_command: v, ..acc }
    } else if flag == "--default-model"@ {
        InitAcc { default_model: v, ..acc }
    } else {
        InitAcc { default_reasoning_effort: v, ..acc }
    }
}

/// Reads `init`'s options, each with its value, and its positional
/// arguments.
pub open spec fn scan_init(a: Seq<Seq<char>>, acc: InitAcc) -> Result<InitAcc, CliFault>
    decreases a.len(),
{
    if a.len() == 0 {
        Ok(acc)
    } else if is_init_flag(a[0]) {
        if a.len() < 2 {
            Err(CliFault::MissingValue(a[0]))
        } else {
            scan_init(a.skip(2), set_init_flag(acc, a[0], a[1]))
        }
    } else {
        scan_init(a.skip(1), InitAcc { positional: acc.positional.push(a[0]), ..acc })
    }
}

/// `init NAME OWNER/REPO WORKDIR [options]`.
pub open spec fn init_of(a: Seq<Seq<char>>) -> Result<CommandView, CliFault> {
    match scan_init(a, init_defaults()) {
        Err(e) => Err(e),
        Ok(acc) => if acc.positional.len() != 3 {
            Err(CliFault::InitRequiresArguments)
        } else {
            Ok(
                CommandView::Init {
                    name: acc.positional[0],
                    repo: acc.positional[1],
                    workdir: acc.positional[2],
                    base_branch: acc.base_branch,
                    agent_command: acc.agent_command,
                    plan_command: acc.plan_command,
                    default_model: acc.default_model,
                    default_reasoning_effort: acc.default_reasoning_effort,
                },
            )
        },
    }
}

/// Reads `start`'s `--dry-run` and its parent issue number.
pub open spec fn scan_start(a: Seq<Seq<char>>, parent: Option<u64>, dry_run: bool) -> Result<
    (Option<u64>, bool),
    CliFault,
>
    decreases a.len(),
{
    if a.len() == 0 {
        Ok((parent, dry_run))
    } else if a[0] == "--dry-run"@ {
        scan_start(a.skip(1), parent, true)
    } else if parent is None {
        match parse_unsigned(a[0], u64::MAX as nat) {
            Some(v) => scan_start(a.skip(1), Some(v as u64), dry_run),
            None => Err(CliFault::InvalidNumber(a[0])),
        }
    } else {
        Err(CliFault::UnexpectedArgument(a[0]))
    }
}

/// `start PARENT [--dry-run]`.
pub open spec fn start_of(a: Seq<Seq<char>>) -> Result<CommandView, CliFault> {
    match scan_start(a, None, false) {
        Err(e) => Err(e),
        Ok((None, _)) => Err(CliFault::StartRequiresParent),
        Ok((Some(p), d)) => Ok(CommandView::Start { parent: p, dry_run: d }),
    }
}

/// Reads `nightly`'s `--hours H`, `--dry-run` and its parent issue number.
pub open spec fn scan_nightly(
    a: Seq<Seq<char>>,
    parent: Option<u64>,
    hours: Option<u32>,
    dry_run: bool,
) -> Result<(Option<u64>, Option<u32>, bool), CliFault>
    decreases a.len(),
{
    if a.len() == 0 {
        Ok((parent, hours, dry_run))
    } else if a[0] == "--hours"@ {
        if a.len() < 2 {
            Err(CliFault::MissingValue("--hours"@))
        } else {
            match parse_unsigned(a[1], u32::MAX as nat) {
                Some(h) => scan_nightly(a.skip(2), parent, Some(h as u32), dry_run),
                None => Err(CliFault::InvalidNumber(a[1])),
            }
        }
    } else if a[0] == "--dry-run"@ {
        scan_nightly(a.skip(1), parent, hours, true)
    } else if parent is None {
        match parse_unsigned(a[0], u64::MAX as nat) {
            Some(v) => scan_nightly(a.skip(1), Some(v as u64), hours, dry_run),
            None => Err(CliFault::InvalidNumber(a[0])),
        }
    } else {
        Err(CliFault::UnexpectedArgument(a[0]))
    }
}

/// `nightly PARENT --hours H [--dry-run]`.
pub open spec fn nightly_of(a: Seq<Seq<char>>) -> Result<CommandView, CliFault> {
    match scan_nightly(a, None, None, false) {
        Err(e) => Err(e),
        Ok((None, _, _)) => Err(CliFault::NightlyRequiresParent),
        Ok((Some(_), None, _)) => Err(CliFault::NightlyRequiresHours),
        Ok((Some(p), Some(h), d)) => Ok(CommandView::Nightly { parent: p, hours: h, dry_run: d }),
    }
}

/// The subcommand named by the first argument left after the global
/// options; no arguments at all ask for help.
pub open spec fn command_of(rest: Seq<Seq<char>>) -> Result<CommandView, CliFault> {
    if rest.len() == 0 {
        Ok(CommandView::Help)
    } else {
        let c = rest[0];
        let a = rest.skip(1);
        if c == "check"@ {
            Ok(CommandView::Check)
        } else if c == "lint"@ {
            lint_of(a)
        } else if c == "estimate"@ {
            estimate_of(a)
        } else if c == "init"@ {
            init_of(a)
        } else if c == "start"@ {
            start_of(a)
        } else if c == "nightly"@ {
            nightly_of(a)
        } else {
            Err(CliFault::UnknownCommand(c))
        }
    }
}

pub open spec fn opt_string_view(o: Option<String>) -> Option<Seq<char>> {
    match o {
        Some(s) => Some(s@),
        None => None,
    }
}

pub open spec fn no_globals() -> Globals {
    Globals { config: None, target: None, verbose: false, rest: Seq::empty(), help: false }
}

/// A parsed command line agrees with what [`scan_globals`] and
/// [`command_of`] give for `args`.
pub open spec fn cli_matches(cli: Cli, g: Globals, command: CommandView) -> bool {
    &&& opt_string_view(cli.explicit_config_path) == g.config
    &&& opt_string_view(cli.target_name) == g.target
    &&& cli.verbose == g.verbose
    &&& cli.command@ == command
}

proof fn lemma_skip_steps(s: Seq<Seq<char>>, i: int)
    requires
        0 <= i < s.len(),
    ensures
        s.skip(i)[0] == s[i],
        s.skip(i).skip(1) == s.skip(i + 1),
        i + 1 < s.len() ==> s.skip(i)[1] == s[i + 1] && s.skip(i).skip(2) == s.skip(i + 2),
        s.skip(i).len() == s.len() - i,
{
    assert(s.skip(i).skip(1) =~= s.skip(i + 1));
    if i + 1 < s.len() {
        assert(s.skip(i).skip(2) =~= s.skip(i + 2));
    }
}

fn is_arg(a: &String, lit: &str) -> (r: bool)
    ensures
        r == (a@ == lit@),
{
    str_eq(a.as_str(), lit)
}

fn clone_string(s: &String) -> (r: String)
    ensures
        r@ == s@,
{
    s.clone()
}

/// What the global options read: config path, target, verbosity, the
/// arguments left, and whether help was asked for.
struct GlobalArgs {
    config: Option<String>,
    target: Option<String>,
    verbose: bool,
    rest: Vec<String>,
    help: bool,
}

spec fn globals_view(g: GlobalArgs) -> Globals {
    Globals {
        config: opt_string_view(g.config),
        target: opt_string_view(g.target),
        verbose: g.verbose,
        rest: string_views(g.rest@),
        help: g.help,
    }
}

fn read_globals(args: &Vec<String>) -> (r: Result<GlobalArgs, CliError>)
    ensures
        match r {
            Ok(g) => scan_globals(string_views(args@), no_globals()) == Ok::<Globals, CliFault>(
                globals_view(g),
            ),
            Err(e) => scan_globals(string_views(args@), no_globals()) == Err::<Globals, CliFault>(
                e@,
            ),
        },
{
    let ghost s = string_views(args@);
    let mut g = GlobalArgs {
        config: None,
        target: None,
        verbose: false,
        rest: Vec::new(),
        help: false,
    };
    proof {
        assert(s.skip(0) == s);
        assert(string_views(g.rest@) =~= Seq::<Seq<char>>::empty());
        assert(globals_view(g) == no_globals());
    }
    let mut i: usize = 0;
    while i < args.len()
        invariant
            i <= args.len(),
            s == string_views(args@),
            !g.help,
            scan_globals(s, no_globals()) == scan_globals(s.skip(i as int), globals_view(g)),
        decreases args.len() - i,
    {
        proof {
            lemma_skip_steps(s, i as int);
        }
        let a = &args[i];
        if is_arg(a, "--config") {
            if i + 1 >= args.len() {
                return Err(CliError::MissingValue("--config".to_owned()));
            }
            g.config = Some(clone_string(&args[i + 1]));
            i = i + 2;
        } else if is_arg(a, "--target") {
            if i + 1 >= args.len() {
                return Err(CliError::MissingValue("--target".to_owned()));
            }
            g.target = Some(clone_string(&args[i + 1]));
            i = i + 2;
        } else if is_arg(a, "--verbose") {
            g.verbose = true;
            i = i + 1;
        } else if is_arg(a, "--help") || is_arg(a, "-h") {
            g.help = true;
            return Ok(g);
        } else {
            let ghost before = globals_view(g);
            g.rest.push(clone_string(a));
            proof {
                assert(string_views(g.rest@) =~= before.rest.push(a@));
            }
            i = i + 1;
        }
    }
    proof {
        assert(s.skip(i as int).len() == 0);
    }
    Ok(g)
}

/// `lint PATH`: the arguments after `from`.
fn parse_lint(v: &Vec<String>, from: usize) -> (r: Result<Command, CliError>)
    requires
        from <= v.len(),
    ensures
        match r {
            Ok(c) => lint_of(string_views(v@).skip(from as int)) == Ok::<CommandView, CliFault>(c@),
            Err(e) => lint_of(string_views(v@).skip(from as int)) == Err::<CommandView, CliFault>(
                e@,
            ),
        },
{
    if v.len() - from != 1 {
        return Err(CliError::LintRequiresPath);
    }
    proof {
        lemma_skip_steps(string_views(v@), from as int);
    }
    Ok(Command::Lint { path: clone_string(&v[from]) })
}

fn parse_estimate(v: &Vec<String>, from: usize) -> (r: Result<Command, CliError>)
    requires
        from <= v.len(),
    ensures
        match r {
            Ok(c) => estimate_of(string_views(v@).skip(from as int)) == Ok::<CommandView, CliFault>(
                c@,
            ),
            Err(e) => estimate_of(string_views(v@).skip(from as int)) == Err::<
                CommandView,
                CliFault,
            >(e@),
        },
{
    let ghost s = string_views(v@);
    if from == v.len() {
        return Err(CliError::EstimateRequiresPath);
    }
    let mut path: Option<String> = None;
    let mut basis = EstimateBasis::Hybrid;
    let mut i: usize = from;
    while i < v.len()
        invariant
            from <= i <= v.len(),
            s == string_views(v@),
            scan_estimate(s.skip(from as int), None, EstimateBasis::Hybrid) == scan_estimate(
                s.skip(i as int),
                opt_string_view(path),
                basis,
            ),
        decreases v.len() - i,
    {
        proof {
            lemma_skip_steps(s, i as int);
        }
        let a = &v[i];
        if is_arg(a, "--basis") {
            if i + 1 >= v.len() {
                return Err(CliError::MissingValue("--basis".to_owned()));
            }
            match EstimateBasis::from_cli_str(v[i + 1].as_str()) {
                Ok(b) => {
                    basis = b;
                },
                Err(_) => {
                    return Err(CliError::InvalidBasis(clone_string(&v[i + 1])));
                },
            }
            i = i + 2;
        } else if path.is_none() {
            path = Some(clone_string(a));
            i = i + 1;
        } else {
            return Err(CliError::UnexpectedArgument(clone_string(a)));
        }
    }
    proof {
        assert(s.skip(i as int).len() == 0);
    }
    match path {
        Some(p) => Ok(Command::Estimate { path: p, basis }),
        None => Err(CliError::EstimateRequiresPath),
    }
}

struct InitArgs {
    positional: Vec<String>,
    base_branch: String,
    agent_command: String,
    plan_command: String,
    default_model: String,
    default_reasoning_effort: String,
}

spec fn init_view(a: InitArgs) -> InitAcc {
    InitAcc {
        positional: string_views(a.positional@),
        base_branch: a.base_branch@,
        agent_command: a.agent_command@,
        plan_command: a.plan_command@,
        default_model: a.default_model@,
        default_reasoning_effort: a.default_reasoning_effort@,
    }
}

fn parse_init(v: &Vec<String>, from: usize) -> (r: Result<Command, CliError>)
    requires
        from <= v.len(),
    ensures
        match r {
            Ok(c) => init_of(string_views(v@).skip(from as int)) == Ok::<CommandView, CliFault>(c@),
            Err(e) => init_of(string_views(v@).skip(from as int)) == Err::<CommandView, CliFault>(
                e@,
            ),
        },
{
    let ghost s = string_views(v@);
    let mut acc = InitArgs {
        positional: Vec::new(),
        base_branch: "main".to_owned(),
        agent_command: "codex exec --full-auto".to_owned(),
        plan_command: "codex exec --full-auto".to_owned(),
        default_model: "gpt-5.4".to_owned(),
        default_reasoning_effort: "medium".to_owned(),
    };
    proof {
        assert(string_views(acc.positional@) =~= Seq::<Seq<char>>::empty());
        assert(init_view(acc) == init_defaults());
    }
    let mut i: usize = from;
    while i < v.len()
        invariant
            from <= i <= v.len(),
            s == string_views(v@),
            scan_init(s.skip(from as int), init_defaults()) == scan_init(
                s.skip(i as int),
                init_view(acc),
            ),
        decreases v.len() - i,
    {
        proof {
            lemma_skip_steps(s, i as int);
        }
        let a = &v[i];
        let is_flag = is_arg(a, "--base-branch") || is_arg(a, "--agent-command") || is_arg(
            a,
            "--plan-command",
        ) || is_arg(a, "--default-model") || is_arg(a, "--default-reasoning-effort");
        if is_flag {
            if i + 1 >= v.len() {
                return Err(CliError::MissingValue(clone_string(a)));
            }
            let value = clone_string(&v[i + 1]);
            if is_arg(a, "--base-branch") {
                acc.base_branch = value;
            } else if is_arg(a, "--agent-command") {
                acc.agent_command = value;
            } else if is_arg(a, "--plan-command") {
                acc.plan_command = value;
            } else if is_arg(a, "--default-model") {
                acc.default_model = value;
            } else {
                acc.default_reasoning_effort = value;
            }
            i = i + 2;
        } else {
            let ghost before = init_view(acc);
            acc.positional.push(clone_string(a));
            proof {
                assert(string_views(acc.positional@) =~= before.positional.push(a@));
            }
            i = i + 1;
        }
    }
    proof {
        assert(s.skip(i as int).len() == 0);
    }
    if acc.positional.len() != 3 {
        return Err(CliError::InitRequiresArguments);
    }
    let workdir = acc.positional.pop().unwrap();
    let repo = acc.positional.pop().unwrap();
    let name = acc.positional.pop().unwrap();
    Ok(
        Command::Init {
            name,
            repo,
            workdir,
            base_branch: acc.base_branch,
            agent_command: acc.agent_command,
            plan_command: acc.plan_command,
            default_model: acc.default_model,
            default_reasoning_effort: acc.default_reasoning_effort,
        },
    )
}

fn parse_start(v: &Vec<String>, from: usize) -> (r: Result<Command, CliError>)
    requires
        from <= v.len(),
    ensures
        match r {
            Ok(c) => start_of(string_views(v@).skip(from as int)) == Ok::<CommandView, CliFault>(
                c@,
            ),
            Err(e) => start_of(string_views(v@).skip(from as int)) == Err::<CommandView, CliFault>(
                e@,
            ),
        },
{
    let ghost s = string_views(v@);
    let mut parent: Option<u64> = None;
    let mut dry_run = false;
    let mut i: usize = from;
    while i < v.len()
        invariant
            from <= i <= v.len(),
            s == string_views(v@),
            scan_start(s.skip(from as int), None, false) == scan_start(
                s.skip(i as int),
                parent,
                dry_run,
            ),
        decreases v.len() - i,
    {
        proof {
            lemma_skip_steps(s, i as int);
        }
        let a = &v[i];
        if is_arg(a, "--dry-run") {
            dry_run = true;
        } else if parent.is_none() {
            let c = chars_of(a.as_str());
            match parse_u64_chars(c.as_slice()) {
                Some(n) => {
                    parent = Some(n);
                },
                None => {
                    return Err(CliError::InvalidNumber(clone_string(a)));
                },
            }
        } else {
            return Err(CliError::UnexpectedArgument(clone_string(a)));
        }
        i = i + 1;
    }
    proof {
        assert(s.skip(i as int).len() == 0);
    }
    match parent {
        Some(p) => Ok(Command::Start { parent: p, dry_run }),
        None => Err(CliError::StartRequiresParent),
    }
}

fn parse_nightly(v: &Vec<String>, from: usize) -> (r: Result<Command, CliError>)
    requires
        from <= v.len(),
    ensures
        match r {
            Ok(c) => nightly_of(string_views(v@).skip(from as int)) == Ok::<CommandView, CliFault>(
                c@,
            ),
            Err(e) => nightly_of(string_views(v@).skip(from as int)) == Err::<
                CommandView,
                CliFault,
            >(e@),
        },
{
    let ghost s = string_views(v@);
    let mut parent: Option<u64> = None;
    let mut hours: Option<u32> = None;
    let mut dry_run = false;
    let mut i: usize = from;
    while i < v.len()
        invariant
            from <= i <= v.len(),
            s == string_views(v@),
            scan_nightly(s.skip(from as int), None, None, false) == scan_nightly(
                s.skip(i as int),
                parent,
                hours,
                dry_run,
            ),
        decreases v.len() - i,
    {
        proof {
            lemma_skip_steps(s, i as int);
        }
        let a = &v[i];
        if is_arg(a, "--hours") {
            if i + 1 >= v.len() {
                return Err(CliError::MissingValue("--hours".to_owned()));
            }
            let c = chars_of(v[i + 1].as_str());
            match parse_u32_chars(c.as_slice()) {
                Some(h) => {
                    hours = Some(h);
                },
                None => {
                    return Err(CliError::InvalidNumber(clone_string(&v[i + 1])));
                },
            }
            i = i + 2;
        } else if is_arg(a, "--dry-run") {
            dry_run = true;
            i = i + 1;
        } else if parent.is_none() {
            let c = chars_of(a.as_str());
            match parse_u64_chars(c.as_slice()) {
                Some(n) => {
                    parent = Some(n);
                },
                None => {
                    return Err(CliError::InvalidNumber(clone_string(a)));
                },
            }
            i = i + 1;
        } else {
            return Err(CliError::UnexpectedArgument(clone_string(a)));
        }
    }
    proof {
        assert(s.skip(i as int).len() == 0);
    }
    match parent {
        None => Err(CliError::NightlyRequiresParent),
        Some(p) => match hours {
            None => Err(CliError::NightlyRequiresHours),
            Some(h) => Ok(Command::Nightly { parent: p, hours: h, dry_run }),
        },
    }
}

/// Parses the program's arguments (without the program name).
pub fn parse_cli(args: &Vec<String>) -> (r: Result<Cli, CliError>)
    ensures
        match scan_globals(string_views(args@), no_globals()) {
            Err(e) => r matches Err(x) && x@ == e,
            Ok(g) => if g.help {
                r matches Ok(cli) && cli_matches(cli, g, CommandView::Help)
            } else {
                match command_of(g.rest) {
                    Ok(c) => r matches Ok(cli) && cli_matches(cli, g, c),
                    Err(e) => r matches Err(x) && x@ == e,
                }
            },
        },
{
    let g = read_globals(args)?;
    if g.help {
        return Ok(
            Cli {
                explicit_config_path: g.config,
                target_name: g.target,
                verbose: g.verbose,
                command: Command::Help,
            },
        );
    }
    let rest = &g.rest;
    let command = if rest.len() == 0 {
        Command::Help
    } else {
        proof {
            lemma_skip_steps(string_views(rest@), 0);
            assert(string_views(rest@).skip(0) == string_views(rest@));
        }
        let c = &rest[0];
        if is_arg(c, "check") {
            Command::Check
        } else if is_arg(c, "lint") {
            parse_lint(rest, 1)?
        } else if is_arg(c, "estimate") {
            parse_estimate(rest, 1)?
        } else if is_arg(c, "init") {
            parse_init(rest, 1)?
        } else if is_arg(c, "start") {
            parse_start(rest, 1)?
        } else if is_arg(c, "nightly") {
            parse_nightly(rest, 1)?
        } else {
            return Err(CliError::UnknownCommand(clone_string(c)));
        }
    };
    Ok(
        Cli {
            explicit_config_path: g.config,
            target_name: g.target,
            verbose: g.verbose,
            command,
        },
    )
}

} // verus!
