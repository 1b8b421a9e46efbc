use nightloop::cli::{parse_cli, Command, CliError};
use nightloop::estimate::EstimateBasis;

fn args(v: &[&str]) -> Vec<String> {
    v.iter().map(|s| s.to_string()).collect()
}

#[test]
fn global_options_stand_anywhere() {
    let cli = parse_cli(&args(&["nightly", "221", "--target", "canaria", "--hours", "4", "--verbose", "--dry-run"])).unwrap();
    assert_eq!(cli.target_name.as_deref(), Some("canaria"));
    assert!(cli.verbose);
    assert!(cli.explicit_config_path.is_none());
    assert!(matches!(cli.command, Command::Nightly { parent: 221, hours: 4, dry_run: true }));
    let cli = parse_cli(&args(&["--config", "c.toml", "check"])).unwrap();
    assert_eq!(cli.explicit_config_path.as_deref(), Some("c.toml"));
    assert!(matches!(cli.command, Command::Check));
}

#[test]
fn help_wins_and_no_command_means_help() {
    assert!(matches!(parse_cli(&args(&[])).unwrap().command, Command::Help));
    assert!(matches!(parse_cli(&args(&["start", "--help"])).unwrap().command, Command::Help));
    assert!(matches!(parse_cli(&args(&["-h", "bogus"])).unwrap().command, Command::Help));
}

#[test]
fn removed_commands_are_unknown() {
    for removed in ["setup-labels", "record-run", "budget", "review-loop", "run", "lint-issue"] {
        let err = parse_cli(&args(&[removed])).unwrap_err();
        assert_eq!(err.message(), format!("unknown command: {removed}"));
    }
}

#[test]
fn estimate_reads_path_and_basis() {
    let cli = parse_cli(&args(&["estimate", "issue.md", "--basis", "Local"])).unwrap();
    assert!(matches!(cli.command, Command::Estimate { ref path, basis: EstimateBasis::Local } if path == "issue.md"));
    let cli = parse_cli(&args(&["estimate", "issue.md"])).unwrap();
    assert!(matches!(cli.command, Command::Estimate { basis: EstimateBasis::Hybrid, .. }));
    let err = parse_cli(&args(&["estimate", "issue.md", "--basis", "ai"])).unwrap_err();
    assert_eq!(err.message(), "invalid estimate basis: ai");
    assert!(matches!(parse_cli(&args(&["estimate"])), Err(CliError::EstimateRequiresPath)));
    assert!(matches!(parse_cli(&args(&["estimate", "--basis", "local"])), Err(CliError::EstimateRequiresPath)));
    assert_eq!(parse_cli(&args(&["estimate", "a", "b"])).unwrap_err().message(), "unexpected argument: b");
    assert_eq!(parse_cli(&args(&["estimate", "a", "--basis"])).unwrap_err().message(), "missing value for --basis");
}

#[test]
fn lint_needs_exactly_one_path() {
    assert!(matches!(parse_cli(&args(&["lint", "x.md"])).unwrap().command, Command::Lint { ref path } if path == "x.md"));
    assert_eq!(parse_cli(&args(&["lint"])).unwrap_err().message(), "lint requires a path");
    assert!(matches!(parse_cli(&args(&["lint", "a", "b"])), Err(CliError::LintRequiresPath)));
}

#[test]
fn init_reads_positionals_and_options() {
    let cli = parse_cli(&args(&["init", "canaria", "UTAGEDA/canaria", "/repo", "--plan-command", "plan it"])).unwrap();
    match cli.command {
        Command::Init { name, repo, workdir, base_branch, agent_command, plan_command, default_model, default_reasoning_effort } => {
            assert_eq!(name, "canaria");
            assert_eq!(repo, "UTAGEDA/canaria");
            assert_eq!(workdir, "/repo");
            assert_eq!(base_branch, "main");
            assert_eq!(agent_command, "codex exec --full-auto");
            assert_eq!(plan_command, "plan it");
            assert_eq!(default_model, "gpt-5.4");
            assert_eq!(default_reasoning_effort, "medium");
        }
        other => panic!("unexpected command {other:?}"),
    }
    assert_eq!(parse_cli(&args(&["init", "a", "b"])).unwrap_err().message(), "init requires NAME OWNER/REPO WORKDIR");
    assert_eq!(parse_cli(&args(&["init", "a", "b", "c", "--base-branch"])).unwrap_err().message(), "missing value for --base-branch");
}

#[test]
fn start_and_nightly_need_numbers() {
    assert!(matches!(parse_cli(&args(&["start", "221", "--dry-run"])).unwrap().command, Command::Start { parent: 221, dry_run: true }));
    assert_eq!(parse_cli(&args(&["start"])).unwrap_err().message(), "start requires a parent issue number");
    assert_eq!(parse_cli(&args(&["start", "abc"])).unwrap_err().message(), "invalid digit found in string");
    assert_eq!(parse_cli(&args(&["start", "1", "2"])).unwrap_err().message(), "unexpected argument: 2");
    assert_eq!(parse_cli(&args(&["nightly", "221"])).unwrap_err().message(), "nightly requires --hours");
    assert_eq!(parse_cli(&args(&["nightly", "--hours", "4"])).unwrap_err().message(), "nightly requires a parent issue number");
    assert_eq!(parse_cli(&args(&["nightly", "1", "--hours", "99999999999"])).unwrap_err().message(), "number too large to fit in target type");
    assert_eq!(parse_cli(&args(&["nightly", "1", "--hours"])).unwrap_err().message(), "missing value for --hours");
    assert_eq!(parse_cli(&args(&["check", "--config"])).unwrap_err().message(), "missing value for --config");
}
