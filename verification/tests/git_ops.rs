use nightloop::agent_exec::CommandResult;
use nightloop::git_ops::{
    build_status_command, diff_against, diff_command, ensure_clean_worktree, local_branch_exists,
    origin_repo_slug, parse_origin_repo_slug, worktree_status, GitError,
};
use nightloop::git_ops::{commit_steps, delete_branch_steps, step_result, GitStepKind};

fn ok(stdout: &str) -> CommandResult {
    CommandResult { status_code: 0, stdout: stdout.to_string(), stderr: String::new() }
}

fn failed() -> CommandResult {
    CommandResult { status_code: 1, stdout: String::new(), stderr: "boom".to_string() }
}

#[test]
fn parses_origin_repo_slug_from_common_remote_urls() {
    assert_eq!(
        parse_origin_repo_slug("git@github.com:semigrp/nightloop.git").as_deref(),
        Some("semigrp/nightloop")
    );
    assert_eq!(
        parse_origin_repo_slug("https://github.com/semigrp/nightloop.git").as_deref(),
        Some("semigrp/nightloop")
    );
    assert_eq!(
        parse_origin_repo_slug("ssh://git@github.com/semigrp/nightloop.git").as_deref(),
        Some("semigrp/nightloop")
    );
    assert_eq!(parse_origin_repo_slug("file:///tmp/repo"), None);
}

#[test]
fn origin_slug_strips_every_git_suffix_and_whitespace() {
    assert_eq!(
        parse_origin_repo_slug("  https://github.com/o/r.git.git\n").as_deref(),
        Some("o/r")
    );
    assert_eq!(parse_origin_repo_slug("https://github.com/o/r").as_deref(), Some("o/r"));
    assert_eq!(origin_repo_slug(&ok("git@github.com:o/r.git\n")).as_deref(), Some("o/r"));
    assert_eq!(origin_repo_slug(&failed()), None);
}

#[test]
fn status_command_excludes_the_given_paths() {
    let command = build_status_command(&vec![".nightloop/runs".to_string(), String::new()]);
    assert_eq!(
        command,
        "git status --porcelain --untracked-files=all -- . ':(exclude).nightloop/runs'"
    );
    let diff = diff_command("abc", &vec!["a\\b".to_string()]);
    assert_eq!(diff, "git diff --numstat 'abc' -- . ':(exclude)a/b'");
}

#[test]
fn worktree_status_lists_dirty_paths() {
    let status = worktree_status(&ok(" M src/lib.rs\n?? new file.txt\nR  old.rs -> \"new.rs\"\n")).unwrap();
    assert!(!status.ignored_only);
    assert_eq!(status.dirty_paths, vec!["src/lib.rs", "new file.txt", "new.rs"]);
    assert!(matches!(ensure_clean_worktree(&status), Err(GitError::WorktreeDirty)));
    let clean = worktree_status(&ok("")).unwrap();
    assert!(clean.ignored_only);
    assert!(ensure_clean_worktree(&clean).is_ok());
    assert!(matches!(worktree_status(&failed()), Err(GitError::StatusFailed)));
}

#[test]
fn branch_existence_follows_the_exit_status() {
    assert!(local_branch_exists(&ok("")));
    assert!(!local_branch_exists(&failed()));
}

#[test]
fn diff_against_reads_numstat_output() {
    let stat = diff_against(&ok("1\t0\ttracked.txt\n")).unwrap();
    assert_eq!(stat.changed_lines, 1);
    assert_eq!(stat.files_touched, 1);
    assert!(matches!(diff_against(&failed()), Err(GitError::DiffFailed)));
}

#[test]
fn deleting_the_checked_out_branch_switches_away_first() {
    let steps = delete_branch_steps("nightloop/1-2", "nightloop/1-2", "main");
    assert_eq!(steps.len(), 2);
    assert_eq!(steps[0].kind, GitStepKind::Switch);
    assert_eq!(steps[0].command, "git switch 'main'");
    assert_eq!(steps[1].kind, GitStepKind::DeleteBranch);
    assert_eq!(steps[1].command, "git branch -D 'nightloop/1-2'");
    let steps = delete_branch_steps("main", "nightloop/1-2", "main");
    assert_eq!(steps.len(), 1);
    assert_eq!(steps[0].kind, GitStepKind::DeleteBranch);
}

#[test]
fn committing_stages_then_commits_and_each_failure_has_its_error() {
    let steps = commit_steps("feat: x");
    assert_eq!(steps[0].command, "git add -A");
    assert_eq!(steps[1].command, "git commit -m 'feat: x'");
    assert!(step_result(&steps[0], &ok("")).is_ok());
    assert!(matches!(step_result(&steps[0], &failed()), Err(GitError::AddFailed)));
    assert!(matches!(step_result(&steps[1], &failed()), Err(GitError::CommitFailed)));
    let delete = delete_branch_steps("main", "b", "main");
    assert!(matches!(step_result(&delete[0], &failed()), Err(GitError::BranchDeleteFailed)));
    let switch = delete_branch_steps("b", "b", "main");
    assert!(matches!(step_result(&switch[0], &failed()), Err(GitError::SwitchFailed)));
}
