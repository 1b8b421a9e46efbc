use nightloop::agent_exec::CommandResult;
use nightloop::config::Labels;
use nightloop::github::{
    build_create_label_command, comment_issue_command, count_label_statuses, labels_to_create, create_draft_pr_command,
    edit_labels_command, pr_url_from_output, reconcile_managed_labels, require_success,
    shell_quote, view_issue_command, GhError,
};

fn labels() -> Labels {
    Labels {
        campaign: "campaign".to_string(),
        night_run: "night-run".to_string(),
        ready: "agent:ready".to_string(),
        running: "agent:running".to_string(),
        review: "agent:review".to_string(),
        blocked: "agent:blocked".to_string(),
        done: "agent:done".to_string(),
    }
}

#[test]
fn build_create_label_command_quotes_inputs() {
    let command = build_create_label_command("o/r", "agent:ready", "ffffff", "Ready");
    assert!(command.contains("gh label create 'agent:ready' --repo o/r"));
}

#[test]
fn reconcile_managed_labels_marks_existing_and_missing() {
    let labels = labels();
    let existing = vec!["campaign".to_string(), "agent:ready".to_string()];
    let statuses = reconcile_managed_labels(&existing, &labels);
    assert!(statuses
        .iter()
        .any(|item| item.name == "campaign" && item.status == "exists"));
    assert!(statuses
        .iter()
        .any(|item| item.name == "night-run" && item.status == "created"));
}

#[test]
fn reconcile_lists_every_managed_label_in_order() {
    let statuses = reconcile_managed_labels(&Vec::new(), &labels());
    let names: Vec<&str> = statuses.iter().map(|s| s.name.as_str()).collect();
    assert_eq!(
        names,
        vec![
            "campaign",
            "night-run",
            "agent:ready",
            "agent:running",
            "agent:review",
            "agent:blocked",
            "agent:done"
        ]
    );
    assert!(statuses.iter().all(|s| s.status == "created" && s.color.is_some()));
}

#[test]
fn shell_quote_escapes_single_quotes() {
    assert_eq!(shell_quote("it's"), "'it'\"'\"'s'");
    assert_eq!(shell_quote(""), "''");
}

#[test]
fn gh_commands_are_spelled_out() {
    assert_eq!(
        view_issue_command("o/r", 221),
        "gh issue view 221 --repo o/r --json number,title,body,state,labels,url"
    );
    assert_eq!(
        edit_labels_command("o/r", 7, "--add-label", &vec!["a".to_string(), "b c".to_string()])
            .as_deref(),
        Some("gh issue edit 7 --repo o/r --add-label 'a' --add-label 'b c'")
    );
    assert_eq!(edit_labels_command("o/r", 7, "--add-label", &Vec::new()), None);
    assert_eq!(
        comment_issue_command("o/r", 9, "done"),
        "gh issue comment 9 --repo o/r --body 'done'"
    );
    assert_eq!(
        create_draft_pr_command("o/r", "main", "nightloop/1-2", "[2] T", "body"),
        "gh pr create --repo o/r --draft --base 'main' --head 'nightloop/1-2' --title '[2] T' --body 'body'"
    );
}

#[test]
fn pr_url_is_the_first_url_line() {
    let ok = CommandResult {
        status_code: 0,
        stdout: "Creating pull request\nhttps://example.test/pr/1\nhttps://other\n".to_string(),
        stderr: String::new(),
    };
    assert_eq!(pr_url_from_output(&ok).unwrap(), "https://example.test/pr/1");
    let none = CommandResult { status_code: 0, stdout: "nothing\n".to_string(), stderr: String::new() };
    assert!(matches!(pr_url_from_output(&none), Err(GhError::PrCreateMissingUrl)));
    let failed = CommandResult { status_code: 1, stdout: String::new(), stderr: String::new() };
    assert!(matches!(pr_url_from_output(&failed), Err(GhError::PrCreateFailed)));
    assert!(matches!(require_success(&failed, GhError::AuthInvalid), Err(GhError::AuthInvalid)));
    assert_eq!(GhError::LabelUpdateFailed.code(), "gh_label_update_failed");
}

#[test]
fn label_statuses_are_counted_by_kind() {
    let existing = vec!["campaign".to_string(), "agent:ready".to_string()];
    let statuses = reconcile_managed_labels(&existing, &labels());
    assert_eq!(count_label_statuses(&statuses), (5, 2));
    assert_eq!(count_label_statuses(&Vec::new()), (0, 0));
}

#[test]
fn only_missing_labels_are_created_in_order() {
    let existing = vec!["campaign".to_string(), "agent:ready".to_string()];
    let statuses = reconcile_managed_labels(&existing, &labels());
    assert_eq!(labels_to_create(&statuses), vec![1, 3, 4, 5, 6]);
    let all: Vec<String> = statuses.iter().map(|s| s.name.clone()).collect();
    assert!(labels_to_create(&reconcile_managed_labels(&all, &labels())).is_empty());
}
