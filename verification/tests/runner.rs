use nightloop::runner::{branch_preparation, BranchPreparation, ChildStep};
use nightloop::runner::{child_step_plan, claim_labels, failure_labels, success_labels};
use nightloop::config::{
    Agent, Config, DiffConfig, DocsConfig, EstimationConfig, GitHub, Labels, LoopConfig,
    ModelProfile, TelemetryConfig,
};
use nightloop::agent_exec::CommandResult;
use nightloop::diff_budget::DiffStat;
use nightloop::git_ops::origin_repo_slug;
use nightloop::models::{
    ChildIssue, Confidence, DocsImpact, EstimationBasis, IssueEstimate, IssueSnapshot, IssueState,
    ParentChildRef, ParentIssue, Sections, SizeBand,
};
use nightloop::runner::{
    build_agent_prompt, build_parent_summary, build_pr_body, build_report, commit_message,
    diff_base_revision, enforce_diff_budget, nightly_branch_publication, pr_title,
    start_publication, target_repo_match, CampaignPlanner, DiffBreach, IssueStatus, Publication,
    RunState,
};

fn config() -> Config {
    Config {
        github: GitHub {
            owner: "o".to_string(),
            repo: "r".to_string(),
            base_branch: "main".to_string(),
            request_copilot_review: false,
            copilot_reviewer: "github-copilot[bot]".to_string(),
        },
        agent: Agent {
            command: "echo agent".to_string(),
            plan_command: "echo planner".to_string(),
            working_directory: ".".to_string(),
            default_model: "gpt-5.4".to_string(),
            default_reasoning_effort: "medium".to_string(),
            model_profiles: vec![ModelProfile {
                name: "balanced".to_string(),
                model: "gpt-5.4".to_string(),
                reasoning_effort: "medium".to_string(),
                intended_for: "default".to_string(),
                max_size: "M".to_string(),
            }],
        },
        loop_cfg: LoopConfig {
            default_hours: 4,
            min_hours: 2,
            max_hours: 6,
            fallback_cycle_minutes: 40,
            fixed_overhead_minutes: 20,
            stop_on_failure: true,
            one_branch_per_child: true,
            one_pr_per_child: true,
        },
        diff: DiffConfig { min_lines: 50, max_lines: 1000, allow_doc_only_below_min: true },
        labels: Labels {
            campaign: "campaign".to_string(),
            night_run: "night-run".to_string(),
            ready: "agent:ready".to_string(),
            running: "agent:running".to_string(),
            review: "agent:review".to_string(),
            blocked: "agent:blocked".to_string(),
            done: "agent:done".to_string(),
        },
        docs: DocsConfig { required_paths: Vec::new() },
        estimation: EstimationConfig {
            default_basis: "hybrid".to_string(),
            allow_ai_assist: false,
            template_minutes_xs: 35,
            template_minutes_s: 50,
            template_minutes_m: 80,
            template_minutes_l: 120,
            dependency_penalty_minutes: 5,
            docs_penalty_readme: 5,
            docs_penalty_user_facing: 10,
            docs_penalty_architecture: 15,
        },
        telemetry: TelemetryConfig {
            history_path: ".nightloop/history.jsonl".to_string(),
            min_samples_for_local: 1,
        },
    }
}

fn snapshot(number: u64, labels: &[&str]) -> IssueSnapshot {
    IssueSnapshot {
        number,
        title: format!("child {number}"),
        body: String::new(),
        state: IssueState::Open,
        labels: labels.iter().map(|l| l.to_string()).collect(),
        url: None,
    }
}

fn child(number: u64, dependencies: Vec<u64>) -> ChildIssue {
    ChildIssue {
        number,
        title: format!("child {number}"),
        body: "body".to_string(),
        state: IssueState::Open,
        labels: vec!["night-run".to_string(), "agent:ready".to_string()],
        url: None,
        sections: Sections::default(),
        background: String::new(),
        goal: String::new(),
        scope: "normal".to_string(),
        out_of_scope: String::new(),
        source_of_truth_raw: String::new(),
        source_of_truth: Vec::new(),
        implementation_constraints: None,
        acceptance_criteria: String::new(),
        verification_raw: String::new(),
        verification: Vec::new(),
        dependencies_raw: String::new(),
        dependencies,
        target_size: SizeBand::M,
        docs_impact: DocsImpact::NoImpact,
        suggested_model_profile: "balanced".to_string(),
        suggested_model_override: None,
        estimated_minutes: 80,
        estimation_basis: EstimationBasis::Template,
        estimation_confidence: Confidence::Medium,
    }
}

fn estimate(minutes: u32) -> IssueEstimate {
    IssueEstimate {
        model_profile: "balanced".to_string(),
        model: "gpt-5.4".to_string(),
        reasoning_effort: "medium".to_string(),
        estimated_minutes: minutes,
        recommended_hours: 2,
        basis_requested: "hybrid".to_string(),
        basis_used: "template".to_string(),
        local_samples: 0,
        notes: vec![],
        ai_estimate: None,
    }
}

fn parent() -> ParentIssue {
    parent_of(&[])
}

fn parent_of(children: &[u64]) -> ParentIssue {
    ParentIssue {
        number: 221,
        title: "Parent".to_string(),
        body: String::new(),
        state: IssueState::Open,
        labels: vec![],
        url: None,
        sections: Sections::default(),
        children: children
            .iter()
            .map(|n| ParentChildRef { number: *n, checked: false, raw_line: format!("- [ ] #{n}") })
            .collect(),
    }
}

const READY: [&str; 2] = ["night-run", "agent:ready"];

#[test]
fn nightly_branch_publication_is_stacked_and_always_pushes_before_pr() {
    let first: Publication = nightly_branch_publication(221, 222, "main", None);
    assert_eq!(first.branch_name, "nightloop/221-222");
    assert_eq!(first.pr_base, "main");
    assert!(first.push_before_pr);

    let second = nightly_branch_publication(221, 223, "main", Some("nightloop/221-222"));
    assert_eq!(second.pr_base, "nightloop/221-222");
    assert!(second.push_before_pr);
}

#[test]
fn start_publication_targets_the_base_branch() {
    let p = start_publication(221, 222, "develop");
    assert_eq!(p.branch_name, "nightloop/221-222");
    assert_eq!(p.pr_base, "develop");
    assert!(p.push_before_pr);
}

#[test]
fn nightly_plan_packs_in_parent_order_within_budget() {
    let cfg = config();
    let mut planner = CampaignPlanner::new(&cfg, parent_of(&[222, 223, 224]), 100, false);
    planner.consider(&cfg, snapshot(222, &READY), child(222, vec![]), estimate(60));
    planner.consider(&cfg, snapshot(223, &READY), child(223, vec![]), estimate(50));
    planner.consider(&cfg, snapshot(224, &READY), child(224, vec![]), estimate(40));
    assert!(!planner.finished);
    let statuses: Vec<IssueStatus> = planner.issues.iter().map(|i| i.status).collect();
    assert_eq!(
        statuses,
        vec![IssueStatus::Selected, IssueStatus::Skipped, IssueStatus::Selected]
    );
    assert_eq!(planner.issues[1].reasons, vec!["budget_exhausted".to_string()]);
    assert_eq!(planner.used_minutes, 100);
    assert_eq!(planner.estimated_total_minutes, 100);
}

#[test]
fn dependencies_must_be_done_or_planned_earlier() {
    let cfg = config();
    let mut planner = CampaignPlanner::new(&cfg, parent_of(&[222, 223, 224, 225]), 1000, false);
    let mut closed = snapshot(222, &READY);
    closed.state = IssueState::Closed;
    let mut closed_child = child(222, vec![]);
    closed_child.state = IssueState::Closed;
    planner.consider(&cfg, closed, closed_child, estimate(10));
    planner.consider(&cfg, snapshot(223, &READY), child(223, vec![222]), estimate(10));
    planner.consider(&cfg, snapshot(224, &READY), child(224, vec![223, 225]), estimate(10));
    planner.consider(&cfg, snapshot(225, &READY), child(225, vec![223]), estimate(10));
    assert_eq!(planner.issues[0].status, IssueStatus::Skipped);
    assert_eq!(planner.issues[0].reasons, vec!["issue_closed".to_string()]);
    assert_eq!(planner.issues[1].status, IssueStatus::Selected);
    assert_eq!(planner.issues[2].status, IssueStatus::Skipped);
    assert_eq!(planner.issues[2].reasons, vec!["dependency_unsatisfied".to_string()]);
    assert_eq!(planner.issues[3].status, IssueStatus::Selected);
}

#[test]
fn single_child_plan_stops_at_first_runnable_child() {
    let cfg = config();
    let mut planner = CampaignPlanner::new(&cfg, parent_of(&[222, 223]), 10, true);
    planner.skip_invalid(snapshot(222, &READY), &vec!["missing section: goal".to_string()]);
    assert!(!planner.finished);
    planner.consider(&cfg, snapshot(223, &READY), child(223, vec![]), estimate(500));
    assert!(planner.finished);
    assert_eq!(planner.issues[0].status, IssueStatus::Skipped);
    assert_eq!(planner.issues[0].reasons, vec!["lint_failed".to_string()]);
    assert_eq!(planner.issues[0].detail.as_deref(), Some("missing section: goal"));
    assert_eq!(planner.issues[1].status, IssueStatus::Selected);
    let campaign = planner.into_campaign("true".to_string(), ".nightloop/runs".to_string());
    assert_eq!(campaign.estimated_total_minutes, 500);
    assert_eq!(campaign.available_minutes, 10);
}

#[test]
fn run_state_stacks_successes_and_stops_on_failure() {
    let cfg = config();
    let mut planner = CampaignPlanner::new(&cfg, parent_of(&[222, 223, 224]), 1000, false);
    planner.consider(&cfg, snapshot(222, &READY), child(222, vec![]), estimate(10));
    planner.consider(&cfg, snapshot(223, &READY), child(223, vec![]), estimate(10));
    planner.consider(&cfg, snapshot(224, &READY), child(224, vec![]), estimate(10));
    let mut campaign = planner.into_campaign("true".to_string(), "runs".to_string());
    let mut state = RunState::new();

    let item = &mut campaign.issues[0];
    assert!(state.should_run(item));
    let publication = state.publication_for(221, 222, "main", false);
    assert_eq!(publication.pr_base, "main");
    assert_eq!(state.diff_base(&publication, "main"), "main");
    RunState::record_publication(item, &publication);
    state.record_success(item, &publication, "https://example.test/pr/1".to_string(), 7, DiffStat { changed_lines: 300, files_touched: 3 });
    assert_eq!(item.status, IssueStatus::Success);

    let item = &mut campaign.issues[1];
    let publication = state.publication_for(221, 223, "main", false);
    assert_eq!(publication.pr_base, "nightloop/221-222");
    assert_eq!(state.diff_base(&publication, "main"), "HEAD");
    RunState::record_publication(item, &publication);
    state.record_failure(item, "split_required", true, false);
    assert_eq!(item.status, IssueStatus::SplitRequired);
    assert!(state.stop);
    assert!(!state.should_run(&campaign.issues[2]));

    let summary = build_parent_summary(&campaign, false);
    assert_eq!(
        summary,
        "nightloop nightly summary\n\n- succeeded: #222\n- deferred: #223 (split_required)\n"
    );
    let report = build_report(&campaign, false);
    assert!(!report.ok);
    assert_eq!(report.lines.len(), 4);
    let rendered = report.rendered_lines();
    assert_eq!(
        rendered[0],
        "ok=false parent_issue=221 target_repo_match=true available_minutes=1000 estimated_total_minutes=30 run_root=runs dry_run=false"
    );
    assert_eq!(
        rendered[1],
        "child_issue=222 status=success estimated_minutes=10 branch=nightloop/221-222 pr_base=main pr_url=https://example.test/pr/1 actual_minutes=7 changed_lines=300"
    );
    assert_eq!(
        rendered[2],
        "child_issue=223 status=split_required estimated_minutes=10 reasons=split_required detail=split_required branch=nightloop/221-223 pr_base=nightloop/221-222"
    );
    assert_eq!(rendered[3], "child_issue=224 status=selected estimated_minutes=10");
}

#[test]
fn failures_block_unless_a_split_is_required() {
    let cfg = config();
    let mut planner = CampaignPlanner::new(&cfg, parent_of(&[222]), 1000, true);
    planner.consider(&cfg, snapshot(222, &READY), child(222, vec![]), estimate(10));
    let mut campaign = planner.into_campaign("unknown".to_string(), "runs".to_string());
    let mut state = RunState::new();
    let publication = state.publication_for(221, 222, "main", true);
    state.record_failure(&mut campaign.issues[0], "verification_failed", false, true);
    assert_eq!(campaign.issues[0].status, IssueStatus::Blocked);
    assert!(state.stop);
    assert_eq!(publication.pr_base, "main");
    assert_eq!(
        build_parent_summary(&campaign, true),
        "nightloop start summary\n\n- succeeded: none\n- deferred: #222 (verification_failed)\n"
    );
}

#[test]
fn dry_run_report_of_an_empty_plan_is_ok() {
    let planner = CampaignPlanner::new(&config(), parent(), 220, false);
    let campaign = planner.into_campaign("true".to_string(), "run root".to_string());
    let report = build_report(&campaign, true);
    assert!(report.ok);
    assert_eq!(
        report.rendered_lines(),
        vec!["ok=true parent_issue=221 target_repo_match=true available_minutes=220 estimated_total_minutes=0 run_root=\"run root\" dry_run=true".to_string()]
    );
}

#[test]
fn runner_diff_budget_asks_for_splits_and_refuses_tiny_diffs() {
    let cfg = config();
    let normal = child(222, vec![]);
    assert_eq!(
        enforce_diff_budget(&normal, &DiffStat { changed_lines: 501, files_touched: 1 }, &cfg),
        Err(DiffBreach::SplitRequired)
    );
    assert_eq!(
        enforce_diff_budget(&normal, &DiffStat { changed_lines: 10, files_touched: 1 }, &cfg),
        Err(DiffBreach::DiffBelowMin)
    );
    assert_eq!(enforce_diff_budget(&normal, &DiffStat { changed_lines: 100, files_touched: 1 }, &cfg), Ok(()));
    let mut docs = child(223, vec![]);
    docs.scope = "docs-only".to_string();
    assert_eq!(enforce_diff_budget(&docs, &DiffStat { changed_lines: 10, files_touched: 1 }, &cfg), Ok(()));
    assert_eq!(DiffBreach::SplitRequired.as_str(), "split_required");
}

#[test]
fn agent_prompt_and_pr_body_name_the_workflow() {
    let p = parent();
    let c = child(222, vec![]);
    let e = estimate(45);
    assert_eq!(
        build_agent_prompt(&p, &c, &e, true),
        "Parent issue: #221 Parent\nChild issue: #222 child 222\nWorkflow: start\nModel profile: balanced\nEstimated minutes: 45\n\nImplement only the child issue scope. Run the declared verification commands before finishing.\n\nIssue body:\nbody\n"
    );
    assert_eq!(
        build_pr_body(&p, &c, &e, false),
        "## Summary\n- Parent issue: #221\n- Child issue: #222\n- Workflow: nightly\n- Model profile: balanced\n- Estimated minutes: 45\n"
    );
    assert_eq!(pr_title(&c), "[222] child 222");
    assert_eq!(commit_message(&c), "child #222: child 222");
}

#[test]
fn target_repo_match_compares_origin_with_config() {
    assert_eq!(target_repo_match(Some("o/r"), "o/r"), Ok("true"));
    assert_eq!(target_repo_match(None, "o/r"), Ok("unknown"));
    assert_eq!(target_repo_match(Some("x/y"), "o/r"), Err("target_repo_mismatch"));
    assert_eq!(diff_base_revision(Some("b"), "b", "main"), "HEAD");
    assert_eq!(diff_base_revision(Some("b"), "main", "main"), "main");
}

#[test]
fn preflight_target_repo_accepts_matching_remote_and_unknown_without_origin() {
    let matching = CommandResult {
        status_code: 0,
        stdout: "https://github.com/o/r.git".to_string(),
        stderr: String::new(),
    };
    let no_origin = CommandResult {
        status_code: 2,
        stdout: String::new(),
        stderr: "error: No such remote 'origin'".to_string(),
    };
    let slug = config().repo_slug();
    assert_eq!(target_repo_match(origin_repo_slug(&matching).as_deref(), &slug), Ok("true"));
    assert_eq!(target_repo_match(origin_repo_slug(&no_origin).as_deref(), &slug), Ok("unknown"));
}

#[test]
fn planner_walks_the_parent_children_in_order() {
    let cfg = config();
    let mut planner = CampaignPlanner::new(&cfg, parent_of(&[230, 228, 229]), 1000, false);
    assert_eq!(planner.next_child(), Some(230));
    planner.consider(&cfg, snapshot(230, &READY), child(230, vec![]), estimate(10));
    assert_eq!(planner.next_child(), Some(228));
    planner.skip_invalid(snapshot(228, &READY), &vec!["a".to_string(), "b".to_string()]);
    assert_eq!(planner.issues[1].detail.as_deref(), Some("a,b"));
    assert_eq!(planner.next_child(), Some(229));
    planner.consider(&cfg, snapshot(229, &READY), child(229, vec![]), estimate(10));
    assert_eq!(planner.next_child(), None);
    let numbers: Vec<u64> = planner.issues.iter().map(|i| i.snapshot.number).collect();
    assert_eq!(numbers, vec![230, 228, 229]);
}

#[test]
fn a_dependency_done_only_later_is_unsatisfied() {
    let cfg = config();
    let mut planner = CampaignPlanner::new(&cfg, parent_of(&[222, 223]), 1000, false);
    planner.consider(&cfg, snapshot(222, &READY), child(222, vec![223]), estimate(10));
    let mut closed = snapshot(223, &READY);
    closed.state = IssueState::Closed;
    let mut closed_child = child(223, vec![]);
    closed_child.state = IssueState::Closed;
    planner.consider(&cfg, closed, closed_child, estimate(10));
    assert_eq!(planner.issues[0].status, IssueStatus::Skipped);
    assert_eq!(planner.issues[0].reasons, vec!["dependency_unsatisfied".to_string()]);
    assert!(planner.done_on_github.contains(&223));
}

#[test]
fn single_child_plan_has_no_more_children_after_a_selection() {
    let cfg = config();
    let mut planner = CampaignPlanner::new(&cfg, parent_of(&[222, 223]), 10, true);
    planner.consider(&cfg, snapshot(222, &READY), child(222, vec![]), estimate(10));
    assert_eq!(planner.next_child(), None);
}

#[test]
fn child_steps_check_the_budget_before_committing() {
    assert_eq!(
        child_step_plan(true, true),
        vec![ChildStep::PrepareBranch, ChildStep::ClaimLabels, ChildStep::PlanPhase, ChildStep::Implement, ChildStep::Verify, ChildStep::MeasureDiff, ChildStep::CheckDiffBudget, ChildStep::Commit, ChildStep::PushBranch, ChildStep::OpenPullRequest]
    );
    assert_eq!(
        child_step_plan(false, false),
        vec![ChildStep::PrepareBranch, ChildStep::ClaimLabels, ChildStep::Implement, ChildStep::Verify, ChildStep::MeasureDiff, ChildStep::CheckDiffBudget, ChildStep::Commit, ChildStep::OpenPullRequest]
    );
}

#[test]
fn label_changes_follow_the_child_through_its_run() {
    let cfg = config();
    let claim = claim_labels(&cfg.labels);
    assert_eq!(claim.remove, vec![cfg.labels.ready.clone(), cfg.labels.blocked.clone(), cfg.labels.review.clone()]);
    assert_eq!(claim.add, vec![cfg.labels.running.clone()]);
    let ok = success_labels(&cfg.labels);
    assert_eq!(ok.remove, vec![cfg.labels.running.clone()]);
    assert_eq!(ok.add, vec![cfg.labels.review.clone()]);
    let failed = failure_labels(&cfg.labels);
    assert_eq!(failed.remove, vec![cfg.labels.running.clone()]);
    assert_eq!(failed.add, vec![cfg.labels.blocked.clone()]);
}

#[test]
fn an_old_branch_is_deleted_before_the_branch_is_created() {
    assert_eq!(
        branch_preparation(true),
        vec![BranchPreparation::DeleteExisting, BranchPreparation::Create]
    );
    assert_eq!(branch_preparation(false), vec![BranchPreparation::Create]);
}

#[test]
fn single_child_plan_never_skips_for_budget() {
    let cfg = config();
    let mut planner = CampaignPlanner::new(&cfg, parent_of(&[222, 223]), 5, true);
    let mut not_ready = child(222, vec![]);
    not_ready.labels = vec!["night-run".to_string()];
    planner.consider(&cfg, snapshot(222, &["night-run"]), not_ready, estimate(500));
    assert_eq!(planner.issues[0].status, IssueStatus::Skipped);
    assert_eq!(planner.issues[0].reasons, vec!["label_missing_ready".to_string()]);
    planner.consider(&cfg, snapshot(223, &READY), child(223, vec![]), estimate(500));
    assert_eq!(planner.issues[1].status, IssueStatus::Selected);
    let campaign = planner.into_campaign("true".to_string(), "runs".to_string());
    assert_eq!(campaign.estimated_total_minutes, 500);
}
