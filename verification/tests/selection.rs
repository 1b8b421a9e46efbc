use std::collections::HashSet;

use nightloop::config::{
    Agent, Config, DiffConfig, DocsConfig, EstimationConfig, GitHub, Labels, LoopConfig,
    ModelProfile, TelemetryConfig,
};
use nightloop::models::{
    ChildIssue, Confidence, DocsImpact, EstimationBasis, IssueState, Sections, SizeBand,
};
use nightloop::selection::{dependencies_satisfied, pack_issue_if_fit, static_eligibility_reasons};

fn config() -> Config {
    Config {
        github: GitHub {
            owner: "o".to_string(),
            repo: "r".to_string(),
            base_branch: "main".to_string(),
            request_copilot_review: false,
            copilot_reviewer: "github-copilot[bot]".to_string(),
        },
        agent: Agent {
            command: "echo agent".to_string(),
            plan_command: "echo planner".to_string(),
            working_directory: ".".to_string(),
            default_model: "gpt-5.4".to_string(),
            default_reasoning_effort: "medium".to_string(),
            model_profiles: vec![ModelProfile {
                name: "balanced".to_string(),
                model: "gpt-5.4".to_string(),
                reasoning_effort: "medium".to_string(),
                intended_for: "default".to_string(),
                max_size: "M".to_string(),
            }],
        },
        loop_cfg: LoopConfig {
            default_hours: 4,
            min_hours: 2,
            max_hours: 6,
            fallback_cycle_minutes: 40,
            fixed_overhead_minutes: 20,
            stop_on_failure: true,
            one_branch_per_child: true,
            one_pr_per_child: true,
        },
        diff: DiffConfig { min_lines: 50, max_lines: 1000, allow_doc_only_below_min: true },
        labels: Labels {
            campaign: "campaign".to_string(),
            night_run: "night-run".to_string(),
            ready: "agent:ready".to_string(),
            running: "agent:running".to_string(),
            review: "agent:review".to_string(),
            blocked: "agent:blocked".to_string(),
            done: "agent:done".to_string(),
        },
        docs: DocsConfig { required_paths: Vec::new() },
        estimation: EstimationConfig {
            default_basis: "hybrid".to_string(),
            allow_ai_assist: false,
            template_minutes_xs: 35,
            template_minutes_s: 50,
            template_minutes_m: 80,
            template_minutes_l: 120,
            dependency_penalty_minutes: 5,
            docs_penalty_readme: 5,
            docs_penalty_user_facing: 10,
            docs_penalty_architecture: 15,
        },
        telemetry: TelemetryConfig {
            history_path: ".nightloop/history.jsonl".to_string(),
            min_samples_for_local: 1,
        },
    }
}

fn issue(labels: &[&str], dependencies: Vec<u64>) -> ChildIssue {
    ChildIssue {
        number: 1,
        title: "title".to_string(),
        body: String::new(),
        state: IssueState::Open,
        labels: labels.iter().map(|value| value.to_string()).collect(),
        url: None,
        sections: Sections::default(),
        background: String::new(),
        goal: String::new(),
        scope: String::new(),
        out_of_scope: String::new(),
        source_of_truth_raw: String::new(),
        source_of_truth: Vec::new(),
        implementation_constraints: None,
        acceptance_criteria: String::new(),
        verification_raw: String::new(),
        verification: Vec::new(),
        dependencies_raw: String::new(),
        dependencies,
        target_size: SizeBand::M,
        docs_impact: DocsImpact::NoImpact,
        suggested_model_profile: "balanced".to_string(),
        suggested_model_override: None,
        estimated_minutes: 80,
        estimation_basis: EstimationBasis::Template,
        estimation_confidence: Confidence::Medium,
    }
}

#[test]
fn static_reasons_capture_label_gaps() {
    let reasons = static_eligibility_reasons(&config(), &issue(&["night-run"], vec![]));
    assert!(reasons.iter().any(|reason| reason == "label_missing_ready"));
}

#[test]
fn dependency_satisfaction_respects_done_and_planned_sets() {
    let child = issue(&["night-run", "agent:ready"], vec![2, 3]);
    let done = HashSet::from([2]);
    let planned = HashSet::from([3]);
    assert!(dependencies_satisfied(&child, &done, &planned));
}

#[test]
fn packing_respects_available_budget() {
    assert!(pack_issue_if_fit(60, 100, 200));
    assert!(!pack_issue_if_fit(120, 100, 200));
}

#[test]
fn static_reasons_come_in_a_fixed_order() {
    let mut cfg = config();
    cfg.diff.max_lines = 400;
    cfg.diff.min_lines = 300;
    let mut child = issue(&["agent:running", "agent:blocked", "agent:done", "agent:review"], vec![]);
    child.state = IssueState::Closed;
    assert_eq!(
        static_eligibility_reasons(&cfg, &child),
        vec![
            "issue_closed",
            "label_missing_night_run",
            "label_missing_ready",
            "label_present_running",
            "label_present_blocked",
            "label_present_done",
            "label_present_review",
            "size_band_exceeds_diff_max",
            "size_band_below_diff_min",
        ]
    );
    assert!(static_eligibility_reasons(&config(), &issue(&["night-run", "agent:ready"], vec![])).is_empty());
}

#[test]
fn unmet_dependency_is_reported() {
    let child = issue(&["night-run", "agent:ready"], vec![2, 4]);
    assert!(!dependencies_satisfied(&child, &HashSet::from([2]), &HashSet::from([3])));
    assert!(pack_issue_if_fit(100, 100, 200));
    assert!(pack_issue_if_fit(u32::MAX, u32::MAX, u32::MAX) == false);
}
