use nightloop::config::{
    Agent, Config, DiffConfig, DocsConfig, EstimationConfig, GitHub, Labels, LoopConfig,
    ModelProfile, TelemetryConfig,
};
use nightloop::docs_support::{check_docs, docs_candidates};
use nightloop::issue_lint::{lint_child_issue, lint_markdown_issue};
use nightloop::models::{DocsImpact, IssueSnapshot, IssueState, SizeBand};
use nightloop::reporting::{escape_value, render_pairs};
use nightloop::telemetry::{matching_runs, HistoryEntry};

fn config() -> Config {
    Config {
        github: GitHub {
            owner: "o".to_string(),
            repo: "r".to_string(),
            base_branch: "main".to_string(),
            request_copilot_review: false,
            copilot_reviewer: "github-copilot[bot]".to_string(),
        },
        agent: Agent {
            command: "echo agent".to_string(),
            plan_command: "echo planner".to_string(),
            working_directory: ".".to_string(),
            default_model: "gpt-5.4".to_string(),
            default_reasoning_effort: "medium".to_string(),
            model_profiles: vec![ModelProfile {
                name: "balanced".to_string(),
                model: "gpt-5.4".to_string(),
                reasoning_effort: "medium".to_string(),
                intended_for: "default".to_string(),
                max_size: "M".to_string(),
            }],
        },
        loop_cfg: LoopConfig {
            default_hours: 4,
            min_hours: 2,
            max_hours: 6,
            fallback_cycle_minutes: 40,
            fixed_overhead_minutes: 20,
            stop_on_failure: true,
            one_branch_per_child: true,
            one_pr_per_child: true,
        },
        diff: DiffConfig { min_lines: 50, max_lines: 1000, allow_doc_only_below_min: true },
        labels: Labels {
            campaign: "campaign".to_string(),
            night_run: "night-run".to_string(),
            ready: "agent:ready".to_string(),
            running: "agent:running".to_string(),
            review: "agent:review".to_string(),
            blocked: "agent:blocked".to_string(),
            done: "agent:done".to_string(),
        },
        docs: DocsConfig { required_paths: vec!["README.md".to_string(), "AGENTS.md".to_string()] },
        estimation: EstimationConfig {
            default_basis: "hybrid".to_string(),
            allow_ai_assist: false,
            template_minutes_xs: 35,
            template_minutes_s: 50,
            template_minutes_m: 80,
            template_minutes_l: 120,
            dependency_penalty_minutes: 5,
            docs_penalty_readme: 5,
            docs_penalty_user_facing: 10,
            docs_penalty_architecture: 15,
        },
        telemetry: TelemetryConfig {
            history_path: ".nightloop/history.jsonl".to_string(),
            min_samples_for_local: 1,
        },
    }
}

const FULL_ISSUE: &str = "## Background\n## Goal\n## Scope\n## Out of scope\n## Source of truth\n## Acceptance criteria\n## Verification\n## Dependencies\n## Target change size\n## Documentation impact\n## Suggested model profile\n## Estimated execution time\n## Estimation basis\n## Estimation confidence\n";

#[test]
fn markdown_lint_lists_missing_headings_in_order() {
    let report = lint_markdown_issue(FULL_ISSUE);
    assert!(report.valid);
    assert!(report.missing_sections.is_empty());
    let report = lint_markdown_issue("## Goal\n## Dependencies\n");
    assert!(!report.valid);
    assert_eq!(report.missing_sections.len(), 12);
    assert_eq!(report.missing_sections[0], "## Background");
    assert_eq!(report.missing_sections[1], "## Scope");
}

#[test]
fn child_lint_reports_the_parse_error() {
    let snapshot = IssueSnapshot {
        number: 3,
        title: "t".to_string(),
        body: "## Background\nbg\n".to_string(),
        state: IssueState::Open,
        labels: vec![],
        url: None,
    };
    let lint = lint_child_issue(&snapshot);
    assert!(!lint.valid);
    assert!(lint.child.is_none());
    assert_eq!(lint.findings, vec!["missing section: goal".to_string()]);
}

#[test]
fn docs_check_reports_missing_prompt() {
    let cfg = config();
    let candidates = docs_candidates(&cfg);
    assert_eq!(candidates.len(), 11);
    assert_eq!(candidates[0].kind, "required_path");
    assert_eq!(candidates[2].path, "docs/templates/prd.md");
    assert_eq!(candidates[10].path, "prompts/estimate_issue.md");
    let mut present = vec![true; 11];
    present[10] = false;
    let report = check_docs(&cfg, &present);
    assert!(!report.ok);
    assert_eq!(report.missing_paths.len(), 1);
    assert_eq!(report.missing_paths[0].kind, "prompt");
    assert_eq!(report.missing_paths[0].path, "prompts/estimate_issue.md");
    assert!(check_docs(&cfg, &vec![true; 11]).ok);
}

#[test]
fn telemetry_counts_matching_successes() {
    let entry = |success: bool, profile: &str, size: SizeBand, docs: DocsImpact, minutes: u32| HistoryEntry {
        success,
        model_profile: profile.to_string(),
        target_size: size,
        docs_impact: docs,
        actual_minutes: minutes,
    };
    let history = vec![
        entry(true, "Balanced", SizeBand::M, DocsImpact::NoImpact, 90),
        entry(false, "balanced", SizeBand::M, DocsImpact::NoImpact, 10),
        entry(true, "balanced", SizeBand::S, DocsImpact::NoImpact, 20),
        entry(true, "balanced", SizeBand::M, DocsImpact::Readme, 30),
        entry(true, "balanced", SizeBand::M, DocsImpact::NoImpact, 70),
    ];
    let runs = matching_runs(&history, "balanced", SizeBand::M, DocsImpact::NoImpact);
    assert_eq!(runs.samples, 2);
    assert_eq!(runs.total_minutes, 160);
    let none = matching_runs(&Vec::new(), "balanced", SizeBand::M, DocsImpact::NoImpact);
    assert_eq!(none.samples, 0);
}

#[test]
fn one_recorded_run_is_one_sample_of_its_minutes() {
    let history = vec![HistoryEntry {
        success: true,
        model_profile: "balanced".to_string(),
        target_size: SizeBand::S,
        docs_impact: DocsImpact::Readme,
        actual_minutes: 90,
    }];
    let runs = matching_runs(&history, "balanced", SizeBand::S, DocsImpact::Readme);
    assert_eq!(runs.samples, 1);
    assert_eq!(runs.total_minutes, 90);
}

#[test]
fn report_values_are_escaped_and_quoted() {
    assert_eq!(escape_value("plain"), "plain");
    assert_eq!(escape_value("two words"), "\"two words\"");
    assert_eq!(escape_value("line\nbreak"), "line\\nbreak");
    assert_eq!(escape_value("say \"hi\""), "\"say \\\"hi\\\"\"");
    assert_eq!(escape_value("back\\slash"), "back\\\\slash");
    assert!(!escape_value("a\r\nb c").contains('\n'));
    assert_eq!(escape_value("a b"), "\"a b\"");
}

#[test]
fn markdown_lint_of_an_empty_body_lists_every_heading() {
    let report = lint_markdown_issue("");
    assert!(!report.valid);
    assert_eq!(report.missing_sections.len(), 14);
    assert_eq!(report.missing_sections[13], "## Estimation confidence");
    let without_confidence = FULL_ISSUE.replace("## Estimation confidence\n", "");
    let report = lint_markdown_issue(&without_confidence);
    assert_eq!(report.missing_sections, vec!["## Estimation confidence".to_string()]);
}

fn unescape(value: &str) -> String {
    let inner = if value.starts_with('"') { &value[1..value.len() - 1] } else { value };
    let mut out = String::new();
    let mut chars = inner.chars();
    while let Some(c) = chars.next() {
        if c == '\\' {
            match chars.next() {
                Some('n') => out.push('\n'),
                Some('r') => out.push('\r'),
                Some(other) => out.push(other),
                None => out.push('\\'),
            }
        } else {
            out.push(c);
        }
    }
    out
}

#[test]
fn escaped_values_unescape_to_the_original() {
    for value in ["plain", "a b", "line\nbreak", "cr\r", "say \"hi\"", "back\\slash", "", "\t tab"] {
        assert_eq!(unescape(&escape_value(value)), value);
    }
    let line = render_pairs(&vec![
        ("ok".to_string(), "true".to_string()),
        ("error".to_string(), "bad thing".to_string()),
    ]);
    assert_eq!(line, "ok=true error=\"bad thing\"");
}
