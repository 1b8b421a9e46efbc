use nightloop::config::{
    Agent, Config, DiffConfig, DocsConfig, EstimationConfig, GitHub, Labels, LoopConfig,
    ModelProfile, TelemetryConfig,
};
use nightloop::diff_budget::{enforce_diff_budget, parse_numstat, DiffError, DiffStat};
use nightloop::models::{
    ChildIssue, Confidence, DocsImpact, EstimationBasis, IssueState, Sections, SizeBand,
};

fn child(scope: &str) -> ChildIssue {
    ChildIssue {
        number: 1,
        title: "title".to_string(),
        body: String::new(),
        state: IssueState::Open,
        labels: Vec::new(),
        url: None,
        sections: Sections::default(),
        background: String::new(),
        goal: String::new(),
        scope: scope.to_string(),
        out_of_scope: String::new(),
        source_of_truth_raw: String::new(),
        source_of_truth: Vec::new(),
        implementation_constraints: None,
        acceptance_criteria: String::new(),
        verification_raw: String::new(),
        verification: Vec::new(),
        dependencies_raw: String::new(),
        dependencies: Vec::new(),
        target_size: SizeBand::Xs,
        docs_impact: DocsImpact::NoImpact,
        suggested_model_profile: "balanced".to_string(),
        suggested_model_override: None,
        estimated_minutes: 30,
        estimation_basis: EstimationBasis::Template,
        estimation_confidence: Confidence::Medium,
    }
}

fn config() -> Config {
    Config {
        github: GitHub {
            owner: "o".to_string(),
            repo: "r".to_string(),
            base_branch: "main".to_string(),
            request_copilot_review: false,
            copilot_reviewer: "github-copilot[bot]".to_string(),
        },
        agent: Agent {
            command: "echo agent".to_string(),
            plan_command: "echo planner".to_string(),
            working_directory: ".".to_string(),
            default_model: "gpt-5.4".to_string(),
            default_reasoning_effort: "medium".to_string(),
            model_profiles: vec![ModelProfile {
                name: "balanced".to_string(),
                model: "gpt-5.4".to_string(),
                reasoning_effort: "medium".to_string(),
                intended_for: "default".to_string(),
                max_size: "M".to_string(),
            }],
        },
        loop_cfg: LoopConfig {
            default_hours: 4,
            min_hours: 2,
            max_hours: 6,
            fallback_cycle_minutes: 40,
            fixed_overhead_minutes: 20,
            stop_on_failure: true,
            one_branch_per_child: true,
            one_pr_per_child: true,
        },
        diff: DiffConfig { min_lines: 50, max_lines: 1000, allow_doc_only_below_min: true },
        labels: Labels {
            campaign: "campaign".to_string(),
            night_run: "night-run".to_string(),
            ready: "agent:ready".to_string(),
            running: "agent:running".to_string(),
            review: "agent:review".to_string(),
            blocked: "agent:blocked".to_string(),
            done: "agent:done".to_string(),
        },
        docs: DocsConfig { required_paths: Vec::new() },
        estimation: EstimationConfig {
            default_basis: "hybrid".to_string(),
            allow_ai_assist: false,
            template_minutes_xs: 35,
            template_minutes_s: 50,
            template_minutes_m: 80,
            template_minutes_l: 120,
            dependency_penalty_minutes: 5,
            docs_penalty_readme: 5,
            docs_penalty_user_facing: 10,
            docs_penalty_architecture: 15,
        },
        telemetry: TelemetryConfig {
            history_path: ".nightloop/history.jsonl".to_string(),
            min_samples_for_local: 1,
        },
    }
}

#[test]
fn numstat_parser_sums_changed_lines() {
    let stat = parse_numstat("10\t5\tsrc/main.rs\n3\t2\tREADME.md\n").unwrap();
    assert_eq!(
        stat,
        DiffStat {
            changed_lines: 20,
            files_touched: 2
        }
    );
}

#[test]
fn below_minimum_requires_explicit_scope_marker() {
    assert!(enforce_diff_budget(
        &config(),
        &child("normal"),
        DiffStat {
            changed_lines: 20,
            files_touched: 1
        }
    )
    .is_err());
    assert!(enforce_diff_budget(
        &config(),
        &child("docs-only"),
        DiffStat {
            changed_lines: 20,
            files_touched: 1
        }
    )
    .is_ok());
}

#[test]
fn numstat_counts_binary_files_without_lines() {
    let stat = parse_numstat("-\t-\timage.png\n\n  4\t0\tsrc/lib.rs  \n").unwrap();
    assert_eq!(stat, DiffStat { changed_lines: 4, files_touched: 2 });
}

#[test]
fn numstat_refuses_short_and_non_numeric_lines() {
    assert!(matches!(parse_numstat("10\t5\n"), Err(DiffError::InvalidNumstatLine(l)) if l == "10\t5"));
    assert!(matches!(parse_numstat("x\t5\tfile\n"), Err(DiffError::InvalidCount(_))));
}

#[test]
fn diff_over_the_limits_is_refused() {
    let cfg = config();
    assert!(matches!(
        enforce_diff_budget(&cfg, &child("normal"), DiffStat { changed_lines: 1001, files_touched: 1 }),
        Err(DiffError::ExceedsGlobalMax)
    ));
    let mut wide = config();
    wide.diff.max_lines = 100_000;
    assert!(matches!(
        enforce_diff_budget(&wide, &child("normal"), DiffStat { changed_lines: 5000, files_touched: 1 }),
        Err(DiffError::ExceedsTargetSize)
    ));
    assert!(matches!(
        enforce_diff_budget(&cfg, &child("normal"), DiffStat { changed_lines: 20, files_touched: 1 }),
        Err(DiffError::BelowMinimum)
    ));
    assert!(enforce_diff_budget(&cfg, &child("normal"), DiffStat { changed_lines: 60, files_touched: 1 }).is_ok());
}

#[test]
fn numstat_totals_that_overflow_are_refused() {
    let output = "4294967295\t1\ta\n";
    assert!(matches!(parse_numstat(output), Err(DiffError::CountOverflow)));
    assert_eq!(DiffError::BelowMinimum.message(), "diff_below_minimum");
    assert_eq!(DiffError::InvalidNumstatLine("x".to_string()).message(), "invalid numstat line: x");
}
