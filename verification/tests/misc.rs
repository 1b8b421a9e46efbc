use nightloop::config::{
    Agent, Config, DiffConfig, DocsConfig, EstimationConfig, GitHub, Labels, LoopConfig,
    ModelProfile, TelemetryConfig,
};
use nightloop::estimate::{
    choose_model_profile, estimate_child_issue, template_base_minutes, EstimateBasis,
    LocalEstimates,
};
use nightloop::models::{
    ChildIssue, Confidence, DocsImpact, EstimationBasis, IssueState, Sections, SizeBand,
};
use nightloop::numbers::{parse_u64_chars, u64_to_string};
use nightloop::text::{chars_of, join_strings, trim_str};

fn config() -> Config {
    Config {
        github: GitHub {
            owner: "o".to_string(),
            repo: "r".to_string(),
            base_branch: "main".to_string(),
            request_copilot_review: false,
            copilot_reviewer: "github-copilot[bot]".to_string(),
        },
        agent: Agent {
            command: "echo agent".to_string(),
            plan_command: "echo planner".to_string(),
            working_directory: ".".to_string(),
            default_model: "gpt-5.4".to_string(),
            default_reasoning_effort: "medium".to_string(),
            model_profiles: vec![ModelProfile {
                name: "balanced".to_string(),
                model: "gpt-5.4".to_string(),
                reasoning_effort: "medium".to_string(),
                intended_for: "default".to_string(),
                max_size: "M".to_string(),
            }],
        },
        loop_cfg: LoopConfig {
            default_hours: 4,
            min_hours: 2,
            max_hours: 6,
            fallback_cycle_minutes: 40,
            fixed_overhead_minutes: 20,
            stop_on_failure: true,
            one_branch_per_child: true,
            one_pr_per_child: true,
        },
        diff: DiffConfig { min_lines: 50, max_lines: 1000, allow_doc_only_below_min: true },
        labels: Labels {
            campaign: "campaign".to_string(),
            night_run: "night-run".to_string(),
            ready: "agent:ready".to_string(),
            running: "agent:running".to_string(),
            review: "agent:review".to_string(),
            blocked: "agent:blocked".to_string(),
            done: "agent:done".to_string(),
        },
        docs: DocsConfig { required_paths: Vec::new() },
        estimation: EstimationConfig {
            default_basis: "hybrid".to_string(),
            allow_ai_assist: false,
            template_minutes_xs: 35,
            template_minutes_s: 50,
            template_minutes_m: 80,
            template_minutes_l: 120,
            dependency_penalty_minutes: 5,
            docs_penalty_readme: 5,
            docs_penalty_user_facing: 10,
            docs_penalty_architecture: 15,
        },
        telemetry: TelemetryConfig {
            history_path: ".nightloop/history.jsonl".to_string(),
            min_samples_for_local: 1,
        },
    }
}

fn child() -> ChildIssue {
    ChildIssue {
        number: 1,
        title: "title".to_string(),
        body: String::new(),
        state: IssueState::Open,
        labels: vec![],
        url: None,
        sections: Sections::default(),
        background: String::new(),
        goal: String::new(),
        scope: String::new(),
        out_of_scope: String::new(),
        source_of_truth_raw: String::new(),
        source_of_truth: Vec::new(),
        implementation_constraints: None,
        acceptance_criteria: String::new(),
        verification_raw: String::new(),
        verification: Vec::new(),
        dependencies_raw: String::new(),
        dependencies: vec![7],
        target_size: SizeBand::M,
        docs_impact: DocsImpact::Readme,
        suggested_model_profile: "unknown".to_string(),
        suggested_model_override: None,
        estimated_minutes: 30,
        estimation_basis: EstimationBasis::Template,
        estimation_confidence: Confidence::Medium,
    }
}

#[test]
fn template_minutes_add_size_docs_and_dependencies() {
    let cfg = config();
    assert_eq!(template_base_minutes(&cfg, &SizeBand::M, &DocsImpact::Readme, 1), Some(90));
    assert_eq!(template_base_minutes(&cfg, &SizeBand::Xs, &DocsImpact::NoImpact, 0), Some(35));
    let mut huge = config();
    huge.estimation.template_minutes_l = u32::MAX;
    assert_eq!(template_base_minutes(&huge, &SizeBand::L, &DocsImpact::Readme, 0), None);
}

#[test]
fn estimate_falls_back_to_the_template_without_history() {
    let cfg = config();
    let profile = choose_model_profile(&cfg, "unknown").unwrap();
    assert_eq!(profile, 0);
    let none = LocalEstimates { samples: 0, local_minutes: 0, hybrid_minutes: 0 };
    let e = estimate_child_issue(&cfg, &child(), EstimateBasis::Hybrid, profile, 90, none);
    assert_eq!(e.basis_used, "template-fallback");
    assert_eq!(e.estimated_minutes, 90);
    assert_eq!(e.recommended_hours, 2);
    assert_eq!(e.model, "gpt-5.4");
    assert_eq!(e.basis_requested, "hybrid");
    let some = LocalEstimates { samples: 3, local_minutes: 200, hybrid_minutes: 150 };
    let e = estimate_child_issue(&cfg, &child(), EstimateBasis::Local, profile, 90, some);
    assert_eq!(e.basis_used, "local");
    assert_eq!(e.estimated_minutes, 200);
    assert_eq!(e.recommended_hours, 4);
    let e = estimate_child_issue(&cfg, &child(), EstimateBasis::Template, profile, 90, some);
    assert_eq!(e.basis_used, "template");
    assert_eq!(e.local_samples, 3);
}

#[test]
fn text_helpers_match_std() {
    assert_eq!(trim_str("  a b \n"), "a b");
    assert_eq!(chars_of("héllo"), "héllo".chars().collect::<Vec<_>>());
    assert_eq!(join_strings(&vec!["a".to_string(), "b".to_string()], ", "), "a, b");
    assert_eq!(join_strings(&Vec::new(), ","), "");
    assert_eq!(u64_to_string(0), "0");
    assert_eq!(u64_to_string(u64::MAX), u64::MAX.to_string());
    assert_eq!(parse_u64_chars(&chars_of("+42")), Some(42));
    assert_eq!(parse_u64_chars(&chars_of("18446744073709551616")), None);
    assert_eq!(parse_u64_chars(&chars_of("")), None);
}

#[test]
fn size_and_docs_names_round_trip() {
    for band in [SizeBand::Xs, SizeBand::S, SizeBand::M, SizeBand::L] {
        assert_eq!(SizeBand::from_text(band.as_str()), Some(band));
    }
    for docs in [DocsImpact::NoImpact, DocsImpact::Readme, DocsImpact::UserFacingDocs, DocsImpact::ArchitectureDocs] {
        assert_eq!(DocsImpact::from_text(docs.as_str()), Some(docs));
    }
    assert_eq!(SizeBand::from_text(" xs "), Some(SizeBand::Xs));
    assert_eq!(SizeBand::from_text(" xs (50-120) "), Some(SizeBand::Xs));
    assert_eq!(SizeBand::from_text("m (250-500)"), Some(SizeBand::M));
    assert_eq!(SizeBand::from_text("XL"), None);
    for band in [SizeBand::Xs, SizeBand::S, SizeBand::M, SizeBand::L] {
        let text = format!(" {} ({}-{}) ", band.as_str().to_lowercase(), band.min_lines(), band.max_lines());
        assert_eq!(SizeBand::from_text(&text), Some(band));
    }
    assert_eq!(SizeBand::L.max_lines(), 1000);
    assert_eq!(SizeBand::S.min_lines(), 120);
}

#[test]
fn config_reads_profiles_and_slug() {
    let cfg = config();
    assert_eq!(cfg.repo_slug(), "o/r");
    assert_eq!(cfg.model_profile("BALANCED").map(|p| p.model.as_str()), Some("gpt-5.4"));
    assert!(cfg.model_profile("fast").is_none());
    assert_eq!(cfg.default_profile().map(|p| p.name.as_str()), Some("balanced"));
    assert_eq!(cfg.working_directory(), ".");
}

#[test]
fn template_and_local_estimates_behave_as_expected() {
    let mut cfg = config();
    cfg.telemetry.min_samples_for_local = 2;
    let mut c = child();
    c.dependencies = vec![];
    c.suggested_model_profile = "balanced".to_string();
    let profile = choose_model_profile(&cfg, &c.suggested_model_profile).unwrap();
    let template = template_base_minutes(&cfg, &c.target_size, &c.docs_impact, c.dependencies.len()).unwrap();
    let none = LocalEstimates { samples: 0, local_minutes: 0, hybrid_minutes: 0 };
    let report = estimate_child_issue(&cfg, &c, EstimateBasis::Template, profile, template, none);
    assert_eq!(report.estimated_minutes, 85);
    let hybrid = estimate_child_issue(&cfg, &c, EstimateBasis::Hybrid, profile, template, none);
    assert_eq!(hybrid.basis_used, "template-fallback");
}

#[test]
fn estimation_basis_names_round_trip() {
    for basis in [EstimationBasis::Template, EstimationBasis::Local, EstimationBasis::Hybrid, EstimationBasis::Ai, EstimationBasis::Manual] {
        assert_eq!(EstimationBasis::from_text(basis.as_str()), Some(basis));
    }
    assert_eq!(EstimationBasis::from_text(" Manual "), Some(EstimationBasis::Manual));
    assert_eq!(EstimationBasis::from_text("AI"), Some(EstimationBasis::Ai));
    assert_eq!(EstimationBasis::from_text("guess"), None);
}
