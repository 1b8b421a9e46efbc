use nightloop::intent_bundle::{
    EstimateMetadata, IntentBundle, ResolvedSource, ResolvedSourceRef, SourceLocation,
};
use nightloop::models::{
    ChildIssue, Confidence, DocsImpact, EstimationBasis, IssueEstimate, IssueState, ParentIssue,
    Sections, SizeBand, VerificationCommand, VerificationSource,
};
use nightloop::prompt_builder::{build_implementation_prompt, build_plan_prompt};

fn parent() -> ParentIssue {
    ParentIssue {
        number: 1,
        title: "Parent".to_string(),
        body: String::new(),
        state: IssueState::Open,
        labels: vec![],
        url: None,
        sections: Sections::default(),
        children: vec![],
    }
}

fn bundle(sources: Vec<ResolvedSource>) -> IntentBundle {
    IntentBundle {
        child: ChildIssue {
            number: 2,
            title: "Child".to_string(),
            body: String::new(),
            state: IssueState::Open,
            labels: vec![],
            url: None,
            sections: Sections::default(),
            background: "background".to_string(),
            goal: "goal".to_string(),
            scope: "scope".to_string(),
            out_of_scope: "out".to_string(),
            source_of_truth_raw: "README.md".to_string(),
            source_of_truth: vec![],
            implementation_constraints: Some("constraint".to_string()),
            acceptance_criteria: "accept".to_string(),
            verification_raw: "cmd: cargo test".to_string(),
            verification: vec![VerificationCommand {
                command: "cargo test".to_string(),
                source: VerificationSource::CmdLine,
            }],
            dependencies_raw: "none".to_string(),
            dependencies: vec![],
            target_size: SizeBand::M,
            docs_impact: DocsImpact::NoImpact,
            suggested_model_profile: "balanced".to_string(),
            suggested_model_override: None,
            estimated_minutes: 30,
            estimation_basis: EstimationBasis::Template,
            estimation_confidence: Confidence::Medium,
        },
        resolved_sources: sources,
        verification: vec![VerificationCommand {
            command: "cargo test".to_string(),
            source: VerificationSource::CmdLine,
        }],
        docs_impact: DocsImpact::NoImpact,
        target_size: SizeBand::M,
        estimate_metadata: EstimateMetadata {
            suggested_model_profile: "balanced".to_string(),
            suggested_model_override: None,
            estimated_minutes: 30,
            estimation_basis: EstimationBasis::Template,
            estimation_confidence: Confidence::Medium,
        },
    }
}

fn estimate() -> IssueEstimate {
    IssueEstimate {
        model_profile: "balanced".to_string(),
        model: "gpt-5.4".to_string(),
        reasoning_effort: "medium".to_string(),
        estimated_minutes: 40,
        recommended_hours: 2,
        basis_requested: "template".to_string(),
        basis_used: "template".to_string(),
        local_samples: 0,
        notes: vec![],
        ai_estimate: None,
    }
}

fn readme_source() -> ResolvedSource {
    ResolvedSource {
        source_ref: ResolvedSourceRef {
            raw: "README.md".to_string(),
            resolved_path: "/tmp/README.md".to_string(),
            location: SourceLocation::RepoRelative,
        },
        contents: "source body".to_string(),
        sha256: "abc".to_string(),
        truncated: false,
    }
}

#[test]
fn implementation_prompt_includes_resolved_sources_and_plan() {
    let prompt = build_implementation_prompt(
        &parent(),
        &bundle(vec![readme_source()]),
        &estimate(),
        "start",
        Some("# plan"),
    );

    assert!(prompt.contains("source body"));
    assert!(prompt.contains("sha256: abc"));
    assert!(prompt.contains("## Planner output"));
    assert!(prompt.contains("constraint"));
}

#[test]
fn implementation_prompt_is_laid_out_exactly() {
    let prompt = build_implementation_prompt(&parent(), &bundle(vec![]), &estimate(), "nightly", None);
    let expected = "Implement only the declared child issue scope.\n\
Use the resolved source-of-truth excerpts as the contract anchor.\n\
Run the declared verification commands before finishing.\n\n\
Parent issue: #1 Parent\nChild issue: #2 Child\nWorkflow: nightly\nModel profile: balanced\nEstimated minutes: 40\n\n\
## Child Contract\n### Background\nbackground\n\n### Goal\ngoal\n\n### Scope\nscope\n\n### Out of scope\nout\n\n\
### Acceptance criteria\naccept\n\n### Documentation impact\nnone\n\n### Target change size\nM\n\n\
### Implementation constraints\nconstraint\n\n## Verification\n- cargo test\n\n## Source of truth\n- none\n";
    assert_eq!(prompt, expected);
}

#[test]
fn plan_prompt_starts_with_the_template_and_closes_fences() {
    let prompt = build_plan_prompt("TEMPLATE", &parent(), &bundle(vec![readme_source()]), &estimate());
    assert!(prompt.starts_with("TEMPLATE\n\nParent issue: #1 Parent\n"));
    assert!(prompt.contains("Workflow: start\n"));
    assert!(prompt.contains("### /tmp/README.md\n- sha256: abc\n- truncated: false\n````text\nsource body\n````\n"));
    assert!(prompt.ends_with("````\n\n"));
    let with_plan = build_implementation_prompt(&parent(), &bundle(vec![]), &estimate(), "start", Some("step\n"));
    assert!(with_plan.ends_with("## Planner output\n````markdown\nstep\n````\n"));
}
