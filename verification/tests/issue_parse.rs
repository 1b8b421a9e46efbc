use nightloop::issue_parse::{
    extract_issue_numbers, normalize_heading, parse_child_issue, parse_dependencies,
    parse_parent_child_refs, parse_parent_issue, parse_sections, parse_source_refs,
    parse_verification_commands, IssueParseError,
};
use nightloop::models::{IssueSnapshot, IssueState, SourceRefKind, VerificationSource};

fn snapshot(number: u64, body: &str) -> IssueSnapshot {
    IssueSnapshot {
        number,
        title: "t".to_string(),
        body: body.to_string(),
        state: IssueState::Open,
        labels: vec!["night-run".to_string()],
        url: None,
    }
}

const CHILD_BODY: &str = "## Background\nbg\n## Goal\ngoal\n## Scope\ndocs-only\n## Out of scope\nnone\n## Source of truth\nREADME.md\n## Acceptance criteria\nworks\n## Verification\ncmd: cargo test\n## Dependencies\n#12, #13\n## Target change size\nS\n## Documentation impact\nreadme\n## Suggested model profile\nbalanced\n## Estimated execution time\n45\n## Estimation basis\ntemplate\n## Estimation confidence\nhigh\n";

#[test]
fn headings_treat_h2_and_h3_as_equivalent() {
    let sections = parse_sections(
        "## Background\none\n### Goal\ntwo\n## Verification\n```sh\ncargo test\n```\n",
    );
    assert_eq!(sections.get("background").unwrap(), "one");
    assert_eq!(sections.get("goal").unwrap(), "two");
}

#[test]
fn parent_checklist_parsing_preserves_order() {
    let section = "- [ ] #222 first\n- [x] #223 done\n- [ ] #224 depends on #223";
    let children = parse_parent_child_refs(section).unwrap();
    assert_eq!(
        children.iter().map(|item| item.number).collect::<Vec<_>>(),
        vec![222, 223, 224]
    );
    assert!(children[1].checked);
}

#[test]
fn verification_parses_cmd_and_fenced_shell() {
    let commands = parse_verification_commands(
        "cmd: cargo fmt --check\n\n```sh\ncargo test\n# ignored\ncargo clippy\n```\n",
    );
    assert_eq!(commands.len(), 3);
    assert_eq!(commands[0].source, VerificationSource::CmdLine);
    assert_eq!(commands[1].source, VerificationSource::FencedShell);
}

#[test]
fn source_refs_parse_repo_paths_absolute_and_urls() {
    let refs = parse_source_refs("README.md\n/abs/file.md\nhttps://example.com/doc").unwrap();
    assert_eq!(refs.len(), 3);
}

#[test]
fn issue_snapshot_supports_label_checks() {
    let snapshot = IssueSnapshot {
        number: 1,
        title: "t".to_string(),
        body: String::new(),
        state: IssueState::Open,
        labels: vec!["agent:ready".to_string()],
        url: None,
    };
    assert!(snapshot.has_label("agent:ready"));
}

#[test]
fn headings_are_normalized() {
    assert_eq!(normalize_heading("  Out   of Scope: "), "out of scope");
    assert_eq!(normalize_heading("Goal::"), "goal");
}

#[test]
fn source_refs_classify_each_line() {
    let refs = parse_source_refs("- README.md\n/abs/file.md\nhttps://example.com/doc\n").unwrap();
    assert!(matches!(&refs[0].kind, SourceRefKind::RepoRelative { path } if path == "README.md"));
    assert!(matches!(&refs[1].kind, SourceRefKind::Absolute { path } if path == "/abs/file.md"));
    assert!(matches!(&refs[2].kind, SourceRefKind::Url { url } if url == "https://example.com/doc"));
    assert!(matches!(
        parse_source_refs("ftp://host/file"),
        Err(IssueParseError::UnsupportedSourceUrl(u)) if u == "ftp://host/file"
    ));
}

#[test]
fn dependencies_accept_hashes_commas_and_none() {
    assert_eq!(parse_dependencies("#12, #13\n14").unwrap(), vec![12, 13, 14]);
    assert_eq!(parse_dependencies("none").unwrap(), Vec::<u64>::new());
    assert!(matches!(parse_dependencies("after #12"), Err(IssueParseError::InvalidDependencyToken(_))));
    let err = parse_dependencies("#").unwrap_err();
    assert_eq!(err.message(), "cannot parse integer from empty string");
    assert_eq!(extract_issue_numbers("see #1 and #22, not #x"), vec![1, 22]);
}

#[test]
fn child_issue_parses_every_section() {
    let child = parse_child_issue(&snapshot(5, CHILD_BODY)).unwrap();
    assert_eq!(child.number, 5);
    assert_eq!(child.goal, "goal");
    assert_eq!(child.dependencies, vec![12, 13]);
    assert_eq!(child.estimated_minutes, 45);
    assert_eq!(child.target_size.as_str(), "S");
    assert_eq!(child.docs_impact.as_str(), "readme");
    assert_eq!(child.verification.len(), 1);
    assert!(child.allows_small_diff_exception());
    assert!(child.implementation_constraints.is_none());
}

#[test]
fn child_issue_reports_the_first_missing_section() {
    let err = parse_child_issue(&snapshot(5, "## Background\nbg\n")).unwrap_err();
    assert_eq!(err.message(), "missing section: goal");
    let bad_minutes = CHILD_BODY.replace("\n45\n", "\nsoon\n");
    let err = parse_child_issue(&snapshot(5, &bad_minutes)).unwrap_err();
    assert_eq!(err.message(), "invalid digit found in string");
    let bad_size = CHILD_BODY.replace("\nS\n", "\nXXL\n");
    let err = parse_child_issue(&snapshot(5, &bad_size)).unwrap_err();
    assert_eq!(err.message(), "invalid target change size");
}

#[test]
fn parent_issue_needs_ordered_children() {
    let parent = parse_parent_issue(&snapshot(
        221,
        "## Ordered child Issues\n- [ ] #222 first child\n- [x] #223 second\n",
    ))
    .unwrap();
    assert_eq!(parent.number, 221);
    assert_eq!(parent.children.len(), 2);
    let err = parse_parent_issue(&snapshot(221, "## Summary\nnothing\n")).unwrap_err();
    assert_eq!(err.message(), "missing Ordered child Issues section");
    let err = parse_parent_issue(&snapshot(221, "## Ordered child Issues\n\n")).unwrap_err();
    assert_eq!(err.message(), "parent issue contains no child issues");
}

#[test]
fn every_parse_error_has_its_input() {
    assert!(matches!(
        parse_parent_child_refs("* #1"),
        Err(IssueParseError::InvalidChecklistLine(l)) if l == "* #1"
    ));
    let err = parse_parent_child_refs("- [ ] no number").unwrap_err();
    assert_eq!(err.message(), "missing child issue number in line: - [ ] no number");
    let bad_docs = CHILD_BODY.replace("\nreadme\n", "\nwiki\n");
    assert_eq!(
        parse_child_issue(&snapshot(5, &bad_docs)).unwrap_err().message(),
        "invalid documentation impact"
    );
    let bad_basis = CHILD_BODY.replace("\ntemplate\n", "\nguess\n");
    assert_eq!(
        parse_child_issue(&snapshot(5, &bad_basis)).unwrap_err().message(),
        "invalid estimation basis"
    );
    let bad_confidence = CHILD_BODY.replace("\nhigh\n", "\nsure\n");
    assert_eq!(
        parse_child_issue(&snapshot(5, &bad_confidence)).unwrap_err().message(),
        "invalid estimation confidence"
    );
    let huge = CHILD_BODY.replace("#12, #13", "#99999999999999999999");
    assert!(matches!(
        parse_child_issue(&snapshot(5, &huge)),
        Err(IssueParseError::InvalidDependencyNumber(_))
    ));
}

#[test]
fn child_issue_requires_a_dependencies_section() {
    let without = CHILD_BODY.replace("## Dependencies\n#12, #13\n", "");
    let err = parse_child_issue(&snapshot(5, &without)).unwrap_err();
    assert_eq!(err.message(), "missing section: dependencies");
    let blank = CHILD_BODY.replace("## Dependencies\n#12, #13\n", "## Dependencies\n\n");
    let err = parse_child_issue(&snapshot(5, &blank)).unwrap_err();
    assert_eq!(err.message(), "missing section: dependencies");
    let none = CHILD_BODY.replace("#12, #13", "none");
    assert!(parse_child_issue(&snapshot(5, &none)).unwrap().dependencies.is_empty());
}
