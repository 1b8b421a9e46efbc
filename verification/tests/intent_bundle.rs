use nightloop::intent_bundle::{
    build_intent_bundle, lower_hex_string, sha256_hex, source_location, BundleError,
    ResolvedSourceRef, SourceBytes, SourceLocation, MAX_SOURCE_BYTES_PER_FILE,
    MAX_SOURCE_BYTES_TOTAL,
};
use nightloop::models::{
    ChildIssue, Confidence, DocsImpact, EstimationBasis, IssueState, Sections, SizeBand,
    SourceRefKind, VerificationCommand, VerificationSource,
};

fn child() -> ChildIssue {
    ChildIssue {
        number: 1,
        title: "title".to_string(),
        body: "body".to_string(),
        state: IssueState::Open,
        labels: vec![],
        url: None,
        sections: Sections::default(),
        background: "background".to_string(),
        goal: "goal".to_string(),
        scope: "scope".to_string(),
        out_of_scope: "out".to_string(),
        source_of_truth_raw: "README.md".to_string(),
        source_of_truth: vec![],
        implementation_constraints: None,
        acceptance_criteria: "acceptance".to_string(),
        verification_raw: "cmd: cargo test".to_string(),
        verification: vec![VerificationCommand {
            command: "cargo test".to_string(),
            source: VerificationSource::CmdLine,
        }],
        dependencies_raw: "none".to_string(),
        dependencies: vec![],
        target_size: SizeBand::M,
        docs_impact: DocsImpact::Readme,
        suggested_model_profile: "balanced".to_string(),
        suggested_model_override: Some("gpt-x".to_string()),
        estimated_minutes: 30,
        estimation_basis: EstimationBasis::Template,
        estimation_confidence: Confidence::Medium,
    }
}

fn source(path: &str, bytes: Vec<u8>) -> SourceBytes {
    SourceBytes {
        source_ref: ResolvedSourceRef {
            raw: path.to_string(),
            resolved_path: format!("/repo/{path}"),
            location: SourceLocation::RepoRelative,
        },
        bytes,
    }
}

#[test]
fn sha256_is_lowercase_hex_of_the_digest() {
    assert_eq!(
        sha256_hex(b"abc"),
        "ba7816bf8f01cfea414140de5dae2223b00361a396177a9cb410ff61f20015ad"
    );
    assert_eq!(sha256_hex(b"").len(), 64);
    assert_eq!(lower_hex_string(&[0x0a, 0x14, 0x1e, 0xff]), "0a141eff");
}

#[test]
fn bundle_truncates_each_file_and_the_total() {
    let big = vec![b'a'; MAX_SOURCE_BYTES_PER_FILE + 1024];
    let sources = vec![
        source("README.md", big.clone()),
        source("A.md", big.clone()),
        source("B.md", big.clone()),
        source("C.md", big.clone()),
        source("D.md", b"tail".to_vec()),
    ];
    let bundle = build_intent_bundle(child(), sources);
    assert_eq!(bundle.resolved_sources.len(), 5);
    for s in &bundle.resolved_sources[..4] {
        assert!(s.truncated);
        assert_eq!(s.contents.len(), MAX_SOURCE_BYTES_PER_FILE);
        assert_eq!(s.sha256.len(), 64);
    }
    assert_eq!(4 * MAX_SOURCE_BYTES_PER_FILE, MAX_SOURCE_BYTES_TOTAL);
    assert!(bundle.resolved_sources[4].truncated);
    assert_eq!(bundle.resolved_sources[4].contents, "");
    assert_eq!(bundle.resolved_sources[0].source_ref.resolved_path, "/repo/README.md");
    assert_eq!(bundle.verification.len(), 1);
    assert_eq!(bundle.docs_impact, DocsImpact::Readme);
    assert_eq!(bundle.estimate_metadata.suggested_model_override.as_deref(), Some("gpt-x"));
    assert_eq!(bundle.child.number, 1);
}

#[test]
fn small_files_are_kept_whole_and_invalid_utf8_is_replaced() {
    let bundle = build_intent_bundle(child(), vec![source("x.md", vec![b'o', b'k', 0xff])]);
    let s = &bundle.resolved_sources[0];
    assert!(!s.truncated);
    assert_eq!(s.contents, "ok\u{fffd}");
}

#[test]
fn urls_cannot_be_bundled() {
    let err = source_location(&SourceRefKind::Url { url: "https://x".to_string() }).unwrap_err();
    assert!(matches!(&err, BundleError::UnsupportedUrl(u) if u == "https://x"));
    assert_eq!(err.message(), "unsupported source-of-truth URL: https://x");
    let (path, location) =
        source_location(&SourceRefKind::Absolute { path: "/abs.md".to_string() }).unwrap();
    assert_eq!(path, "/abs.md");
    assert_eq!(location, SourceLocation::Absolute);
}

#[test]
fn resolves_sources_and_tracks_truncation() {
    let content = vec![b'a'; MAX_SOURCE_BYTES_PER_FILE + 1024];
    let bundle = build_intent_bundle(child(), vec![source("README.md", content)]);
    assert_eq!(bundle.resolved_sources.len(), 1);
    assert!(bundle.resolved_sources[0].truncated);
    assert_eq!(bundle.resolved_sources[0].contents.len(), MAX_SOURCE_BYTES_PER_FILE);
    assert_eq!(bundle.resolved_sources[0].sha256.len(), 64);
    assert_eq!(bundle.verification.len(), 1);
}

#[test]
fn ascii_excerpts_have_one_character_per_byte_kept() {
    let bundle = build_intent_bundle(
        child(),
        vec![source("a.md", vec![b'a'; 40_000]), source("b.md", b"short".to_vec())],
    );
    assert_eq!(bundle.resolved_sources[0].contents.len(), 32 * 1024);
    assert!(bundle.resolved_sources[0].truncated);
    assert_eq!(bundle.resolved_sources[1].contents, "short");
    assert!(!bundle.resolved_sources[1].truncated);
    assert_eq!(bundle.resolved_sources[1].sha256.len(), 64);
}
