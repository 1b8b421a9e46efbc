use nightloop::estimate::{EstimateBasis, EstimateError};

#[test]
fn invalid_cli_basis_is_rejected() {
    assert!(EstimateBasis::from_cli_str("ai").is_err());
}

#[test]
fn cli_basis_is_trimmed_and_case_blind() {
    assert_eq!(EstimateBasis::from_cli_str(" Template ").unwrap(), EstimateBasis::Template);
    assert_eq!(EstimateBasis::from_cli_str("LOCAL").unwrap(), EstimateBasis::Local);
    assert_eq!(EstimateBasis::from_cli_str("hybrid").unwrap(), EstimateBasis::Hybrid);
    assert!(matches!(
        EstimateBasis::from_cli_str("manual"),
        Err(EstimateError::InvalidBasis(v)) if v == "manual"
    ));
    assert_eq!(EstimateBasis::Hybrid.as_str(), "hybrid");
}

#[test]
fn estimate_errors_have_texts() {
    assert_eq!(EstimateError::NoModelProfile.message(), "no model profile configured");
    assert_eq!(
        EstimateError::InvalidBasis("ai".to_string()).message(),
        "invalid estimate basis: ai"
    );
}
