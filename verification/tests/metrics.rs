use parallaxis::types::{Confidence, Ratio, RelationId, SourceKind, SourceRef};
use parallaxis::verification::{ResolutionMethod, VerificationResult, VerificationStatus, VerifiedClaim};

fn src() -> SourceRef {
    SourceRef { kind: SourceKind::Derived, name: "s".to_string(), locator: "l".to_string(), date: None }
}

fn vc(status: VerificationStatus) -> VerifiedClaim {
    VerifiedClaim {
        original_text: String::new(),
        span_start: 0,
        span_end: 0,
        status,
        resolution_method: ResolutionMethod::NotFound,
    }
}

fn confirmed() -> VerificationStatus {
    VerificationStatus::Confirmed { source: src(), confidence: Confidence::Verified, vault_relation: RelationId(1) }
}

#[test]
fn no_claims_score_one_cover_nothing() {
    let (score, coverage) = VerificationResult::compute_metrics(&[]);
    assert_eq!(score, Ratio { num: 1, den: 1 });
    assert_eq!(coverage, Ratio { num: 0, den: 1 });
}

#[test]
fn all_confirmed_scores_one() {
    let (score, coverage) = VerificationResult::compute_metrics(&[vc(confirmed()), vc(confirmed())]);
    assert_eq!(score, Ratio { num: 20, den: 20 });
    assert_eq!(coverage, Ratio { num: 2, den: 2 });
}

#[test]
fn weighted_score() {
    let claims = vec![
        vc(confirmed()),
        vc(VerificationStatus::Imprecise {
            claim_value: "1".to_string(),
            vault_value: "1".to_string(),
            deviation: parallaxis::types::FloatBits(0),
            source: src(),
        }),
        vc(VerificationStatus::Contradicted { vault_value: "x".to_string(), source: src(), explanation: None }),
        vc(VerificationStatus::Divergent {
            claim_value: String::new(),
            vault_value: String::new(),
            vault_source_date: String::new(),
            age_warning: String::new(),
        }),
        vc(VerificationStatus::Unverifiable),
    ];
    let (score, coverage) = VerificationResult::compute_metrics(&claims);
    // (10 + 8 + 0 + 5) tenths over 4 verifiable claims.
    assert_eq!(score, Ratio { num: 23, den: 40 });
    assert_eq!(coverage, Ratio { num: 4, den: 5 });
}

#[test]
fn unverifiable_claim_keeps_score_lowers_coverage() {
    let (s1, c1) = VerificationResult::compute_metrics(&[vc(confirmed())]);
    let (s2, c2) = VerificationResult::compute_metrics(&[vc(confirmed()), vc(VerificationStatus::Opinion)]);
    assert_eq!(s1, s2);
    assert_eq!(c1, Ratio { num: 1, den: 1 });
    assert_eq!(c2, Ratio { num: 1, den: 2 });
}

#[test]
fn only_unverifiable_scores_zero() {
    let (score, coverage) = VerificationResult::compute_metrics(&[vc(VerificationStatus::Unverifiable)]);
    assert_eq!(score, Ratio { num: 0, den: 1 });
    assert_eq!(coverage, Ratio { num: 0, den: 1 });
}
