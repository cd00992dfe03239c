use parallaxis::protocol::output_mode;
use parallaxis::tagger::{tag, to_segment, OutputMode};
use parallaxis::types::{Confidence, FloatBits, Ratio, RelationId, SourceKind, SourceRef};
use parallaxis::verification::{ResolutionMethod, VerificationResult, VerificationStatus, VerifiedClaim};

fn percent(d: FloatBits) -> String {
    format!("{:.1}", f64::from_bits(d.0) * 100.0)
}

fn ibge() -> SourceRef {
    SourceRef {
        kind: SourceKind::Official,
        name: "IBGE".to_string(),
        locator: "https://ibge.gov.br".to_string(),
        date: Some(1),
    }
}

fn verified(status: VerificationStatus) -> VerifiedClaim {
    VerifiedClaim {
        original_text: "claim".to_string(),
        span_start: 0,
        span_end: 5,
        status,
        resolution_method: ResolutionMethod::DirectLookup,
    }
}

#[test]
fn confirmed_segment_cites_source() {
    let s = to_segment(
        &verified(VerificationStatus::Confirmed {
            source: ibge(),
            confidence: Confidence::Verified,
            vault_relation: RelationId(1),
        }),
        OutputMode::Simple,
        &percent,
    );
    assert_eq!(s.text, "claim");
    assert_eq!(s.status, "confirmed (Verified)");
    assert_eq!(s.source.as_deref(), Some("IBGE (https://ibge.gov.br)"));
    assert!(s.explanation.is_none());
    assert!(s.vault_value.is_none());
}

#[test]
fn imprecise_segment_writes_percent() {
    let st = VerificationStatus::Imprecise {
        claim_value: "205000000".to_string(),
        vault_value: "203100000".to_string(),
        deviation: FloatBits(0.00935f64.to_bits()),
        source: ibge(),
    };
    let s = to_segment(&verified(st), OutputMode::Explain, &percent);
    assert_eq!(s.status, "imprecise (deviation: 0.9%)");
    assert_eq!(s.explanation.as_deref(), Some("Claim: 205000000, Vault: 203100000"));
    assert_eq!(s.vault_value.as_deref(), Some("203100000"));
}

#[test]
fn divergent_segment_warns_in_both_modes() {
    let st = || VerificationStatus::Divergent {
        claim_value: "215000000".to_string(),
        vault_value: "203100000".to_string(),
        vault_source_date: "timestamp:1659312000".to_string(),
        age_warning: "⚠️ Vault data is over 1 year old".to_string(),
    };
    let simple = to_segment(&verified(st()), OutputMode::Simple, &percent);
    assert_eq!(simple.status, "divergent");
    assert!(simple.source.is_none());
    assert_eq!(simple.explanation.as_deref(), Some("⚠️ Vault data is over 1 year old"));
    let explain = to_segment(&verified(st()), OutputMode::Explain, &percent);
    assert_eq!(
        explain.explanation.as_deref(),
        Some("Claim: 215000000, Vault: 203100000 (from timestamp:1659312000). ⚠️ Vault data is over 1 year old")
    );
}

#[test]
fn other_segments() {
    let c = to_segment(
        &verified(VerificationStatus::Conditional { conditions: vec!["at sea level".to_string(), "1 atm".to_string()], source: ibge() }),
        OutputMode::Explain,
        &percent,
    );
    assert_eq!(c.status, "conditional");
    assert_eq!(c.explanation.as_deref(), Some("Valid if: at sea level, 1 atm"));
    let o = to_segment(
        &verified(VerificationStatus::Outdated { was_true_until: "2019".to_string(), current_value: "X".to_string(), source: ibge() }),
        OutputMode::Explain,
        &percent,
    );
    assert_eq!(o.explanation.as_deref(), Some("Was true until 2019. Current: X"));
    assert_eq!(o.vault_value.as_deref(), Some("X"));
    let d = to_segment(
        &verified(VerificationStatus::Debunked { debunk_explanation: "no".to_string(), sources: vec![ibge(), ibge()] }),
        OutputMode::Simple,
        &percent,
    );
    assert_eq!(d.status, "debunked");
    assert_eq!(d.source.as_deref(), Some("IBGE (https://ibge.gov.br); IBGE (https://ibge.gov.br)"));
    assert!(d.explanation.is_none());
    let u = to_segment(&verified(VerificationStatus::Unverifiable), OutputMode::Explain, &percent);
    assert_eq!(u.status, "unverifiable");
    let p = to_segment(&verified(VerificationStatus::Opinion), OutputMode::Explain, &percent);
    assert_eq!(p.status, "opinion");
    let x = to_segment(
        &verified(VerificationStatus::Contradicted { vault_value: "Tokyo".to_string(), source: ibge(), explanation: Some("why".to_string()) }),
        OutputMode::Simple,
        &percent,
    );
    assert_eq!(x.status, "contradicted");
    assert!(x.explanation.is_none());
    assert_eq!(x.vault_value.as_deref(), Some("Tokyo"));
}

#[test]
fn tag_keeps_order_and_metrics() {
    let claims = vec![
        verified(VerificationStatus::Unverifiable),
        verified(VerificationStatus::Opinion),
    ];
    let (score, coverage) = VerificationResult::compute_metrics(&claims);
    let result = VerificationResult {
        original_text: "text".to_string(),
        claims,
        score,
        coverage,
        vault_version: "v".to_string(),
        verified_at: 0,
        disclaimer: "d".to_string(),
    };
    let out = tag(&result, OutputMode::Simple, &percent);
    assert_eq!(out.segments.len(), 2);
    assert_eq!(out.segments[0].status, "unverifiable");
    assert_eq!(out.segments[1].status, "opinion");
    assert_eq!(out.score, Ratio { num: 0, den: 1 });
    assert_eq!(out.coverage, Ratio { num: 0, den: 2 });
    assert_eq!(out.vault_version, "v");
}

#[test]
fn output_mode_from_request() {
    assert_eq!(output_mode(Some("explain")), OutputMode::Explain);
    assert_eq!(output_mode(Some("Explain")), OutputMode::Simple);
    assert_eq!(output_mode(None), OutputMode::Simple);
}
