//! Verification results: the verdict on each claim, and the overall score.

use vstd::prelude::*;
use crate::types::{Confidence, FloatBits, Ratio, RelationId, SourceRef};

verus! {

/// Verification status of a single claim. Not binary: real facts have
/// nuance.
#[derive(Debug)]
pub enum VerificationStatus {
    /// The vault confirms the claim; the source is traceable.
    Confirmed { source: SourceRef, confidence: Confidence, vault_relation: RelationId },
    /// The vault explicitly contradicts the claim.
    Contradicted { vault_value: String, source: SourceRef, explanation: Option<String> },
    /// The value is close but not exact (within the tolerance); the deviation
    /// is relative.
    Imprecise {
        claim_value: String,
        vault_value: String,
        deviation: FloatBits,
        source: SourceRef,
    },
    /// True under specific conditions that the claim omitted.
    Conditional { conditions: Vec<String>, source: SourceRef },
    /// Was true, but the vault has newer data.
    Outdated { was_true_until: String, current_value: String, source: SourceRef },
    /// Correct but missing important context.
    Oversimplified { nuance: String, source: SourceRef },
    /// Values differ, but the vault's data may be outdated too. Never
    /// "contradicted" when the vault's data is old.
    Divergent {
        claim_value: String,
        vault_value: String,
        vault_source_date: String,
        age_warning: String,
    },
    /// Famously false claim with an explicit debunk.
    Debunked { debunk_explanation: String, sources: Vec<SourceRef> },
    /// The vault has no data on this: unknown, not false.
    Unverifiable,
    /// Subjective statement, not factually verifiable.
    Opinion,
}

/// A verified claim: the main output of the verifier.
#[derive(Debug)]
pub struct VerifiedClaim {
    /// The claim's text.
    pub original_text: String,
    /// Position of the claim in the analyzed text.
    pub span_start: usize,
    pub span_end: usize,
    /// The verdict.
    pub status: VerificationStatus,
    /// How the verdict was reached.
    pub resolution_method: ResolutionMethod,
}

#[derive(Debug)]
pub enum ResolutionMethod {
    /// Direct triple match in the vault.
    DirectLookup,
    /// Inferred through a chain of relations.
    Inference { hops: u8, chain: Vec<RelationId> },
    /// Matched from cache.
    Cached,
    /// Could not resolve.
    NotFound,
}

/// The verification of a whole text.
#[derive(Debug)]
pub struct VerificationResult {
    /// The verified text.
    pub original_text: String,
    /// Per-claim results.
    pub claims: Vec<VerifiedClaim>,
    /// Overall confidence score (0 to 1).
    pub score: Ratio,
    /// Share of the claims that the vault could verify (0 to 1).
    pub coverage: Ratio,
    /// Vault version used.
    pub vault_version: String,
    /// Unix time of the verification.
    pub verified_at: i64,
    /// Disclaimer (always present).
    pub disclaimer: String,
}

/// Whether a status counts as verifiable (the vault had something to say).
pub open spec fn is_verifiable(s: VerificationStatus) -> bool {
    !(s is Unverifiable || s is Opinion)
}

/// How much a status counts towards the score, in tenths of a confirmation.
pub open spec fn weight_tenths(s: VerificationStatus) -> nat {
    match s {
        VerificationStatus::Confirmed { .. } => 10,
        VerificationStatus::Imprecise { .. } => 8,
        VerificationStatus::Conditional { .. } => 7,
        VerificationStatus::Oversimplified { .. } => 6,
        VerificationStatus::Contradicted { .. } => 0,
        VerificationStatus::Debunked { .. } => 0,
        VerificationStatus::Outdated { .. } => 3,
        VerificationStatus::Divergent { .. } => 5,
        VerificationStatus::Unverifiable => 0,
        VerificationStatus::Opinion => 0,
    }
}

/// The summed weight, in tenths, of `claims`.
pub open spec fn total_tenths(claims: Seq<VerifiedClaim>) -> nat
    decreases claims.len(),
{
    if claims.len() == 0 {
        0
    } else {
        total_tenths(claims.drop_last()) + weight_tenths(claims.last().status)
    }
}

/// The number of verifiable claims among `claims`.
pub open spec fn verifiable_count(claims: Seq<VerifiedClaim>) -> nat
    decreases claims.len(),
{
    if claims.len() == 0 {
        0
    } else {
        verifiable_count(claims.drop_last()) + if is_verifiable(claims.last().status) {
            1nat
        } else {
            0nat
        }
    }
}

/// The score of `claims`: 1 for no claims; otherwise the weighted share of
/// confirmation among the verifiable claims (0 when there is none).
pub open spec fn score_of(claims: Seq<VerifiedClaim>) -> (nat, nat) {
    if claims.len() == 0 {
        (1, 1)
    } else if verifiable_count(claims) == 0 {
        (0, 1)
    } else {
        (total_tenths(claims), 10 * verifiable_count(claims))
    }
}

/// The coverage of `claims`: 0 for no claims; otherwise the share of
/// verifiable claims.
pub open spec fn coverage_of(claims: Seq<VerifiedClaim>) -> (nat, nat) {
    if claims.len() == 0 {
        (0, 1)
    } else {
        (verifiable_count(claims), claims.len())
    }
}

/// The value of a ratio.
pub open spec fn ratio_is(r: Ratio, v: (nat, nat)) -> bool {
    r.num == v.0 && r.den == v.1
}

proof fn lemma_counts_bound(claims: Seq<VerifiedClaim>)
    ensures
        verifiable_count(claims) <= claims.len(),
        total_tenths(claims) <= 10 * verifiable_count(claims),
    decreases claims.len(),
{
    if claims.len() > 0 {
        lemma_counts_bound(claims.drop_last());
    }
}

/// The largest number of claims whose metrics fit the ratio's integers.
pub const METRICS_CLAIM_LIMIT: u64 = 0x0fff_ffff_ffff_ffffu64;

impl VerificationResult {
    /// Score and coverage of `claims`, as exact fractions.
    pub fn compute_metrics(claims: &[VerifiedClaim]) -> (r: (Ratio, Ratio))
        requires
            claims@.len() <= METRICS_CLAIM_LIMIT,
        ensures
            ratio_is(r.0, score_of(claims@)),
            ratio_is(r.1, coverage_of(claims@)),
    {
        if claims.len() == 0 {
            return (Ratio { num: 1, den: 1 }, Ratio { num: 0, den: 1 });
        }
        let mut tenths: u64 = 0;
        let mut verifiable: u64 = 0;
        let mut i: usize = 0;
        while i < claims.len()
            invariant
                claims@.len() <= METRICS_CLAIM_LIMIT,
                i <= claims@.len(),
                tenths == total_tenths(claims@.take(i as int)),
                verifiable == verifiable_count(claims@.take(i as int)),
            decreases claims@.len() - i,
        {
            proof {
                lemma_counts_bound(claims@.take(i as int));
                assert(claims@.take(i + 1).drop_last() =~= claims@.take(i as int));
            }
            match &claims[i].status {
                VerificationStatus::Confirmed { .. } => {
                    tenths = tenths + 10;
                    verifiable = verifiable + 1;
                },
                VerificationStatus::Imprecise { .. } => {
                    tenths = tenths + 8;
                    verifiable = verifiable + 1;
                },
                VerificationStatus::Conditional { .. } => {
                    tenths = tenths + 7;
                    verifiable = verifiable + 1;
                },
                VerificationStatus::Oversimplified { .. } => {
                    tenths = tenths + 6;
                    verifiable = verifiable + 1;
                },
                VerificationStatus::Contradicted { .. } => {
                    verifiable = verifiable + 1;
                },
                VerificationStatus::Debunked { .. } => {
                    verifiable = verifiable + 1;
                },
                VerificationStatus::Outdated { .. } => {
                    tenths = tenths + 3;
                    verifiable = verifiable + 1;
                },
                VerificationStatus::Divergent { .. } => {
                    tenths = tenths + 5;
                    verifiable = verifiable + 1;
                },
                VerificationStatus::Unverifiable => {},
                VerificationStatus::Opinion => {},
            }
            i = i + 1;
        }
        assert(claims@.take(claims@.len() as int) =~= claims@);
        proof {
            lemma_counts_bound(claims@);
        }
        let score = if verifiable > 0 {
            Ratio { num: tenths, den: 10 * verifiable }
        } else {
            Ratio { num: 0, den: 1 }
        };
        let coverage = Ratio { num: verifiable, den: claims.len() as u64 };
        (score, coverage)
    }
}

/// Score and coverage are fractions between 0 and 1 with a positive
/// denominator, whatever the claims.
pub proof fn lemma_metrics_in_unit_range(claims: Seq<VerifiedClaim>)
    ensures
        score_of(claims).1 > 0,
        score_of(claims).0 <= score_of(claims).1,
        coverage_of(claims).1 > 0,
        coverage_of(claims).0 <= coverage_of(claims).1,
{
    lemma_counts_bound(claims);
}

/// When every claim is confirmed, score and coverage are both 1.
pub proof fn lemma_all_confirmed_scores_one(claims: Seq<VerifiedClaim>)
    requires
        claims.len() > 0,
        forall|i: int| 0 <= i < claims.len() ==> #[trigger] claims[i].status is Confirmed,
    ensures
        score_of(claims).0 == score_of(claims).1,
        coverage_of(claims).0 == coverage_of(claims).1,
{
    lemma_all_confirmed_counts(claims);
}

proof fn lemma_all_confirmed_counts(claims: Seq<VerifiedClaim>)
    requires
        forall|i: int| 0 <= i < claims.len() ==> #[trigger] claims[i].status is Confirmed,
    ensures
        verifiable_count(claims) == claims.len(),
        total_tenths(claims) == 10 * claims.len(),
    decreases claims.len(),
{
    if claims.len() > 0 {
        let prefix = claims.drop_last();
        assert forall|i: int| 0 <= i < prefix.len() implies #[trigger] prefix[i].status is Confirmed by {
            assert(prefix[i] == claims[i]);
        }
        lemma_all_confirmed_counts(prefix);
        assert(claims.last() == claims[claims.len() - 1]);
    }
}

/// Claims the vault cannot speak to lower the coverage but leave the score
/// as it was (unless there were no claims at all).
pub proof fn lemma_unverifiable_keeps_score(claims: Seq<VerifiedClaim>, extra: VerifiedClaim)
    requires
        claims.len() > 0,
        !is_verifiable(extra.status),
    ensures
        score_of(claims.push(extra)) == score_of(claims),
        coverage_of(claims.push(extra)) == (coverage_of(claims).0, coverage_of(claims).1 + 1),
{
    assert(claims.push(extra).drop_last() =~= claims);
}

} // verus!
