//! The tagger: turns verification results into tagged output, in a simple
//! mode (the status) or an explaining mode (with details).

use vstd::prelude::*;
use vstd::string::StringExecFns;
use crate::text::{concat, join_seq, owned, texts};
use crate::types::{confidence_name, FloatBits, Ratio, SourceRef};
use crate::verification::{VerificationResult, VerificationStatus, VerifiedClaim};

verus! {

/// How much the output explains.
#[derive(Clone, Copy, Debug, PartialEq, Eq, Structural)]
pub enum OutputMode {
    Simple,
    Explain,
}

/// A tagged segment of the original text.
#[derive(Debug)]
pub struct TaggedSegment {
    pub text: String,
    pub status: String,
    pub source: Option<String>,
    pub explanation: Option<String>,
    pub vault_value: Option<String>,
}

/// The tagged output of a verification.
#[derive(Debug)]
pub struct TaggedOutput {
    pub original_text: String,
    pub segments: Vec<TaggedSegment>,
    pub score: Ratio,
    pub coverage: Ratio,
    pub vault_version: String,
    pub disclaimer: String,
}

/// What a segment says: its status, source, explanation and vault value.
pub struct SegmentView {
    pub status: Seq<char>,
    pub source: Option<Seq<char>>,
    pub explanation: Option<Seq<char>>,
    pub vault_value: Option<Seq<char>>,
}

/// The text of an optional string.
pub open spec fn opt_text(o: Option<String>) -> Option<Seq<char>> {
    match o {
        Some(s) => Some(s@),
        None => None,
    }
}

/// What `s` says.
pub open spec fn segment_view(s: TaggedSegment) -> SegmentView {
    SegmentView {
        status: s.status@,
        source: opt_text(s.source),
        explanation: opt_text(s.explanation),
        vault_value: opt_text(s.vault_value),
    }
}

/// How a source is cited: "name (locator)".
pub open spec fn cite(s: SourceRef) -> Seq<char> {
    s.name@ + " ("@ + s.locator@ + ")"@
}

/// The citations of `sources`.
pub open spec fn cites(sources: Seq<SourceRef>) -> Seq<Seq<char>> {
    sources.map_values(|s: SourceRef| cite(s))
}

/// `e` when explaining, nothing otherwise.
pub open spec fn when_explaining(mode: OutputMode, e: Seq<char>) -> Option<Seq<char>> {
    match mode {
        OutputMode::Explain => Some(e),
        OutputMode::Simple => None,
    }
}

/// What the segment of a claim with `status` says in `mode`; `percent` is
/// how the deviation of an imprecise claim is written, in percent with one
/// decimal.
pub open spec fn segment_of(status: VerificationStatus, mode: OutputMode, percent: Seq<char>) -> SegmentView {
    match status {
        VerificationStatus::Confirmed { source, confidence, .. } => SegmentView {
            status: "confirmed ("@ + confidence_name(confidence) + ")"@,
            source: Some(cite(source)),
            explanation: None,
            vault_value: None,
        },
        VerificationStatus::Contradicted { vault_value, source, explanation } => SegmentView {
            status: "contradicted"@,
            source: Some(cite(source)),
            explanation: match mode {
                OutputMode::Explain => opt_text(explanation),
                OutputMode::Simple => None,
            },
            vault_value: Some(vault_value@),
        },
        VerificationStatus::Imprecise { claim_value, vault_value, source, .. } => SegmentView {
            status: "imprecise (deviation: "@ + percent + "%)"@,
            source: Some(cite(source)),
            explanation: when_explaining(mode, "Claim: "@ + claim_value@ + ", Vault: "@ + vault_value@),
            vault_value: Some(vault_value@),
        },
        VerificationStatus::Conditional { conditions, source } => SegmentView {
            status: "conditional"@,
            source: Some(cite(source)),
            explanation: when_explaining(mode, "Valid if: "@ + join_seq(texts(conditions@), ", "@)),
            vault_value: None,
        },
        VerificationStatus::Outdated { was_true_until, current_value, source } => SegmentView {
            status: "outdated"@,
            source: Some(cite(source)),
            explanation: when_explaining(
                mode,
                "Was true until "@ + was_true_until@ + ". Current: "@ + current_value@,
            ),
            vault_value: Some(current_value@),
        },
        VerificationStatus::Oversimplified { nuance, source } => SegmentView {
            status: "oversimplified"@,
            source: Some(cite(source)),
            explanation: when_explaining(mode, nuance@),
            vault_value: None,
        },
        VerificationStatus::Divergent { claim_value, vault_value, vault_source_date, age_warning } => SegmentView {
            status: "divergent"@,
            source: None,
            explanation: match mode {
                OutputMode::Explain => Some(
                    "Claim: "@ + claim_value@ + ", Vault: "@ + vault_value@ + " (from "@
                        + vault_source_date@ + "). "@ + age_warning@,
                ),
                OutputMode::Simple => Some(age_warning@),
            },
            vault_value: Some(vault_value@),
        },
        VerificationStatus::Debunked { debunk_explanation, sources } => SegmentView {
            status: "debunked"@,
            source: Some(join_seq(cites(sources@), "; "@)),
            explanation: when_explaining(mode, debunk_explanation@),
            vault_value: None,
        },
        VerificationStatus::Unverifiable => SegmentView {
            status: "unverifiable"@,
            source: None,
            explanation: None,
            vault_value: None,
        },
        VerificationStatus::Opinion => SegmentView {
            status: "opinion"@,
            source: None,
            explanation: None,
            vault_value: None,
        },
    }
}

/// `seg` is the segment of `claim` in `mode`, for a percent writer whose
/// outputs satisfy `percent_of`.
pub open spec fn tags_claim<P: Fn(FloatBits) -> String>(
    claim: VerifiedClaim,
    mode: OutputMode,
    percent_of: P,
    seg: TaggedSegment,
) -> bool {
    &&& seg.text == claim.original_text
    &&& match claim.status {
        VerificationStatus::Imprecise { deviation, .. } => exists|p: String|
            call_ensures(percent_of, (deviation,), p) && segment_view(seg) == #[trigger] segment_of(
                claim.status,
                mode,
                p@,
            ),
        _ => segment_view(seg) == segment_of(claim.status, mode, Seq::empty()),
    }
}

/// A segment tells what the vault holds whenever the verdict names it: the
/// vault's value of a contradicted, imprecise or divergent claim, and the
/// current value of an outdated one, in either mode; and no vault value
/// for the other verdicts.
pub proof fn lemma_segment_tells_vault_value<P: Fn(FloatBits) -> String>(
    claim: VerifiedClaim,
    mode: OutputMode,
    percent_of: P,
    seg: TaggedSegment,
)
    requires
        tags_claim(claim, mode, percent_of, seg),
    ensures
        claim.status matches VerificationStatus::Contradicted { vault_value, .. } ==> segment_view(seg).vault_value
            == Some(vault_value@),
        claim.status matches VerificationStatus::Imprecise { vault_value, .. } ==> segment_view(seg).vault_value
            == Some(vault_value@),
        claim.status matches VerificationStatus::Divergent { vault_value, .. } ==> segment_view(seg).vault_value
            == Some(vault_value@),
        claim.status matches VerificationStatus::Outdated { current_value, .. } ==> segment_view(seg).vault_value
            == Some(current_value@),
        !(claim.status is Contradicted || claim.status is Imprecise || claim.status is Divergent
            || claim.status is Outdated) ==> segment_view(seg).vault_value is None,
        seg.text == claim.original_text,
{
    if let VerificationStatus::Imprecise { deviation, .. } = claim.status {
        let p = choose|p: String|
            call_ensures(percent_of, (deviation,), p) && segment_view(seg) == #[trigger] segment_of(
                claim.status,
                mode,
                p@,
            );
    }
}

/// The mode changes only the explanation: the segments of one claim in the
/// simple and the explaining mode carry the same text, source and vault
/// value, and (but for the deviation of an imprecise claim, written by the
/// percent writer each time) the same status.
pub proof fn lemma_modes_differ_only_in_explanation<P: Fn(FloatBits) -> String>(
    claim: VerifiedClaim,
    percent_of: P,
    simple: TaggedSegment,
    explained: TaggedSegment,
)
    requires
        tags_claim(claim, OutputMode::Simple, percent_of, simple),
        tags_claim(claim, OutputMode::Explain, percent_of, explained),
    ensures
        simple.text == explained.text,
        segment_view(simple).source == segment_view(explained).source,
        segment_view(simple).vault_value == segment_view(explained).vault_value,
        !(claim.status is Imprecise) ==> segment_view(simple).status == segment_view(explained).status,
{
    lemma_segment_tells_vault_value(claim, OutputMode::Simple, percent_of, simple);
    lemma_segment_tells_vault_value(claim, OutputMode::Explain, percent_of, explained);
    if let VerificationStatus::Imprecise { deviation, .. } = claim.status {
        let p = choose|p: String|
            call_ensures(percent_of, (deviation,), p) && segment_view(simple) == #[trigger] segment_of(
                claim.status,
                OutputMode::Simple,
                p@,
            );
        let q = choose|q: String|
            call_ensures(percent_of, (deviation,), q) && segment_view(explained) == #[trigger] segment_of(
                claim.status,
                OutputMode::Explain,
                q@,
            );
    }
}

/// "name (locator)" for a source.
fn cite_source(s: &SourceRef) -> (r: String)
    ensures
        r@ == cite(*s),
{
    let mut r = String::from_str(s.name.as_str());
    r.append(" (");
    r.append(s.locator.as_str());
    r.append(")");
    r
}

/// The citations of `sources`, joined by "; ".
fn cite_sources(sources: &Vec<SourceRef>) -> (r: String)
    ensures
        r@ == join_seq(cites(sources@), "; "@),
{
    let mut parts: Vec<String> = Vec::new();
    let mut i: usize = 0;
    while i < sources.len()
        invariant
            i <= sources@.len(),
            texts(parts@) == cites(sources@.take(i as int)),
        decreases sources@.len() - i,
    {
        let ghost before = parts@;
        let c = cite_source(&sources[i]);
        parts.push(c);
        assert(texts(parts@) =~= texts(before).push(c@));
        assert(sources@.take(i + 1) =~= sources@.take(i as int).push(sources@[i as int]));
        assert(cites(sources@.take(i + 1)) =~= cites(sources@.take(i as int)).push(cite(sources@[i as int])));
        i = i + 1;
    }
    assert(sources@.take(sources@.len() as int) =~= sources@);
    crate::text::join(&parts, "; ")
}

fn explain_only(mode: OutputMode, e: String) -> (r: Option<String>)
    ensures
        opt_text(r) == when_explaining(mode, e@),
{
    match mode {
        OutputMode::Explain => Some(e),
        OutputMode::Simple => None,
    }
}

fn copy_opt(o: &Option<String>) -> (r: Option<String>)
    ensures
        opt_text(r) == opt_text(*o),
{
    match o {
        Some(s) => Some(s.clone()),
        None => None,
    }
}

/// The segment of one verified claim.
pub fn to_segment<P: Fn(FloatBits) -> String>(
    claim: &VerifiedClaim,
    mode: OutputMode,
    percent_of: &P,
) -> (r: TaggedSegment)
    requires
        forall|d: FloatBits| call_requires(*percent_of, (d,)),
    ensures
        tags_claim(*claim, mode, *percent_of, r),
{
    let text = claim.original_text.clone();
    match &claim.status {
        VerificationStatus::Confirmed { source, confidence, .. } => {
            let status = concat(concat("confirmed (", confidence.name().as_str()).as_str(), ")");
            TaggedSegment {
                text,
                status,
                source: Some(cite_source(source)),
                explanation: None,
                vault_value: None,
            }
        },
        VerificationStatus::Contradicted { vault_value, source, explanation } => {
            let explanation = match mode {
                OutputMode::Explain => copy_opt(explanation),
                OutputMode::Simple => None,
            };
            TaggedSegment {
                text,
                status: owned("contradicted"),
                source: Some(cite_source(source)),
                explanation,
                vault_value: Some(vault_value.clone()),
            }
        },
        VerificationStatus::Imprecise { claim_value, vault_value, deviation, source } => {
            let percent = percent_of(*deviation);
            let mut status = String::from_str("imprecise (deviation: ");
            status.append(percent.as_str());
            status.append("%)");
            let mut e = String::from_str("Claim: ");
            e.append(claim_value.as_str());
            e.append(", Vault: ");
            e.append(vault_value.as_str());
            let r = TaggedSegment {
                text,
                status,
                source: Some(cite_source(source)),
                explanation: explain_only(mode, e),
                vault_value: Some(vault_value.clone()),
            };
            assert(segment_view(r) == segment_of(claim.status, mode, percent@));
            r
        },
        VerificationStatus::Conditional { conditions, source } => {
            let joined = crate::text::join(conditions, ", ");
            TaggedSegment {
                text,
                status: owned("conditional"),
                source: Some(cite_source(source)),
                explanation: explain_only(mode, concat("Valid if: ", joined.as_str())),
                vault_value: None,
            }
        },
        VerificationStatus::Outdated { was_true_until, current_value, source } => {
            let mut e = String::from_str("Was true until ");
            e.append(was_true_until.as_str());
            e.append(". Current: ");
            e.append(current_value.as_str());
            TaggedSegment {
                text,
                status: owned("outdated"),
                source: Some(cite_source(source)),
                explanation: explain_only(mode, e),
                vault_value: Some(current_value.clone()),
            }
        },
        VerificationStatus::Oversimplified { nuance, source } => {
            TaggedSegment {
                text,
                status: owned("oversimplified"),
                source: Some(cite_source(source)),
                explanation: explain_only(mode, nuance.clone()),
                vault_value: None,
            }
        },
        VerificationStatus::Divergent { claim_value, vault_value, vault_source_date, age_warning } => {
            let explanation = match mode {
                OutputMode::Explain => {
                    let mut e = String::from_str("Claim: ");
                    e.append(claim_value.as_str());
                    e.append(", Vault: ");
                    e.append(vault_value.as_str());
                    e.append(" (from ");
                    e.append(vault_source_date.as_str());
                    e.append("). ");
                    e.append(age_warning.as_str());
                    Some(e)
                },
                OutputMode::Simple => Some(age_warning.clone()),
            };
            TaggedSegment {
                text,
                status: owned("divergent"),
                source: None,
                explanation,
                vault_value: Some(vault_value.clone()),
            }
        },
        VerificationStatus::Debunked { debunk_explanation, sources } => {
            TaggedSegment {
                text,
                status: owned("debunked"),
                source: Some(cite_sources(sources)),
                explanation: explain_only(mode, debunk_explanation.clone()),
                vault_value: None,
            }
        },
        VerificationStatus::Unverifiable => TaggedSegment {
            text,
            status: owned("unverifiable"),
            source: None,
            explanation: None,
            vault_value: None,
        },
        VerificationStatus::Opinion => TaggedSegment {
            text,
            status: owned("opinion"),
            source: None,
            explanation: None,
            vault_value: None,
        },
    }
}

/// The tagged output of a verification: one segment per claim, in order,
/// with the result's score, coverage, vault version and disclaimer.
pub fn tag<P: Fn(FloatBits) -> String>(
    result: &VerificationResult,
    mode: OutputMode,
    percent_of: &P,
) -> (r: TaggedOutput)
    requires
        forall|d: FloatBits| call_requires(*percent_of, (d,)),
    ensures
        r.original_text == result.original_text,
        r.segments@.len() == result.claims@.len(),
        forall|i: int|
            0 <= i < r.segments@.len() ==> #[trigger] tags_claim(
                result.claims@[i],
                mode,
                *percent_of,
                r.segments@[i],
            ),
        r.score == result.score,
        r.coverage == result.coverage,
        r.vault_version == result.vault_version,
        r.disclaimer == result.disclaimer,
{
    let mut segments: Vec<TaggedSegment> = Vec::new();
    let mut i: usize = 0;
    while i < result.claims.len()
        invariant
            forall|d: FloatBits| call_requires(*percent_of, (d,)),
            i <= result.claims@.len(),
            segments@.len() == i,
            forall|j: int|
                0 <= j < i ==> #[trigger] tags_claim(
                    result.claims@[j],
                    mode,
                    *percent_of,
                    segments@[j],
                ),
        decreases result.claims@.len() - i,
    {
        segments.push(to_segment(&result.claims[i], mode, percent_of));
        i = i + 1;
    }
    TaggedOutput {
        original_text: result.original_text.clone(),
        segments,
        score: result.score,
        coverage: result.coverage,
        vault_version: result.vault_version.clone(),
        disclaimer: result.disclaimer.clone(),
    }
}

} // verus!
