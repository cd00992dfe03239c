//! The verifier: checks claims against the vault.
//!
//! 1. Direct lookup: subject and predicate lead to relations, whose value is
//!    compared with the claim's object.
//! 2. Inference: when the direct lookup finds nothing, a depth-bounded search
//!    through the graph for a relation that states the claim.
//!
//! Numbers are compared outside the verified code (they are floating-point):
//! the verifier hands a `NumberQuery` to a judge and turns its
//! `NumberJudgement` into a status.

use std::collections::HashSet;
use vstd::prelude::*;
use crate::claim::{Claim, ExtractionResult};
use crate::graph::{derefs, has_subject, lemma_select_complete, lemma_select_members, GraphView};
use crate::text::{concat, i64_to_text, lowercase_of, owned, signed_decimal, text_eq, to_lowercase, u64_to_text, decimal};
use crate::types::{Confidence, DomainConfig, EntityId, FloatBits, Label, Predicate, Relation, RelationId, SourceRef, Value};
use crate::vault::Vault;
use crate::verification::{coverage_of, ratio_is, score_of, ResolutionMethod, VerificationResult, VerificationStatus, VerifiedClaim};

verus! {

broadcast use vstd::std_specs::hash::group_hash_axioms;

/// Seconds in a year of 365 days: vault data older than this may be
/// outdated.
pub const YEAR_SECS: i64 = 31_536_000i64;

/// Configuration of the verifier.
#[derive(Clone, Copy, Debug, PartialEq, Eq, Structural)]
pub struct VerifierConfig {
    /// Maximum inference depth (hops in the graph).
    pub max_inference_depth: u8,
    /// Maximum number of claims verified per request.
    pub max_claims: u16,
    /// Timeout in milliseconds.
    pub timeout_ms: u64,
}

impl Default for VerifierConfig {
    fn default() -> (r: Self)
        ensures
            r.max_inference_depth == 3,
            r.max_claims == 100,
            r.timeout_ms == 5000,
    {
        VerifierConfig { max_inference_depth: 3, max_claims: 100, timeout_ms: 5000 }
    }
}

/// How a claimed number relates to the vault's number.
#[derive(Clone, Copy, Debug, PartialEq, Eq, Structural)]
pub enum ValueMatch {
    /// The numbers are equal.
    Exact,
    /// The relative deviation is within the tolerance.
    WithinTolerance { deviation: FloatBits },
    /// The relative deviation exceeds the tolerance.
    OutOfTolerance { deviation: FloatBits },
}

/// A numeric comparison to be made: the claim's text, the vault's number and
/// the relative tolerance.
#[derive(Debug)]
pub struct NumberQuery {
    pub claim_value: String,
    pub vault_value: FloatBits,
    pub tolerance: FloatBits,
}

/// The outcome of a numeric comparison: `None` when the claim's text is not
/// a number, and the vault's number written out as text.
#[derive(Debug)]
pub struct NumberJudgement {
    pub outcome: Option<ValueMatch>,
    pub vault_text: String,
}

/// The warning attached to a divergent verdict.
pub open spec fn age_warning_text() -> Seq<char> {
    "⚠️ Vault data is over 1 year old"@
}

/// A verdict, as the verifier can reach it: the status without its
/// representation.
pub enum Verdict {
    Confirmed { source: SourceRef, confidence: Confidence, relation: RelationId },
    Contradicted { vault_value: Seq<char>, source: SourceRef },
    Imprecise { claim_value: Seq<char>, vault_value: Seq<char>, deviation: FloatBits, source: SourceRef },
    Divergent {
        claim_value: Seq<char>,
        vault_value: Seq<char>,
        source_date: Seq<char>,
        age_warning: Seq<char>,
    },
    Unverifiable,
}

/// `s` is the status that `v` describes.
pub open spec fn shows(s: VerificationStatus, v: Verdict) -> bool {
    match v {
        Verdict::Confirmed { source, confidence, relation } => s == VerificationStatus::Confirmed {
            source,
            confidence,
            vault_relation: relation,
        },
        Verdict::Contradicted { vault_value, source } => s matches VerificationStatus::Contradicted {
            vault_value: vv,
            source: ss,
            explanation: e,
        } && vv@ == vault_value && ss == source && e is None,
        Verdict::Imprecise { claim_value, vault_value, deviation, source } => s matches VerificationStatus::Imprecise {
            claim_value: cv,
            vault_value: vv,
            deviation: d,
            source: ss,
        } && cv@ == claim_value && vv@ == vault_value && d == deviation && ss == source,
        Verdict::Divergent { claim_value, vault_value, source_date, age_warning } => s matches VerificationStatus::Divergent {
            claim_value: cv,
            vault_value: vv,
            vault_source_date: sd,
            age_warning: aw,
        } && cv@ == claim_value && vv@ == vault_value && sd@ == source_date && aw@ == age_warning,
        Verdict::Unverifiable => s is Unverifiable,
    }
}

/// One of `labels` reads `object`, case aside.
pub open spec fn some_label_reads(labels: Seq<Label>, object: Seq<char>) -> bool {
    exists|i: int|
        0 <= i < labels.len() && lowercase_of(#[trigger] labels[i].text@) == lowercase_of(object)
}

/// The position of the first primary label at or after `k`.
pub open spec fn first_primary_from(labels: Seq<Label>, k: int) -> Option<int>
    decreases labels.len() - k,
{
    if k < 0 || k >= labels.len() {
        None
    } else if labels[k].primary {
        Some(k)
    } else {
        first_primary_from(labels, k + 1)
    }
}

/// How an entity is named in a contradiction: its first primary label, or
/// its identifier.
pub open spec fn entity_display(labels: Seq<Label>, id: u64) -> Seq<char> {
    match first_primary_from(labels, 0) {
        Some(i) => labels[i].text@,
        None => "EntityId("@ + decimal(id as nat) + ")"@,
    }
}

/// The object reads as "true" ("true", "yes", "sim" or "1", case aside).
pub open spec fn reads_true(object: Seq<char>) -> bool {
    let l = lowercase_of(object);
    l == "true"@ || l == "yes"@ || l == "sim"@ || l == "1"@
}

/// How a boolean is written.
pub open spec fn bool_text(b: bool) -> Seq<char> {
    if b {
        "true"@
    } else {
        "false"@
    }
}

/// The verdict when the claim's `object` differs from the vault's
/// `vault_value`: divergent when the source is over a year old (old vault
/// data never contradicts), contradicted otherwise.
pub open spec fn mismatch_verdict(object: Seq<char>, vault_value: Seq<char>, source: SourceRef, now: i64) -> Verdict {
    if source_is_old(source, now) {
        Verdict::Divergent {
            claim_value: object,
            vault_value,
            source_date: "timestamp:"@ + signed_decimal(source.date->0 as int),
            age_warning: age_warning_text(),
        }
    } else {
        Verdict::Contradicted { vault_value, source }
    }
}

/// The verdict on `object` against a relation whose value is not a number,
/// at time `now`; `None` when it is one.
pub open spec fn plain_verdict(g: GraphView, object: Seq<char>, rel: Relation, now: i64) -> Option<Verdict> {
    let confirmed = Verdict::Confirmed {
        source: rel.source,
        confidence: rel.confidence,
        relation: rel.id,
    };
    match rel.value {
        Value::Text(t) => Some(
            if lowercase_of(t@) == lowercase_of(object) {
                confirmed
            } else {
                mismatch_verdict(object, t@, rel.source, now)
            },
        ),
        Value::Entity(t) => Some(
            match g.entity(t) {
                Some(e) => if some_label_reads(e.labels@, object) {
                    confirmed
                } else {
                    mismatch_verdict(object, entity_display(e.labels@, t.0), rel.source, now)
                },
                None => Verdict::Unverifiable,
            },
        ),
        Value::Number { .. } => None,
        Value::Boolean(b) => Some(
            if reads_true(object) == b {
                confirmed
            } else {
                mismatch_verdict(object, bool_text(b), rel.source, now)
            },
        ),
        _ => Some(Verdict::Unverifiable),
    }
}

/// The tolerance for a predicate: its own override, else the domain's.
pub open spec fn tolerance_for(p: Predicate, config: DomainConfig) -> FloatBits {
    match p.verification_threshold {
        Some(t) => match t.numeric_tolerance {
            Some(x) => x,
            None => config.numeric_tolerance,
        },
        None => config.numeric_tolerance,
    }
}

/// The numeric comparison that a claim against a numeric relation asks for.
pub open spec fn number_query(object: String, rel: Relation, tolerance: FloatBits) -> NumberQuery {
    NumberQuery {
        claim_value: object,
        vault_value: match rel.value {
            Value::Number { value, .. } => value,
            _ => FloatBits(0),
        },
        tolerance,
    }
}

/// The source was published more than a year before `now`.
pub open spec fn source_is_old(source: SourceRef, now: i64) -> bool {
    source.date matches Some(d) && now - d > YEAR_SECS
}

/// The verdict on a number, from the judge's answer.
pub open spec fn number_verdict(object: Seq<char>, rel: Relation, j: NumberJudgement, now: i64) -> Verdict {
    match j.outcome {
        None => Verdict::Unverifiable,
        Some(ValueMatch::Exact) => Verdict::Confirmed {
            source: rel.source,
            confidence: rel.confidence,
            relation: rel.id,
        },
        Some(ValueMatch::WithinTolerance { deviation }) => Verdict::Imprecise {
            claim_value: object,
            vault_value: j.vault_text@,
            deviation,
            source: rel.source,
        },
        Some(ValueMatch::OutOfTolerance { .. }) => mismatch_verdict(object, j.vault_text@, rel.source, now),
    }
}

/// The relation has not expired at `now`.
pub open spec fn is_live(r: Relation, now: i64) -> bool {
    r.valid_until matches Some(u) ==> now <= u
}

/// The position of the first relation at or after `k` that is live at `now`.
pub open spec fn first_live_from(rels: Seq<Relation>, now: i64, k: int) -> Option<int>
    decreases rels.len() - k,
{
    if k < 0 || k >= rels.len() {
        None
    } else if is_live(rels[k], now) {
        Some(k)
    } else {
        first_live_from(rels, now, k + 1)
    }
}

/// The relation that a direct lookup compares the claim with, and its
/// predicate: the first live relation stating the claim's predicate of the
/// claim's subject.
pub open spec fn direct_target(g: GraphView, claim: Claim, now: i64) -> Option<(Relation, Predicate)> {
    match (g.entity_by_label(claim.subject@), g.predicate_by_name(claim.predicate@)) {
        (Some(e), Some(p)) => {
            let rels = g.lookup(e.id, p.id);
            match first_live_from(rels, now, 0) {
                Some(i) => Some((rels[i], p)),
                None => None,
            }
        },
        _ => None,
    }
}

/// `r` carries the claim's text and span.
pub open spec fn keeps_span(r: VerifiedClaim, claim: Claim) -> bool {
    &&& r.original_text == claim.original_text
    &&& r.span_start == claim.span_start
    &&& r.span_end == claim.span_end
}

/// `r` is the direct-lookup verdict on `claim` against `rel`, for a judge
/// whose answers satisfy `judged`.
pub open spec fn direct_verdict<F: Fn(NumberQuery) -> NumberJudgement>(
    g: GraphView,
    config: DomainConfig,
    claim: Claim,
    rel: Relation,
    p: Predicate,
    now: i64,
    judge: F,
    status: VerificationStatus,
) -> bool {
    match plain_verdict(g, claim.object@, rel, now) {
        Some(v) => shows(status, v),
        None => exists|j: NumberJudgement|
            call_ensures(judge, (number_query(claim.object, rel, tolerance_for(p, config)),), j)
                && #[trigger] shows(status, number_verdict(claim.object@, rel, j, now)),
    }
}

/// `p` is named `name` (its name or an alias), case aside.
pub open spec fn predicate_named(p: Predicate, name: Seq<char>) -> bool {
    lowercase_of(p.name@) == lowercase_of(name) || exists|i: int|
        0 <= i < p.aliases@.len() && lowercase_of(#[trigger] p.aliases@[i]@) == lowercase_of(name)
}

/// The value reads as `object`: an entity with a label that reads it, or a
/// text that reads it, case aside.
pub open spec fn value_reads(g: GraphView, v: Value, object: Seq<char>) -> bool {
    match v {
        Value::Entity(t) => g.entity(t) matches Some(e) && some_label_reads(e.labels@, object),
        Value::Text(t) => lowercase_of(t@) == lowercase_of(object),
        _ => false,
    }
}

/// The relation states what the claim states: its predicate is named as
/// the claim's, and its value reads as the claim's object.
pub open spec fn states_claim(g: GraphView, r: Relation, claim: Claim) -> bool {
    &&& g.predicate(r.predicate) matches Some(p)
    &&& predicate_named(g.predicate(r.predicate)->0, claim.predicate@)
    &&& value_reads(g, r.value, claim.object@)
}

/// `path` is a chain of relations of `g` from `from`: each relation's
/// subject is the entity that the previous one refers to.
pub open spec fn is_path(g: GraphView, from: EntityId, path: Seq<Relation>) -> bool {
    &&& forall|k: int| 0 <= k < path.len() ==> g.relations.contains(#[trigger] path[k])
    &&& path.len() > 0 ==> path[0].subject == from
    &&& forall|k: int|
        #![trigger path[k].value]
        0 <= k < path.len() - 1 ==> path[k].value == Value::Entity(path[k + 1].subject)
}

/// `path` from `from` ends at entity `to`.
pub open spec fn ends_at(path: Seq<Relation>, from: EntityId, to: EntityId) -> bool {
    if path.len() == 0 {
        to == from
    } else {
        path.last().value == Value::Entity(to)
    }
}

/// The identifiers of the relations of `path`.
pub open spec fn ids(path: Seq<Relation>) -> Seq<RelationId> {
    path.map_values(|r: Relation| r.id)
}

/// `v` is a verdict that inference can give on `claim`: a chain of at most
/// `max` relations from the entity that the claim's subject names, whose
/// last relation states the claim, confirmed with that relation's source;
/// no shorter chain states the claim.
pub open spec fn inferred_verdict(g: GraphView, claim: Claim, max: u8, v: VerifiedClaim) -> bool {
    &&& g.entity_by_label(claim.subject@) is Some
    &&& no_statement_within(g, claim, v.resolution_method->hops - 1)
    &&& exists|path: Seq<Relation>| #[trigger]
        is_path(g, g.entity_by_label(claim.subject@)->0.id, path) && inference_result(
            g,
            claim,
            max,
            path,
            v,
        )
}

/// `v` reports the chain `path` as the inference of `claim`.
pub open spec fn inference_result(
    g: GraphView,
    claim: Claim,
    max: u8,
    path: Seq<Relation>,
    v: VerifiedClaim,
) -> bool {
    &&& 1 <= path.len() <= max
    &&& states_claim(g, path.last(), claim)
    &&& v.status == VerificationStatus::Confirmed {
        source: path.last().source,
        confidence: Confidence::Inferred,
        vault_relation: path.last().id,
    }
    &&& v.resolution_method matches ResolutionMethod::Inference { hops, chain }
    &&& v.resolution_method->hops == path.len()
    &&& v.resolution_method->chain@ == ids(path)
}

/// No chain of at most `n` relations from the entity that the claim's
/// subject names ends in a relation that states the claim.
pub open spec fn no_statement_within(g: GraphView, claim: Claim, n: int) -> bool {
    g.entity_by_label(claim.subject@) matches Some(e) ==> forall|path: Seq<Relation>|
        #[trigger] is_path(g, e.id, path) && 1 <= path.len() <= n ==> !states_claim(g, path.last(), claim)
}

/// `x` is reached from `from` by a chain of at most `n` relations.
pub open spec fn reaches(g: GraphView, from: EntityId, x: EntityId, n: int) -> bool {
    exists|p: Seq<Relation>| #[trigger] is_path(g, from, p) && p.len() <= n && ends_at(p, from, x)
}

/// The entity that `v` refers to, if any, is in `seen`.
spec fn value_seen(v: Value, seen: Set<u64>) -> bool {
    match v {
        Value::Entity(t) => seen.contains(t.0),
        _ => true,
    }
}

/// The search has been through `x`: none of its relations states the claim,
/// and every entity they refer to is in `seen`.
spec fn searched(g: GraphView, claim: Claim, x: EntityId, seen: Set<u64>) -> bool {
    forall|i: int|
        0 <= i < g.relations_from(x).len() ==> !states_claim(g, #[trigger] g.relations_from(x)[i], claim)
            && value_seen(g.relations_from(x)[i].value, seen)
}

/// `x` is in `level` at position `lo` or after.
spec fn queued(level: Seq<(EntityId, Vec<RelationId>)>, lo: int, x: EntityId) -> bool {
    exists|j: int| lo <= j < level.len() && (#[trigger] level[j]).0 == x
}

proof fn lemma_path_prefix(g: GraphView, from: EntityId, p: Seq<Relation>)
    requires
        is_path(g, from, p),
        p.len() > 0,
    ensures
        is_path(g, from, p.drop_last()),
        ends_at(p.drop_last(), from, p.last().subject),
{
    let q = p.drop_last();
    assert forall|k: int| 0 <= k < q.len() implies g.relations.contains(#[trigger] q[k]) by {
        assert(q[k] == p[k]);
    }
    assert forall|k: int| 0 <= k < q.len() - 1 implies #[trigger] q[k].value == Value::Entity(q[k + 1].subject) by {
        assert(q[k] == p[k]);
        assert(p[k].value == Value::Entity(p[k + 1].subject));
    }
    if q.len() > 0 {
        assert(p[q.len() - 1].value == Value::Entity(p[q.len() as int].subject));
    }
}

proof fn lemma_path_push(g: GraphView, from: EntityId, p: Seq<Relation>, x: EntityId, r: Relation)
    requires
        is_path(g, from, p),
        ends_at(p, from, x),
        g.relations.contains(r),
        r.subject == x,
    ensures
        is_path(g, from, p.push(r)),
        r.value matches Value::Entity(y) ==> ends_at(p.push(r), from, y),
{
    let q = p.push(r);
    assert forall|k: int| 0 <= k < q.len() implies g.relations.contains(#[trigger] q[k]) by {
        if k < p.len() {
            assert(q[k] == p[k]);
        }
    }
    assert forall|k: int| 0 <= k < q.len() - 1 implies #[trigger] q[k].value == Value::Entity(q[k + 1].subject) by {
        assert(q[k] == p[k]);
        if k == p.len() - 1 {
            assert(p.last().value == Value::Entity(x));
        } else {
            assert(p[k].value == Value::Entity(p[k + 1].subject));
        }
    }
}

proof fn lemma_searched_grows(g: GraphView, claim: Claim, x: EntityId, a: Set<u64>, b: Set<u64>)
    requires
        searched(g, claim, x, a),
        a.subset_of(b),
    ensures
        searched(g, claim, x, b),
{
    assert forall|i: int| 0 <= i < g.relations_from(x).len() implies !states_claim(
        g,
        #[trigger] g.relations_from(x)[i],
        claim,
    ) && value_seen(g.relations_from(x)[i].value, b) by {
        assert(value_seen(g.relations_from(x)[i].value, a));
    }
}

/// When every entity within `n - 1` relations of `root` has been searched,
/// no chain of at most `n` relations from `root` states the claim.
proof fn lemma_none_within(g: GraphView, root: EntityId, claim: Claim, n: int, seen: Set<u64>)
    requires
        g.relations.len() <= usize::MAX,
        forall|x: EntityId| #[trigger] reaches(g, root, x, n - 1) ==> searched(g, claim, x, seen),
    ensures
        forall|p: Seq<Relation>|
            #[trigger] is_path(g, root, p) && 1 <= p.len() <= n ==> !states_claim(g, p.last(), claim),
{
    assert forall|p: Seq<Relation>| #[trigger] is_path(g, root, p) && 1 <= p.len() <= n implies !states_claim(
        g,
        p.last(),
        claim,
    ) by {
        lemma_path_prefix(g, root, p);
        let x = p.last().subject;
        assert(reaches(g, root, x, n - 1));
        assert(g.relations.contains(p[p.len() - 1]));
        lemma_select_complete(g.relations, has_subject(x), p.last());
        let i = choose|i: int| 0 <= i < g.relations_from(x).len() && g.relations_from(x)[i] == p.last();
        assert(!states_claim(g, g.relations_from(x)[i], claim));
    }
}

/// When every entity within `n` relations of `root` has been searched, and
/// `root` is seen, every entity within `n + 1` relations is seen.
proof fn lemma_reach_seen(g: GraphView, root: EntityId, claim: Claim, n: int, seen: Set<u64>)
    requires
        g.relations.len() <= usize::MAX,
        n >= 0,
        seen.contains(root.0),
        forall|x: EntityId| #[trigger] reaches(g, root, x, n) ==> searched(g, claim, x, seen),
    ensures
        forall|y: EntityId| #[trigger] reaches(g, root, y, n + 1) ==> seen.contains(y.0),
{
    assert forall|y: EntityId| #[trigger] reaches(g, root, y, n + 1) implies seen.contains(y.0) by {
        let p = choose|p: Seq<Relation>| #[trigger] is_path(g, root, p) && p.len() <= n + 1 && ends_at(p, root, y);
        if p.len() > 0 {
            lemma_path_prefix(g, root, p);
            let x = p.last().subject;
            assert(reaches(g, root, x, n));
            assert(g.relations.contains(p[p.len() - 1]));
            lemma_select_complete(g.relations, has_subject(x), p.last());
            let i = choose|i: int| 0 <= i < g.relations_from(x).len() && g.relations_from(x)[i] == p.last();
            assert(value_seen(g.relations_from(x)[i].value, seen));
        }
    }
}

/// A copy of the identifiers `v`.
fn copy_ids(v: &Vec<RelationId>) -> (r: Vec<RelationId>)
    ensures
        r@ == v@,
{
    let mut r: Vec<RelationId> = Vec::new();
    let mut i: usize = 0;
    while i < v.len()
        invariant
            i <= v@.len(),
            r@ == v@.take(i as int),
        decreases v@.len() - i,
    {
        r.push(v[i]);
        i = i + 1;
        assert(r@ =~= v@.take(i as int));
    }
    assert(v@.take(v@.len() as int) =~= v@);
    r
}

/// Whether `p` is named `name`, case aside.
fn predicate_matches(p: &Predicate, name: &str) -> (r: bool)
    ensures
        r == predicate_named(*p, name@),
{
    let wanted = to_lowercase(name);
    let own = to_lowercase(p.name.as_str());
    if text_eq(own.as_str(), wanted.as_str()) {
        return true;
    }
    let mut i: usize = 0;
    while i < p.aliases.len()
        invariant
            i <= p.aliases@.len(),
            wanted@ == lowercase_of(name@),
            lowercase_of(p.name@) != lowercase_of(name@),
            forall|j: int|
                0 <= j < i ==> lowercase_of(#[trigger] p.aliases@[j]@) != lowercase_of(name@),
        decreases p.aliases@.len() - i,
    {
        let alias = to_lowercase(p.aliases[i].as_str());
        if text_eq(alias.as_str(), wanted.as_str()) {
            return true;
        }
        i = i + 1;
    }
    false
}

/// `r` is the verdict on `claim` at time `now`: the direct lookup's when
/// it finds a live relation; otherwise (when `max` allows inference) a
/// shortest chain that states the claim, or unverifiable when none was
/// found, in which case no chain of up to `max` relations from the subject
/// states it; otherwise unverifiable.
pub open spec fn claim_verdict<F: Fn(NumberQuery) -> NumberJudgement>(
    g: GraphView,
    config: DomainConfig,
    max: u8,
    claim: Claim,
    now: i64,
    judge: F,
    r: VerifiedClaim,
) -> bool {
    &&& keeps_span(r, claim)
    &&& match direct_target(g, claim, now) {
        Some((rel, p)) => r.resolution_method is DirectLookup && direct_verdict(
            g,
            config,
            claim,
            rel,
            p,
            now,
            judge,
            r.status,
        ),
        None => if max > 0 {
            ||| inferred_verdict(g, claim, max, r)
            ||| {
                &&& r.status is Unverifiable
                &&& r.resolution_method is NotFound
                &&& no_statement_within(g, claim, max as int)
            }
        } else {
            r.status is Unverifiable && r.resolution_method is NotFound
        },
    }
}

/// The disclaimer that every verification carries.
pub open spec fn disclaimer_text() -> Seq<char> {
    "Verification based on Vault data. Not a substitute for professional judgment."@
}

/// `r` is the verification of `extraction` at time `now`: the verdicts on
/// its first `max_claims` claims, in order, their score and coverage.
pub open spec fn verifies_all<F: Fn(NumberQuery) -> NumberJudgement>(
    g: GraphView,
    domain: DomainConfig,
    config: VerifierConfig,
    version: String,
    extraction: ExtractionResult,
    now: i64,
    judge: F,
    r: VerificationResult,
) -> bool {
    let n = if extraction.claims@.len() < config.max_claims {
        extraction.claims@.len() as int
    } else {
        config.max_claims as int
    };
    &&& r.original_text == extraction.original_text
    &&& r.claims@.len() == n
    &&& forall|j: int|
        0 <= j < n ==> #[trigger] claim_verdict(
            g,
            domain,
            config.max_inference_depth,
            extraction.claims@[j],
            now,
            judge,
            r.claims@[j],
        )
    &&& ratio_is(r.score, score_of(r.claims@))
    &&& ratio_is(r.coverage, coverage_of(r.claims@))
    &&& r.vault_version == version
    &&& r.verified_at == now
    &&& r.disclaimer@ == disclaimer_text()
}

/// The clock's reading, `std::time::SystemTime`, carried through as is.
#[verifier::external_type_specification]
#[verifier::external_body]
pub struct ExSystemTime(std::time::SystemTime);

/// `SystemTime::now`: the clock's reading. Nothing is claimed of it.
#[verifier::external_body]
fn clock_now() -> std::time::SystemTime {
    std::time::SystemTime::now()
}

/// `SystemTime::duration_since` the Unix epoch: the time since then, or
/// `None` (the call's error) when `t` is before it. Nothing more is claimed.
#[verifier::external_body]
fn since_epoch(t: &std::time::SystemTime) -> Option<std::time::Duration> {
    match t.duration_since(std::time::UNIX_EPOCH) {
        Ok(d) => Some(d),
        Err(_) => None,
    }
}

/// `Duration::as_secs`: the whole seconds of `d`. Nothing is claimed of
/// them: `d` is opaque here.
#[verifier::external_body]
fn whole_seconds(d: &std::time::Duration) -> u64 {
    d.as_secs()
}

/// The current time, in whole seconds since the Unix epoch (0 for a clock
/// set before it).
fn unix_now() -> i64 {
    let t = clock_now();
    let secs: u64 = match since_epoch(&t) {
        Some(d) => whole_seconds(&d),
        None => 0,
    };
    #[verifier::truncate]
    (secs as i64)
}

/// The verifier: checks claims against a vault.
pub struct Verifier<'v> {
    vault: &'v Vault,
    config: VerifierConfig,
}

/// Whether one of `labels` reads `object`, case aside.
fn any_label_reads(labels: &Vec<Label>, object: &str) -> (r: bool)
    ensures
        r == some_label_reads(labels@, object@),
{
    let wanted = to_lowercase(object);
    let mut i: usize = 0;
    while i < labels.len()
        invariant
            i <= labels@.len(),
            wanted@ == lowercase_of(object@),
            forall|j: int|
                0 <= j < i ==> lowercase_of(#[trigger] labels@[j].text@) != lowercase_of(object@),
        decreases labels@.len() - i,
    {
        let lowered = to_lowercase(labels[i].text.as_str());
        if text_eq(lowered.as_str(), wanted.as_str()) {
            return true;
        }
        i = i + 1;
    }
    false
}

/// How an entity is named in a contradiction.
fn display_entity(labels: &Vec<Label>, id: u64) -> (r: String)
    ensures
        r@ == entity_display(labels@, id),
{
    let mut i: usize = 0;
    while i < labels.len()
        invariant
            i <= labels@.len(),
            first_primary_from(labels@, 0) == first_primary_from(labels@, i as int),
        decreases labels@.len() - i,
    {
        if labels[i].primary {
            return labels[i].text.clone();
        }
        i = i + 1;
    }
    let digits = u64_to_text(id);
    let head = concat("EntityId(", digits.as_str());
    concat(head.as_str(), ")")
}

/// Whether the object reads as "true".
fn claim_reads_true(object: &str) -> (r: bool)
    ensures
        r == reads_true(object@),
{
    let l = to_lowercase(object);
    text_eq(l.as_str(), "true") || text_eq(l.as_str(), "yes") || text_eq(l.as_str(), "sim")
        || text_eq(l.as_str(), "1")
}

/// Whether the source was published more than a year before `now`.
fn source_old(source: &SourceRef, now: i64) -> (r: bool)
    ensures
        r == source_is_old(*source, now),
{
    match source.date {
        Some(d) => (now as i128) - (d as i128) > (YEAR_SECS as i128),
        None => false,
    }
}

/// The status for a claim's object that differs from the vault's value
/// `vault_value`: divergent when the source is over a year old, else
/// contradicted.
fn mismatch(object: &String, vault_value: String, source: &SourceRef, now: i64) -> (s: VerificationStatus)
    ensures
        shows(s, mismatch_verdict(object@, vault_value@, *source, now)),
{
    if source_old(source, now) {
        let date = match source.date {
            Some(d) => d,
            None => 0,
        };
        let stamp = i64_to_text(date);
        VerificationStatus::Divergent {
            claim_value: object.clone(),
            vault_value,
            vault_source_date: concat("timestamp:", stamp.as_str()),
            age_warning: owned("⚠️ Vault data is over 1 year old"),
        }
    } else {
        VerificationStatus::Contradicted { vault_value, source: source.clone(), explanation: None }
    }
}

impl<'v> Verifier<'v> {
    /// The vault the verifier checks against.
    pub closed spec fn vault(&self) -> &'v Vault {
        self.vault
    }

    /// The verifier's configuration.
    pub closed spec fn config(&self) -> VerifierConfig {
        self.config
    }

    /// A verifier of `vault` with `config`.
    pub fn new(vault: &'v Vault, config: VerifierConfig) -> (r: Self)
        ensures
            r.vault() == vault,
            r.config() == config,
    {
        Verifier { vault, config }
    }

    /// The tolerance for `predicate` in this vault.
    fn tolerance(&self, predicate: &Predicate) -> (r: FloatBits)
        ensures
            r == tolerance_for(*predicate, self.vault().domain.config),
    {
        match predicate.verification_threshold {
            Some(t) => match t.numeric_tolerance {
                Some(x) => x,
                None => self.vault.domain.config.numeric_tolerance,
            },
            None => self.vault.domain.config.numeric_tolerance,
        }
    }

    /// Compares the claim's object with the value of `relation`.
    fn compare_value<F: Fn(NumberQuery) -> NumberJudgement>(
        &self,
        claim: &Claim,
        relation: &Relation,
        predicate: &Predicate,
        now: i64,
        judge: &F,
    ) -> (s: VerificationStatus)
        requires
            forall|q: NumberQuery| call_requires(*judge, (q,)),
        ensures
            direct_verdict(
                self.vault().graph@,
                self.vault().domain.config,
                *claim,
                *relation,
                *predicate,
                now,
                *judge,
                s,
            ),
    {
        match &relation.value {
            Value::Text(vault_text) => {
                let a = to_lowercase(vault_text.as_str());
                let b = to_lowercase(claim.object.as_str());
                if text_eq(a.as_str(), b.as_str()) {
                    VerificationStatus::Confirmed {
                        source: relation.source.clone(),
                        confidence: relation.confidence,
                        vault_relation: relation.id,
                    }
                } else {
                    mismatch(&claim.object, vault_text.clone(), &relation.source, now)
                }
            },
            Value::Entity(target_id) => {
                match self.vault.get_entity(*target_id) {
                    Some(target) => {
                        if any_label_reads(&target.labels, claim.object.as_str()) {
                            VerificationStatus::Confirmed {
                                source: relation.source.clone(),
                                confidence: relation.confidence,
                                vault_relation: relation.id,
                            }
                        } else {
                            mismatch(&claim.object, display_entity(&target.labels, target_id.0), &relation.source, now)
                        }
                    },
                    None => VerificationStatus::Unverifiable,
                }
            },
            Value::Number { value, .. } => {
                let query = NumberQuery {
                    claim_value: claim.object.clone(),
                    vault_value: *value,
                    tolerance: self.tolerance(predicate),
                };
                let ghost q = query;
                let judgement = judge(query);
                let status = match judgement.outcome {
                    None => VerificationStatus::Unverifiable,
                    Some(ValueMatch::Exact) => VerificationStatus::Confirmed {
                        source: relation.source.clone(),
                        confidence: relation.confidence,
                        vault_relation: relation.id,
                    },
                    Some(ValueMatch::WithinTolerance { deviation }) => VerificationStatus::Imprecise {
                        claim_value: claim.object.clone(),
                        vault_value: judgement.vault_text,
                        deviation,
                        source: relation.source.clone(),
                    },
                    Some(ValueMatch::OutOfTolerance { .. }) => {
                        mismatch(&claim.object, judgement.vault_text, &relation.source, now)
                    },
                };
                assert(shows(status, number_verdict(claim.object@, *relation, judgement, now)));
                status
            },
            Value::Boolean(vault_bool) => {
                if claim_reads_true(claim.object.as_str()) == *vault_bool {
                    VerificationStatus::Confirmed {
                        source: relation.source.clone(),
                        confidence: relation.confidence,
                        vault_relation: relation.id,
                    }
                } else {
                    let text = if *vault_bool {
                        owned("true")
                    } else {
                        owned("false")
                    };
                    mismatch(&claim.object, text, &relation.source, now)
                }
            },
            _ => VerificationStatus::Unverifiable,
        }
    }

    /// Direct lookup: the entity that the claim's subject names, the
    /// predicate that its predicate names, and the first of their relations
    /// that has not expired, compared with the claim's object.
    fn direct_lookup<F: Fn(NumberQuery) -> NumberJudgement>(
        &self,
        claim: &Claim,
        now: i64,
        judge: &F,
    ) -> (r: Option<VerifiedClaim>)
        requires
            self.vault().graph.wf(),
            forall|q: NumberQuery| call_requires(*judge, (q,)),
        ensures
            match direct_target(self.vault().graph@, *claim, now) {
                Some((rel, p)) => r matches Some(v) && keeps_span(v, *claim)
                    && v.resolution_method is DirectLookup && direct_verdict(
                    self.vault().graph@,
                    self.vault().domain.config,
                    *claim,
                    rel,
                    p,
                    now,
                    *judge,
                    v.status,
                ),
                None => r is None,
            },
    {
        let entity = match self.vault.find_entity_by_label(claim.subject.as_str()) {
            Some(e) => e,
            None => return None,
        };
        let predicate = match self.vault.find_predicate(claim.predicate.as_str()) {
            Some(p) => p,
            None => return None,
        };
        let relations = self.vault.lookup(entity.id, predicate.id);
        let ghost rels = derefs(relations@);
        let mut i: usize = 0;
        while i < relations.len()
            invariant
                forall|q: NumberQuery| call_requires(*judge, (q,)),
                self.vault().graph@.entity_by_label(claim.subject@) == Some(*entity),
                self.vault().graph@.predicate_by_name(claim.predicate@) == Some(*predicate),
                rels == derefs(relations@),
                rels == self.vault().graph@.lookup(entity.id, predicate.id),
                i <= relations@.len(),
                first_live_from(rels, now, 0) == first_live_from(rels, now, i as int),
            decreases relations@.len() - i,
        {
            let relation = relations[i];
            assert(*relation == rels[i as int]);
            let expired = match relation.valid_until {
                Some(until) => now > until,
                None => false,
            };
            if !expired {
                let status = self.compare_value(claim, relation, predicate, now, judge);
                return Some(
                    VerifiedClaim {
                        original_text: claim.original_text.clone(),
                        span_start: claim.span_start,
                        span_end: claim.span_end,
                        status,
                        resolution_method: ResolutionMethod::DirectLookup,
                    },
                );
            }
            i = i + 1;
        }
        None
    }

    /// Whether the value reads as `object`.
    fn value_reads_exec(&self, v: &Value, object: &str) -> (r: bool)
        ensures
            r == value_reads(self.vault().graph@, *v, object@),
    {
        match v {
            Value::Entity(t) => match self.vault.get_entity(*t) {
                Some(e) => any_label_reads(&e.labels, object),
                None => false,
            },
            Value::Text(t) => {
                let a = to_lowercase(t.as_str());
                let b = to_lowercase(object);
                text_eq(a.as_str(), b.as_str())
            },
            _ => false,
        }
    }

    /// Inference: a breadth-first search from the entity that the claim's
    /// subject names, along references to other entities, level by level
    /// up to `max_inference_depth` relations, each entity visited once, for
    /// a relation that states the claim; the first found ends the shortest
    /// such chain.
    fn infer(&self, claim: &Claim) -> (r: Option<VerifiedClaim>)
        requires
            self.vault().graph.wf(),
            self.config().max_inference_depth > 0,
        ensures
            r matches Some(v) ==> keeps_span(v, *claim) && inferred_verdict(
                self.vault().graph@,
                *claim,
                self.config().max_inference_depth,
                v,
            ),
            r is None ==> no_statement_within(
                self.vault().graph@,
                *claim,
                self.config().max_inference_depth as int,
            ),
    {
        let ghost g = self.vault().graph@;
        let max = self.config.max_inference_depth;
        let entity = match self.vault.find_entity_by_label(claim.subject.as_str()) {
            Some(e) => e,
            None => return None,
        };
        let root = entity.id;
        proof {
            self.vault().graph.lemma_wf_relation_bound();
        }
        let mut level: Vec<(EntityId, Vec<RelationId>)> = Vec::new();
        level.push((root, Vec::new()));
        let ghost mut paths: Seq<Seq<Relation>> = seq![Seq::<Relation>::empty()];
        assert(ids(Seq::<Relation>::empty()) =~= Seq::<RelationId>::empty());
        let mut visited: HashSet<u64> = HashSet::new();
        visited.insert(root.0);
        proof {
            assert forall|x: EntityId| #[trigger] reaches(g, root, x, 0) implies visited@.contains(x.0) by {
                let p = choose|p: Seq<Relation>| #[trigger] is_path(g, root, p) && p.len() <= 0 && ends_at(p, root, x);
            }
            assert forall|v: u64| #[trigger] visited@.contains(v) implies searched(g, *claim, EntityId(v), visited@)
                || queued(level@, 0, EntityId(v)) by {
                assert(level@[0].0 == EntityId(v));
            }
        }
        let mut d: u8 = 0;
        while d < max
            invariant
                g == self.vault().graph@,
                self.vault().graph.wf(),
                g.relations.len() <= usize::MAX,
                max == self.config().max_inference_depth,
                d <= max,
                g.entity_by_label(claim.subject@) == Some(*entity),
                root == entity.id,
                level@.len() == paths.len(),
                forall|i: int|
                    0 <= i < level@.len() ==> is_path(g, root, #[trigger] paths[i]) && ends_at(
                        paths[i],
                        root,
                        level@[i].0,
                    ) && level@[i].1@ == ids(paths[i]) && paths[i].len() == d,
                visited@.contains(root.0),
                forall|x: EntityId| #[trigger] reaches(g, root, x, d as int) ==> visited@.contains(x.0),
                forall|x: EntityId| #[trigger] reaches(g, root, x, d - 1) ==> searched(g, *claim, x, visited@),
                forall|v: u64|
                    #[trigger] visited@.contains(v) ==> searched(g, *claim, EntityId(v), visited@) || queued(
                        level@,
                        0,
                        EntityId(v),
                    ),
            decreases max - d,
        {
            let ghost vis0 = visited@;
            let mut next: Vec<(EntityId, Vec<RelationId>)> = Vec::new();
            let ghost mut npaths: Seq<Seq<Relation>> = Seq::empty();
            let mut fi: usize = 0;
            while fi < level.len()
                invariant
                    g == self.vault().graph@,
                    self.vault().graph.wf(),
                    g.relations.len() <= usize::MAX,
                    max == self.config().max_inference_depth,
                    d < max,
                    g.entity_by_label(claim.subject@) == Some(*entity),
                    root == entity.id,
                    level@.len() == paths.len(),
                    forall|i: int|
                        0 <= i < level@.len() ==> is_path(g, root, #[trigger] paths[i]) && ends_at(
                            paths[i],
                            root,
                            level@[i].0,
                        ) && level@[i].1@ == ids(paths[i]) && paths[i].len() == d,
                    next@.len() == npaths.len(),
                    forall|i: int|
                        0 <= i < next@.len() ==> is_path(g, root, #[trigger] npaths[i]) && ends_at(
                            npaths[i],
                            root,
                            next@[i].0,
                        ) && next@[i].1@ == ids(npaths[i]) && npaths[i].len() == d + 1,
                    forall|i: int| 0 <= i < next@.len() ==> !vis0.contains((#[trigger] next@[i]).0.0),
                    fi <= level@.len(),
                    vis0.subset_of(visited@),
                    visited@.contains(root.0),
                    forall|x: EntityId| #[trigger] reaches(g, root, x, d as int) ==> vis0.contains(x.0),
                    forall|x: EntityId| #[trigger] reaches(g, root, x, d - 1) ==> searched(g, *claim, x, visited@),
                    forall|v: u64|
                        #[trigger] visited@.contains(v) ==> searched(g, *claim, EntityId(v), visited@) || queued(
                            level@,
                            fi as int,
                            EntityId(v),
                        ) || queued(next@, 0, EntityId(v)),
                decreases level@.len() - fi,
            {
                let cur = level[fi].0;
                let ghost path = paths[fi as int];
                let relations = self.vault.relations_from(cur);
                proof {
                    lemma_select_members(g.relations, has_subject(cur));
                }
                let ghost rels = derefs(relations@);
                let mut k: usize = 0;
                while k < relations.len()
                    invariant
                        g == self.vault().graph@,
                        self.vault().graph.wf(),
                        g.relations.len() <= usize::MAX,
                        max == self.config().max_inference_depth,
                        d < max,
                        g.entity_by_label(claim.subject@) == Some(*entity),
                        root == entity.id,
                        level@.len() == paths.len(),
                        forall|i: int|
                            0 <= i < level@.len() ==> is_path(g, root, #[trigger] paths[i]) && ends_at(
                                paths[i],
                                root,
                                level@[i].0,
                            ) && level@[i].1@ == ids(paths[i]) && paths[i].len() == d,
                        next@.len() == npaths.len(),
                        forall|i: int|
                            0 <= i < next@.len() ==> is_path(g, root, #[trigger] npaths[i]) && ends_at(
                                npaths[i],
                                root,
                                next@[i].0,
                            ) && next@[i].1@ == ids(npaths[i]) && npaths[i].len() == d + 1,
                        forall|i: int| 0 <= i < next@.len() ==> !vis0.contains((#[trigger] next@[i]).0.0),
                        fi < level@.len(),
                        cur == level@[fi as int].0,
                        path == paths[fi as int],
                        vis0.subset_of(visited@),
                        visited@.contains(root.0),
                        forall|x: EntityId| #[trigger] reaches(g, root, x, d as int) ==> vis0.contains(x.0),
                        forall|x: EntityId| #[trigger] reaches(g, root, x, d - 1) ==> searched(g, *claim, x, visited@),
                        forall|v: u64|
                            #[trigger] visited@.contains(v) ==> searched(g, *claim, EntityId(v), visited@) || queued(
                                level@,
                                fi as int,
                                EntityId(v),
                            ) || queued(next@, 0, EntityId(v)),
                        rels == derefs(relations@),
                        rels == g.relations_from(cur),
                        forall|i: int|
                            0 <= i < rels.len() ==> g.relations.contains(#[trigger] rels[i])
                                && has_subject(cur)(rels[i]),
                        k <= relations@.len(),
                        forall|j: int|
                            0 <= j < k ==> !states_claim(g, #[trigger] rels[j], *claim) && value_seen(
                                rels[j].value,
                                visited@,
                            ),
                    decreases relations@.len() - k,
                {
                    let relation = relations[k];
                    assert(*relation == rels[k as int]);
                    assert(g.relations.contains(*relation));
                    let pred_matches = match self.vault.graph.get_predicate(relation.predicate) {
                        Some(p) => predicate_matches(p, claim.predicate.as_str()),
                        None => false,
                    };
                    if pred_matches && self.value_reads_exec(&relation.value, claim.object.as_str()) {
                        let mut full_chain = copy_ids(&level[fi].1);
                        full_chain.push(relation.id);
                        let hops = d + 1;
                        let result = VerifiedClaim {
                            original_text: claim.original_text.clone(),
                            span_start: claim.span_start,
                            span_end: claim.span_end,
                            status: VerificationStatus::Confirmed {
                                source: relation.source.clone(),
                                confidence: Confidence::Inferred,
                                vault_relation: relation.id,
                            },
                            resolution_method: ResolutionMethod::Inference { hops, chain: full_chain },
                        };
                        proof {
                            let full = path.push(*relation);
                            lemma_path_push(g, root, path, cur, *relation);
                            assert(ids(full) =~= ids(path).push(relation.id));
                            assert(states_claim(g, full.last(), *claim));
                            assert(inference_result(g, *claim, max, full, result));
                            lemma_none_within(g, root, *claim, d as int, visited@);
                        }
                        return Some(result);
                    }
                    assert(!states_claim(g, rels[k as int], *claim));
                    match &relation.value {
                        Value::Entity(t) => {
                            if !visited.contains(&t.0) {
                                let ghost vis_before = visited@;
                                let ghost next_before = next@;
                                visited.insert(t.0);
                                let mut new_chain = copy_ids(&level[fi].1);
                                new_chain.push(relation.id);
                                next.push((*t, new_chain));
                                proof {
                                    let ext = path.push(*relation);
                                    lemma_path_push(g, root, path, cur, *relation);
                                    assert(ids(ext) =~= ids(path).push(relation.id));
                                    npaths = npaths.push(ext);
                                    assert(next@.last().0 == *t);
                                    assert forall|i: int| 0 <= i < next@.len() implies !vis0.contains(
                                        (#[trigger] next@[i]).0.0,
                                    ) by {
                                        if i < next_before.len() {
                                            assert(next@[i] == next_before[i]);
                                        }
                                    }
                                    assert forall|x: EntityId| #[trigger] reaches(g, root, x, d - 1) implies searched(
                                        g,
                                        *claim,
                                        x,
                                        visited@,
                                    ) by {
                                        lemma_searched_grows(g, *claim, x, vis_before, visited@);
                                    }
                                    assert forall|v: u64| #[trigger] visited@.contains(v) implies searched(
                                        g,
                                        *claim,
                                        EntityId(v),
                                        visited@,
                                    ) || queued(level@, fi as int, EntityId(v)) || queued(next@, 0, EntityId(v)) by {
                                        if v == t.0 {
                                            assert(next@[next@.len() - 1].0 == EntityId(v));
                                        } else {
                                            assert(vis_before.contains(v));
                                            if searched(g, *claim, EntityId(v), vis_before) {
                                                lemma_searched_grows(g, *claim, EntityId(v), vis_before, visited@);
                                            } else if queued(next_before, 0, EntityId(v)) {
                                                let j = choose|j: int|
                                                    0 <= j < next_before.len() && (#[trigger] next_before[j]).0
                                                        == EntityId(v);
                                                assert(next@[j] == next_before[j]);
                                            }
                                        }
                                    }
                                    assert forall|j: int| 0 <= j < k implies !states_claim(g, #[trigger] rels[j], *claim)
                                        && value_seen(rels[j].value, visited@) by {
                                        assert(value_seen(rels[j].value, vis_before));
                                    }
                                }
                            }
                        },
                        _ => {},
                    }
                    proof {
                        assert(value_seen(rels[k as int].value, visited@));
                    }
                    k = k + 1;
                }
                proof {
                    assert(searched(g, *claim, cur, visited@));
                    assert forall|v: u64| #[trigger] visited@.contains(v) implies searched(
                        g,
                        *claim,
                        EntityId(v),
                        visited@,
                    ) || queued(level@, fi + 1, EntityId(v)) || queued(next@, 0, EntityId(v)) by {
                        if !searched(g, *claim, EntityId(v), visited@) && !queued(next@, 0, EntityId(v)) {
                            let j = choose|j: int| fi <= j < level@.len() && (#[trigger] level@[j]).0 == EntityId(v);
                            assert(j != fi);
                        }
                    }
                }
                fi = fi + 1;
            }
            proof {
                assert forall|x: EntityId| #[trigger] reaches(g, root, x, d as int) implies searched(
                    g,
                    *claim,
                    x,
                    visited@,
                ) by {
                    assert(vis0.contains(x.0));
                    assert(visited@.contains(x.0));
                    assert(EntityId(x.0) == x);
                    if queued(next@, 0, x) {
                        let j = choose|j: int| 0 <= j < next@.len() && (#[trigger] next@[j]).0 == x;
                        assert(!vis0.contains(next@[j].0.0));
                    }
                    if queued(level@, level@.len() as int, x) {
                        let j = choose|j: int| level@.len() <= j < level@.len() && (#[trigger] level@[j]).0 == x;
                    }
                }
                lemma_reach_seen(g, root, *claim, d as int, visited@);
            }
            let ghost old_level = level@;
            proof {
                assert forall|v: u64| #[trigger] visited@.contains(v) implies searched(
                    g,
                    *claim,
                    EntityId(v),
                    visited@,
                ) || queued(next@, 0, EntityId(v)) by {
                    if queued(old_level, old_level.len() as int, EntityId(v)) {
                        let j = choose|j: int|
                            old_level.len() <= j < old_level.len() && (#[trigger] old_level[j]).0 == EntityId(v);
                    }
                }
            }
            level = next;
            proof {
                paths = npaths;
            }
            d = d + 1;
        }
        proof {
            lemma_none_within(g, root, *claim, max as int, visited@);
        }
        None
    }

    /// Verifies one claim against the vault at time `now`: direct lookup
    /// first, then inference (when the depth allows it), else unverifiable.
    pub fn verify_claim_at<F: Fn(NumberQuery) -> NumberJudgement>(
        &self,
        claim: &Claim,
        now: i64,
        judge: &F,
    ) -> (r: VerifiedClaim)
        requires
            self.vault().graph.wf(),
            forall|q: NumberQuery| call_requires(*judge, (q,)),
        ensures
            claim_verdict(
                self.vault().graph@,
                self.vault().domain.config,
                self.config().max_inference_depth,
                *claim,
                now,
                *judge,
                r,
            ),
    {
        if let Some(result) = self.direct_lookup(claim, now, judge) {
            return result;
        }
        if self.config.max_inference_depth > 0 {
            if let Some(result) = self.infer(claim) {
                return result;
            }
        }
        VerifiedClaim {
            original_text: claim.original_text.clone(),
            span_start: claim.span_start,
            span_end: claim.span_end,
            status: VerificationStatus::Unverifiable,
            resolution_method: ResolutionMethod::NotFound,
        }
    }

    /// Verifies one claim against the vault now.
    pub fn verify_claim<F: Fn(NumberQuery) -> NumberJudgement>(
        &self,
        claim: &Claim,
        judge: &F,
    ) -> (r: VerifiedClaim)
        requires
            self.vault().graph.wf(),
            forall|q: NumberQuery| call_requires(*judge, (q,)),
        ensures
            exists|now: i64|
                #[trigger] claim_verdict(
                    self.vault().graph@,
                    self.vault().domain.config,
                    self.config().max_inference_depth,
                    *claim,
                    now,
                    *judge,
                    r,
                ),
    {
        let now = unix_now();
        self.verify_claim_at(claim, now, judge)
    }

    /// Verifies the first `max_claims` claims of an extraction at time
    /// `now`, and scores them.
    pub fn verify_all_at<F: Fn(NumberQuery) -> NumberJudgement>(
        &self,
        extraction: &ExtractionResult,
        now: i64,
        judge: &F,
    ) -> (r: VerificationResult)
        requires
            self.vault().graph.wf(),
            forall|q: NumberQuery| call_requires(*judge, (q,)),
        ensures
            verifies_all(
                self.vault().graph@,
                self.vault().domain.config,
                self.config(),
                self.vault().version,
                *extraction,
                now,
                *judge,
                r,
            ),
    {
        let limit = self.config.max_claims as usize;
        let n = if extraction.claims.len() < limit {
            extraction.claims.len()
        } else {
            limit
        };
        let mut claims: Vec<VerifiedClaim> = Vec::new();
        let mut i: usize = 0;
        while i < n
            invariant
                self.vault().graph.wf(),
                forall|q: NumberQuery| call_requires(*judge, (q,)),
                n <= extraction.claims@.len(),
                n <= self.config().max_claims,
                i <= n,
                claims@.len() == i,
                forall|j: int|
                    0 <= j < i ==> #[trigger] claim_verdict(
                        self.vault().graph@,
                        self.vault().domain.config,
                        self.config().max_inference_depth,
                        extraction.claims@[j],
                        now,
                        *judge,
                        claims@[j],
                    ),
            decreases n - i,
        {
            let verified = self.verify_claim_at(&extraction.claims[i], now, judge);
            claims.push(verified);
            i = i + 1;
        }
        let (score, coverage) = VerificationResult::compute_metrics(claims.as_slice());
        VerificationResult {
            original_text: extraction.original_text.clone(),
            claims,
            score,
            coverage,
            vault_version: self.vault.version.clone(),
            verified_at: now,
            disclaimer: owned(
                "Verification based on Vault data. Not a substitute for professional judgment.",
            ),
        }
    }

    /// Verifies the first `max_claims` claims of an extraction now, and
    /// scores them.
    pub fn verify_all<F: Fn(NumberQuery) -> NumberJudgement>(
        &self,
        extraction: &ExtractionResult,
        judge: &F,
    ) -> (r: VerificationResult)
        requires
            self.vault().graph.wf(),
            forall|q: NumberQuery| call_requires(*judge, (q,)),
        ensures
            exists|now: i64|
                #[trigger] verifies_all(
                    self.vault().graph@,
                    self.vault().domain.config,
                    self.config(),
                    self.vault().version,
                    *extraction,
                    now,
                    *judge,
                    r,
                ),
    {
        let now = unix_now();
        self.verify_all_at(extraction, now, judge)
    }
}

proof fn lemma_first_live(rels: Seq<Relation>, now: i64, k: int)
    ensures
        first_live_from(rels, now, k) matches Some(i) ==> k <= i < rels.len() && is_live(rels[i], now),
    decreases rels.len() - k,
{
    if 0 <= k < rels.len() && !is_live(rels[k], now) {
        lemma_first_live(rels, now, k + 1);
    }
}

/// The relation that a direct lookup compares the claim with is a live
/// relation of the vault about the claim's subject, under the claim's
/// predicate.
pub proof fn lemma_direct_target_in_vault(g: GraphView, claim: Claim, now: i64)
    requires
        g.relations.len() <= usize::MAX,
    ensures
        direct_target(g, claim, now) matches Some((rel, p)) ==> {
            &&& g.relations.contains(rel)
            &&& is_live(rel, now)
            &&& (g.entity_by_label(claim.subject@) matches Some(e) && rel.subject == e.id)
            &&& g.predicate_by_name(claim.predicate@) == Some(p)
            &&& rel.predicate == p.id
        },
{
    match (g.entity_by_label(claim.subject@), g.predicate_by_name(claim.predicate@)) {
        (Some(e), Some(p)) => {
            let keep = crate::graph::has_subject_predicate(e.id, p.id);
            let rels = g.lookup(e.id, p.id);
            lemma_first_live(rels, now, 0);
            lemma_select_members(g.relations, keep);
            match first_live_from(rels, now, 0) {
                Some(i) => {
                    assert(rels.contains(rels[i]) ==> true);
                    assert(g.relations.contains(rels[i]) && keep(rels[i]));
                },
                None => {},
            }
        },
        _ => {},
    }
}

/// Every confirmed verdict is traceable: the relation that it names is a
/// relation of the vault, and the source it cites is that relation's. A
/// contradicted or imprecise verdict cites the source of a relation of the
/// vault too.
pub proof fn lemma_verdicts_are_traceable<F: Fn(NumberQuery) -> NumberJudgement>(
    g: GraphView,
    config: DomainConfig,
    max: u8,
    claim: Claim,
    now: i64,
    judge: F,
    r: VerifiedClaim,
)
    requires
        g.relations.len() <= usize::MAX,
        claim_verdict(g, config, max, claim, now, judge, r),
    ensures
        r.status matches VerificationStatus::Confirmed { source, vault_relation, .. } ==> exists|rel: Relation|
            #[trigger] g.relations.contains(rel) && rel.id == vault_relation && rel.source == source,
        r.status matches VerificationStatus::Contradicted { source, .. } ==> exists|rel: Relation|
            #[trigger] g.relations.contains(rel) && rel.source == source,
        r.status matches VerificationStatus::Imprecise { source, .. } ==> exists|rel: Relation|
            #[trigger] g.relations.contains(rel) && rel.source == source,
{
    lemma_direct_target_in_vault(g, claim, now);
    match direct_target(g, claim, now) {
        Some((rel, p)) => {
            match plain_verdict(g, claim.object@, rel, now) {
                Some(v) => {},
                None => {
                    let j = choose|j: NumberJudgement|
                        call_ensures(judge, (number_query(claim.object, rel, tolerance_for(p, config)),), j)
                            && #[trigger] shows(r.status, number_verdict(claim.object@, rel, j, now));
                },
            }
            assert(g.relations.contains(rel));
        },
        None => {
            if max > 0 && inferred_verdict(g, claim, max, r) {
                let path = choose|path: Seq<Relation>| #[trigger]
                    is_path(g, g.entity_by_label(claim.subject@)->0.id, path) && inference_result(
                        g,
                        claim,
                        max,
                        path,
                        r,
                    );
                assert(g.relations.contains(path[path.len() - 1]));
            }
        },
    }
}

/// A divergent verdict ("the vault may be outdated") comes only from a
/// vault relation whose source is more than a year older than the time of
/// verification; mismatches against a newer source are contradicted
/// instead.
pub proof fn lemma_divergent_means_old_source<F: Fn(NumberQuery) -> NumberJudgement>(
    g: GraphView,
    config: DomainConfig,
    max: u8,
    claim: Claim,
    now: i64,
    judge: F,
    r: VerifiedClaim,
)
    requires
        claim_verdict(g, config, max, claim, now, judge, r),
    ensures
        r.status is Divergent ==> (direct_target(g, claim, now) matches Some((rel, _)) && source_is_old(
            rel.source,
            now,
        )),
{
    match direct_target(g, claim, now) {
        Some((rel, p)) => {
            if r.status is Divergent {
                match plain_verdict(g, claim.object@, rel, now) {
                    Some(v) => {},
                    None => {
                        let j = choose|j: NumberJudgement|
                            call_ensures(judge, (number_query(claim.object, rel, tolerance_for(p, config)),), j)
                                && #[trigger] shows(r.status, number_verdict(claim.object@, rel, j, now));
                    },
                }
            }
        },
        None => {
            if max > 0 && inferred_verdict(g, claim, max, r) {
                let path = choose|path: Seq<Relation>| #[trigger]
                    is_path(g, g.entity_by_label(claim.subject@)->0.id, path) && inference_result(
                        g,
                        claim,
                        max,
                        path,
                        r,
                    );
            }
        },
    }
}

/// Old vault data never contradicts: a contradicted verdict comes only from
/// a vault relation whose source is at most a year older than the time of
/// verification (or undated).
pub proof fn lemma_old_source_never_contradicts<F: Fn(NumberQuery) -> NumberJudgement>(
    g: GraphView,
    config: DomainConfig,
    max: u8,
    claim: Claim,
    now: i64,
    judge: F,
    r: VerifiedClaim,
)
    requires
        claim_verdict(g, config, max, claim, now, judge, r),
    ensures
        r.status is Contradicted ==> (direct_target(g, claim, now) matches Some((rel, _)) && !source_is_old(
            rel.source,
            now,
        )),
{
    match direct_target(g, claim, now) {
        Some((rel, p)) => {
            if r.status is Contradicted {
                match plain_verdict(g, claim.object@, rel, now) {
                    Some(v) => {},
                    None => {
                        let j = choose|j: NumberJudgement|
                            call_ensures(judge, (number_query(claim.object, rel, tolerance_for(p, config)),), j)
                                && #[trigger] shows(r.status, number_verdict(claim.object@, rel, j, now));
                    },
                }
            }
        },
        None => {
            if max > 0 && inferred_verdict(g, claim, max, r) {
                let path = choose|path: Seq<Relation>| #[trigger]
                    is_path(g, g.entity_by_label(claim.subject@)->0.id, path) && inference_result(
                        g,
                        claim,
                        max,
                        path,
                        r,
                    );
            }
        },
    }
}

/// A yes-or-no fact confirms a claim exactly when the claim says the same:
/// the claim says yes when its object reads "true", "yes", "sim" or "1"
/// (case aside), and no otherwise. Else the claim is contradicted (or, from
/// an old source, divergent), with the vault's "true" or "false".
pub proof fn lemma_boolean_claims(g: GraphView, object: Seq<char>, rel: Relation, now: i64, b: bool)
    requires
        rel.value == Value::Boolean(b),
    ensures
        ({
            let says_yes = lowercase_of(object) == "true"@ || lowercase_of(object) == "yes"@ || lowercase_of(object)
                == "sim"@ || lowercase_of(object) == "1"@;
            &&& (plain_verdict(g, object, rel, now) matches Some(Verdict::Confirmed { .. })) <==> (says_yes == b)
            &&& says_yes == b ==> plain_verdict(g, object, rel, now) == Some(
                Verdict::Confirmed { source: rel.source, confidence: rel.confidence, relation: rel.id },
            )
            &&& says_yes != b ==> plain_verdict(g, object, rel, now) == Some(
                mismatch_verdict(object, if b { "true"@ } else { "false"@ }, rel.source, now),
            )
        }),
{
}

/// Inference stays within the configured depth: an inferred verdict
/// reports a chain of 1 to `max` hops, each relation of the vault, the
/// first from the claim's subject; with depth 0 nothing is inferred.
pub proof fn lemma_inference_within_depth<F: Fn(NumberQuery) -> NumberJudgement>(
    g: GraphView,
    config: DomainConfig,
    max: u8,
    claim: Claim,
    now: i64,
    judge: F,
    r: VerifiedClaim,
)
    requires
        claim_verdict(g, config, max, claim, now, judge, r),
    ensures
        r.resolution_method matches ResolutionMethod::Inference { hops, chain } ==> {
            &&& max > 0
            &&& 1 <= hops <= max
            &&& chain@.len() == hops
            &&& (r.status matches VerificationStatus::Confirmed { confidence, .. } && confidence
                == Confidence::Inferred)
        },
{
    if r.resolution_method is Inference && direct_target(g, claim, now) is None && max > 0 && inferred_verdict(
        g,
        claim,
        max,
        r,
    ) {
        let path = choose|path: Seq<Relation>| #[trigger]
            is_path(g, g.entity_by_label(claim.subject@)->0.id, path) && inference_result(
                g,
                claim,
                max,
                path,
                r,
            );
        assert(ids(path).len() == path.len());
    }
}

} // verus!
