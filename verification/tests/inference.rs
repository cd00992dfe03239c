use parallaxis::claim::{Claim, ExtractionResult};
use parallaxis::fact_check::{NumberJudgement, NumberQuery, Verifier, VerifierConfig};
use parallaxis::geography::geography_vault;
use parallaxis::types::{
    Confidence, DomainId, Entity, EntityId, EntityKind, FloatBits, Label, PredicateId, Ratio,
    Relation, RelationId, SourceKind, SourceRef, Value,
};
use parallaxis::vault::Vault;
use parallaxis::verification::{ResolutionMethod, VerificationStatus};

const NOW: i64 = 1_750_000_000;

fn no_numbers(_q: NumberQuery) -> NumberJudgement {
    NumberJudgement { outcome: None, vault_text: String::new() }
}

fn entity(id: u64, label: &str) -> Entity {
    Entity {
        id: EntityId(id),
        kind: EntityKind { id: 1, name: "place".to_string(), parent: None },
        labels: vec![Label { text: label.to_string(), language: "en".to_string(), primary: true }],
        domain: DomainId(1),
    }
}

fn src(name: &str) -> SourceRef {
    SourceRef { kind: SourceKind::KnowledgeBase, name: name.to_string(), locator: "l".to_string(), date: None }
}

fn rel(id: u64, subject: u64, predicate: u32, target: u64, valid_until: Option<i64>) -> Relation {
    Relation {
        id: RelationId(id),
        subject: EntityId(subject),
        predicate: PredicateId(predicate),
        value: Value::Entity(EntityId(target)),
        confidence: Confidence::Verified,
        source: src(if id == 2 { "continents" } else { "countries" }),
        domain: DomainId(1),
        valid_from: None,
        valid_until,
        timestamp: 0,
    }
}

/// Brasília → country → Brazil → continent → South America.
fn vault() -> Vault {
    let mut v = geography_vault();
    v.add_entity(entity(1, "Brasília"));
    v.add_entity(entity(2, "Brazil"));
    v.add_entity(entity(3, "South America"));
    v.add_relation(rel(1, 1, 9, 2, None));
    v.add_relation(rel(2, 2, 4, 3, None));
    v
}

fn claim(subject: &str, predicate: &str, object: &str) -> Claim {
    Claim {
        original_text: format!("{} {} {}", subject, predicate, object),
        span_start: 3,
        span_end: 9,
        subject: subject.to_string(),
        predicate: predicate.to_string(),
        object: object.to_string(),
        conditions: vec![],
        extraction_confidence: FloatBits(0),
    }
}

fn config(depth: u8) -> VerifierConfig {
    VerifierConfig { max_inference_depth: depth, max_claims: 100, timeout_ms: 5000 }
}

#[test]
fn brasilia_is_in_south_america_by_two_hops() {
    let v = vault();
    let verifier = Verifier::new(&v, VerifierConfig::default());
    let r = verifier.verify_claim_at(&claim("Brasília", "part_of_continent", "south america"), NOW, &no_numbers);
    match r.status {
        VerificationStatus::Confirmed { source, confidence, vault_relation } => {
            assert_eq!(source.name, "continents");
            assert_eq!(confidence, Confidence::Inferred);
            assert_eq!(vault_relation, RelationId(2));
        }
        other => panic!("expected an inferred confirmation, got {:?}", other),
    }
    match r.resolution_method {
        ResolutionMethod::Inference { hops, chain } => {
            assert_eq!(hops, 2);
            assert_eq!(chain, vec![RelationId(1), RelationId(2)]);
        }
        other => panic!("expected inference, got {:?}", other),
    }
    assert_eq!((r.span_start, r.span_end), (3, 9));
}

#[test]
fn one_hop_is_not_enough_for_two() {
    let v = vault();
    let verifier = Verifier::new(&v, config(1));
    let r = verifier.verify_claim_at(&claim("Brasília", "continent", "South America"), NOW, &no_numbers);
    assert!(matches!(r.status, VerificationStatus::Unverifiable));
    assert!(matches!(r.resolution_method, ResolutionMethod::NotFound));
}

#[test]
fn depth_zero_never_infers() {
    let v = vault();
    let verifier = Verifier::new(&v, config(0));
    let r = verifier.verify_claim_at(&claim("Brasília", "continent", "South America"), NOW, &no_numbers);
    assert!(matches!(r.resolution_method, ResolutionMethod::NotFound));
}

#[test]
fn expired_relation_is_skipped_by_direct_lookup() {
    let mut v = vault();
    v.add_relation(rel(3, 2, 1, 1, Some(NOW - 1)));
    let verifier = Verifier::new(&v, config(0));
    let r = verifier.verify_claim_at(&claim("Brazil", "capital", "Brasília"), NOW, &no_numbers);
    assert!(matches!(r.status, VerificationStatus::Unverifiable));
    let later = Verifier::new(&v, config(0));
    let r2 = later.verify_claim_at(&claim("Brazil", "capital", "Brasília"), NOW - 1, &no_numbers);
    assert!(matches!(r2.status, VerificationStatus::Confirmed { .. }));
}

#[test]
fn verify_all_limits_and_scores() {
    let v = vault();
    let verifier = Verifier::new(&v, VerifierConfig { max_inference_depth: 3, max_claims: 2, timeout_ms: 1 });
    let extraction = ExtractionResult {
        original_text: "t".to_string(),
        claims: vec![
            claim("Brazil", "continent", "South America"),
            claim("Brazil", "continent", "Europe"),
            claim("Brazil", "continent", "Asia"),
        ],
        confidence: FloatBits(0),
        warnings: vec![],
    };
    let r = verifier.verify_all_at(&extraction, NOW, &no_numbers);
    assert_eq!(r.claims.len(), 2);
    assert!(matches!(r.claims[0].status, VerificationStatus::Confirmed { .. }));
    match &r.claims[1].status {
        VerificationStatus::Contradicted { vault_value, .. } => assert_eq!(vault_value, "South America"),
        other => panic!("unexpected {:?}", other),
    }
    assert_eq!(r.score, Ratio { num: 10, den: 20 });
    assert_eq!(r.coverage, Ratio { num: 2, den: 2 });
    assert_eq!(r.vault_version, "geography-v2026Q2");
    assert_eq!(r.verified_at, NOW);
    assert_eq!(r.disclaimer, "Verification based on Vault data. Not a substitute for professional judgment.");
    let now_result = verifier.verify_all(&extraction, &no_numbers);
    assert_eq!(now_result.claims.len(), 2);
    assert!(now_result.verified_at >= NOW);
}

#[test]
fn text_and_boolean_values() {
    let mut v = vault();
    let mut r1 = rel(4, 2, 6, 0, None);
    r1.value = Value::Text("Real".to_string());
    v.add_relation(r1);
    let mut r2 = rel(5, 2, 8, 0, None);
    r2.value = Value::Boolean(true);
    v.add_relation(r2);
    let verifier = Verifier::new(&v, config(0));
    let a = verifier.verify_claim_at(&claim("Brazil", "money", "REAL"), NOW, &no_numbers);
    assert!(matches!(a.status, VerificationStatus::Confirmed { .. }));
    let b = verifier.verify_claim_at(&claim("Brazil", "currency", "Peso"), NOW, &no_numbers);
    match b.status {
        VerificationStatus::Contradicted { vault_value, .. } => assert_eq!(vault_value, "Real"),
        other => panic!("unexpected {:?}", other),
    }
    let c = verifier.verify_claim_at(&claim("Brazil", "borders", "Sim"), NOW, &no_numbers);
    assert!(matches!(c.status, VerificationStatus::Confirmed { .. }));
    let d = verifier.verify_claim_at(&claim("Brazil", "borders", "no"), NOW, &no_numbers);
    match d.status {
        VerificationStatus::Contradicted { vault_value, .. } => assert_eq!(vault_value, "true"),
        other => panic!("unexpected {:?}", other),
    }
}

#[test]
fn entity_without_primary_label_is_named_by_id() {
    let mut v = vault();
    let mut e = entity(7, "Nameless");
    e.labels[0].primary = false;
    v.add_entity(e);
    v.add_relation(rel(6, 3, 1, 7, None));
    let verifier = Verifier::new(&v, config(0));
    let r = verifier.verify_claim_at(&claim("South America", "capital", "Lima"), NOW, &no_numbers);
    match r.status {
        VerificationStatus::Contradicted { vault_value, .. } => assert_eq!(vault_value, "EntityId(7)"),
        other => panic!("unexpected {:?}", other),
    }
}

fn chain_vault(entities: &[(u64, &str)], links: &[(u64, u64, u64, u32)]) -> Vault {
    let mut v = geography_vault();
    for (id, label) in entities {
        v.add_entity(entity(*id, label));
    }
    for (id, subject, target, predicate) in links {
        v.add_relation(rel(*id, *subject, *predicate, *target, None));
    }
    v
}

#[test]
fn three_hop_chain_is_found_through_an_entity_reached_twice() {
    // Root borders A and B; B → C → D; A → D; D is in Target.
    let v = chain_vault(
        &[(1, "Root"), (10, "A"), (11, "B"), (12, "C"), (13, "D"), (14, "Target")],
        &[(21, 1, 10, 8), (22, 1, 11, 8), (23, 11, 12, 8), (24, 12, 13, 8), (25, 10, 13, 8), (26, 13, 14, 4)],
    );
    let verifier = Verifier::new(&v, config(3));
    let r = verifier.verify_claim_at(&claim("Root", "continent", "Target"), NOW, &no_numbers);
    match r.resolution_method {
        ResolutionMethod::Inference { hops, chain } => {
            assert_eq!(hops, 3);
            assert_eq!(chain, vec![RelationId(21), RelationId(25), RelationId(26)]);
        }
        other => panic!("expected inference, got {:?}", other),
    }
    assert!(matches!(r.status, VerificationStatus::Confirmed { vault_relation: RelationId(26), .. }));
    // With two hops allowed the chain is out of reach.
    let short = Verifier::new(&v, config(2));
    let r2 = short.verify_claim_at(&claim("Root", "continent", "Target"), NOW, &no_numbers);
    assert!(matches!(r2.status, VerificationStatus::Unverifiable));
}

#[test]
fn inference_reports_a_shortest_chain() {
    // Root → A → B → Target (three relations), Root → C → Target (two).
    let v = chain_vault(
        &[(1, "Root"), (10, "A"), (11, "B"), (12, "C"), (14, "Target")],
        &[(21, 1, 10, 8), (22, 1, 12, 8), (23, 10, 11, 8), (24, 11, 14, 4), (25, 12, 14, 4)],
    );
    let verifier = Verifier::new(&v, config(3));
    let r = verifier.verify_claim_at(&claim("Root", "continent", "Target"), NOW, &no_numbers);
    match r.resolution_method {
        ResolutionMethod::Inference { hops, chain } => {
            assert_eq!(hops, 2);
            assert_eq!(chain, vec![RelationId(22), RelationId(25)]);
        }
        other => panic!("expected inference, got {:?}", other),
    }
}
