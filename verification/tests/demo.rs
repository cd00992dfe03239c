use parallaxis::claim::Claim;
use parallaxis::demo::build_demo_vault;
use parallaxis::fact_check::{NumberJudgement, NumberQuery, ValueMatch, Verifier, VerifierConfig};
use parallaxis::protocol::ask;
use parallaxis::types::{Confidence, EntityId, FloatBits, PredicateId, RelationId};
use parallaxis::verification::{ResolutionMethod, VerificationStatus};

/// 2026-05-01, well over a year after the 2022 census.
const NOW_2026: i64 = 1_777_593_600;
/// 2023-01-01, within a year of the 2022 census.
const NOW_2023: i64 = 1_672_531_200;
/// 2024-12-01, within a year of the sources dated 2024-04-01.
const NOW_2024: i64 = 1_733_011_200;

fn judge(q: NumberQuery) -> NumberJudgement {
    let vault = f64::from_bits(q.vault_value.0);
    let tolerance = f64::from_bits(q.tolerance.0);
    let outcome = match q.claim_value.parse::<f64>() {
        Ok(claimed) => {
            if claimed == vault {
                Some(ValueMatch::Exact)
            } else {
                let deviation = if vault != 0.0 {
                    ((claimed - vault) / vault).abs()
                } else {
                    f64::INFINITY
                };
                if deviation <= tolerance {
                    Some(ValueMatch::WithinTolerance { deviation: FloatBits(deviation.to_bits()) })
                } else {
                    Some(ValueMatch::OutOfTolerance { deviation: FloatBits(deviation.to_bits()) })
                }
            }
        }
        Err(_) => None,
    };
    NumberJudgement { outcome, vault_text: format!("{}", vault) }
}

fn write_number(x: FloatBits) -> String {
    format!("{}", f64::from_bits(x.0))
}

fn claim(subject: &str, predicate: &str, object: &str, text: &str) -> Claim {
    Claim {
        original_text: text.to_string(),
        span_start: 0,
        span_end: text.len(),
        subject: subject.to_string(),
        predicate: predicate.to_string(),
        object: object.to_string(),
        conditions: vec![],
        extraction_confidence: FloatBits(1.0f64.to_bits()),
    }
}

#[test]
fn demo_vault_counts() {
    let vault = build_demo_vault();
    assert_eq!(vault.entity_count(), 6);
    assert_eq!(vault.relation_count(), 4);
    assert_eq!(vault.version, "demo-v0.1");
    assert_eq!(vault.domain.name, "geography");
    assert_eq!(f64::from_bits(vault.domain.config.numeric_tolerance.0), 0.03);
    assert_eq!(vault.graph.all_predicates().len(), 2);
}

#[test]
fn brasilia_is_confirmed_with_ibge() {
    let vault = build_demo_vault();
    let verifier = Verifier::new(&vault, VerifierConfig::default());
    let c = claim("Brazil", "capital", "Brasília", "Brasília is the capital of Brazil");
    let r = verifier.verify_claim_at(&c, NOW_2026, &judge);
    assert!(matches!(r.resolution_method, ResolutionMethod::DirectLookup));
    match r.status {
        VerificationStatus::Confirmed { source, confidence, vault_relation } => {
            assert_eq!(source.name, "IBGE");
            assert_eq!(source.locator, "https://ibge.gov.br");
            assert_eq!(confidence, Confidence::Verified);
            assert_eq!(vault_relation, RelationId(1));
        }
        other => panic!("expected confirmed, got {:?}", other),
    }
    assert_eq!(r.original_text, "Brasília is the capital of Brazil");
    assert_eq!(r.span_end, "Brasília is the capital of Brazil".len());
}

#[test]
fn rio_is_contradicted_with_brasilia() {
    let vault = build_demo_vault();
    let verifier = Verifier::new(&vault, VerifierConfig::default());
    let c = claim("Brazil", "capital", "Rio de Janeiro", "Rio de Janeiro is the capital of Brazil");
    let r = verifier.verify_claim_at(&c, NOW_2024, &judge);
    match r.status {
        VerificationStatus::Contradicted { vault_value, source, explanation } => {
            assert_eq!(vault_value, "Brasília");
            assert_eq!(source.name, "IBGE");
            assert!(explanation.is_none());
        }
        other => panic!("expected contradicted, got {:?}", other),
    }
}

#[test]
fn paris_is_confirmed_with_wikidata() {
    let vault = build_demo_vault();
    let verifier = Verifier::new(&vault, VerifierConfig::default());
    let c = claim("France", "capital", "Paris", "Paris is the capital of France");
    let r = verifier.verify_claim_at(&c, NOW_2026, &judge);
    match r.status {
        VerificationStatus::Confirmed { source, vault_relation, .. } => {
            assert_eq!(source.name, "Wikidata");
            assert_eq!(vault_relation, RelationId(3));
        }
        other => panic!("expected confirmed, got {:?}", other),
    }
}

#[test]
fn beijing_is_contradicted_with_tokyo() {
    let vault = build_demo_vault();
    let verifier = Verifier::new(&vault, VerifierConfig::default());
    let c = claim("Japan", "capital", "Beijing", "Beijing is the capital of Japan");
    let r = verifier.verify_claim_at(&c, NOW_2024, &judge);
    match r.status {
        VerificationStatus::Contradicted { vault_value, .. } => assert_eq!(vault_value, "Tokyo"),
        other => panic!("expected contradicted, got {:?}", other),
    }
}

#[test]
fn rio_against_old_source_is_divergent_not_contradicted() {
    let vault = build_demo_vault();
    let verifier = Verifier::new(&vault, VerifierConfig::default());
    let c = claim("Brazil", "capital", "Rio de Janeiro", "Rio de Janeiro is the capital of Brazil");
    let r = verifier.verify_claim_at(&c, NOW_2026, &judge);
    match r.status {
        VerificationStatus::Divergent { claim_value, vault_value, vault_source_date, age_warning } => {
            assert_eq!(claim_value, "Rio de Janeiro");
            assert_eq!(vault_value, "Brasília");
            assert_eq!(vault_source_date, "timestamp:1711929600");
            assert_eq!(age_warning, "⚠️ Vault data is over 1 year old");
        }
        other => panic!("expected divergent, got {:?}", other),
    }
}

#[test]
fn population_with_old_census_is_divergent() {
    let vault = build_demo_vault();
    let verifier = Verifier::new(&vault, VerifierConfig::default());
    let c = claim("Brazil", "population", "215000000", "Brazil has a population of 215 million");
    let r = verifier.verify_claim_at(&c, NOW_2026, &judge);
    match r.status {
        VerificationStatus::Divergent { claim_value, vault_value, vault_source_date, age_warning } => {
            assert_eq!(claim_value, "215000000");
            assert_eq!(vault_value, "203100000");
            assert_eq!(vault_source_date, "timestamp:1659312000");
            assert_eq!(age_warning, "⚠️ Vault data is over 1 year old");
        }
        other => panic!("expected divergent, got {:?}", other),
    }
}

#[test]
fn population_with_recent_census_is_contradicted() {
    let vault = build_demo_vault();
    let verifier = Verifier::new(&vault, VerifierConfig::default());
    let c = claim("Brazil", "population", "215000000", "Brazil has a population of 215 million");
    let r = verifier.verify_claim_at(&c, NOW_2023, &judge);
    match r.status {
        VerificationStatus::Contradicted { vault_value, source, .. } => {
            assert_eq!(vault_value, "203100000");
            assert_eq!(source.name, "IBGE Census 2022");
        }
        other => panic!("expected contradicted, got {:?}", other),
    }
}

#[test]
fn population_close_to_census_is_imprecise() {
    let vault = build_demo_vault();
    let verifier = Verifier::new(&vault, VerifierConfig::default());
    let c = claim("Brasil", "inhabitants", "205000000", "O Brasil tem 205 milhões de habitantes");
    let r = verifier.verify_claim_at(&c, NOW_2026, &judge);
    match r.status {
        VerificationStatus::Imprecise { claim_value, vault_value, deviation, .. } => {
            assert_eq!(claim_value, "205000000");
            assert_eq!(vault_value, "203100000");
            let d = f64::from_bits(deviation.0);
            assert!((d - 1_900_000.0 / 203_100_000.0).abs() < 1e-12);
        }
        other => panic!("expected imprecise, got {:?}", other),
    }
}

#[test]
fn population_exact_is_confirmed() {
    let vault = build_demo_vault();
    let verifier = Verifier::new(&vault, VerifierConfig::default());
    let c = claim("brazil", "POPULATION", "203100000", "Brazil has 203.1 million people");
    let r = verifier.verify_claim_at(&c, NOW_2026, &judge);
    match r.status {
        VerificationStatus::Confirmed { vault_relation, .. } => assert_eq!(vault_relation, RelationId(2)),
        other => panic!("expected confirmed, got {:?}", other),
    }
}

#[test]
fn population_in_words_is_unverifiable() {
    let vault = build_demo_vault();
    let verifier = Verifier::new(&vault, VerifierConfig::default());
    let c = claim("Brazil", "population", "215 million", "Brazil has 215 million people");
    let r = verifier.verify_claim_at(&c, NOW_2026, &judge);
    assert!(matches!(r.status, VerificationStatus::Unverifiable));
    assert!(matches!(r.resolution_method, ResolutionMethod::DirectLookup));
}

#[test]
fn unknown_subject_is_unverifiable_not_found() {
    let vault = build_demo_vault();
    let verifier = Verifier::new(&vault, VerifierConfig::default());
    let c = claim("Atlantis", "capital", "Poseidonia", "Poseidonia is the capital of Atlantis");
    let r = verifier.verify_claim_at(&c, NOW_2026, &judge);
    assert!(matches!(r.status, VerificationStatus::Unverifiable));
    assert!(matches!(r.resolution_method, ResolutionMethod::NotFound));
}

#[test]
fn verify_claim_reads_the_clock() {
    let vault = build_demo_vault();
    let verifier = Verifier::new(&vault, VerifierConfig::default());
    let c = claim("Brazil", "population", "215000000", "Brazil has a population of 215 million");
    let r = verifier.verify_claim(&c, &judge);
    // The census is from 2022: any clock after 2023-08 finds it old.
    assert!(matches!(r.status, VerificationStatus::Divergent { .. }));
}

#[test]
fn ask_capital_of_brazil() {
    let vault = build_demo_vault();
    let r = ask(&vault, "What is the capital of Brazil?".to_string(), &write_number);
    assert!(r.found);
    assert_eq!(r.question, "What is the capital of Brazil?");
    assert_eq!(r.answer.as_deref(), Some("Brasília"));
    assert_eq!(r.source.as_deref(), Some("IBGE"));
    assert_eq!(r.confidence.as_deref(), Some("Verified"));
}

#[test]
fn ask_in_portuguese() {
    let vault = build_demo_vault();
    let r = ask(&vault, "Qual é a capital da França?".to_string(), &write_number);
    assert!(r.found);
    assert_eq!(r.answer.as_deref(), Some("Paris"));
    assert_eq!(r.source.as_deref(), Some("Wikidata"));
}

#[test]
fn ask_population_writes_number_and_unit() {
    let vault = build_demo_vault();
    let r = ask(&vault, "what's the population of brasil".to_string(), &write_number);
    assert!(r.found);
    assert_eq!(r.answer.as_deref(), Some("203100000 Count"));
}

#[test]
fn ask_unknown_is_not_found() {
    let vault = build_demo_vault();
    let r = ask(&vault, "Who wrote Dom Casmurro?".to_string(), &write_number);
    assert!(!r.found);
    assert!(r.answer.is_none());
    assert!(r.source.is_none());
    assert!(r.confidence.is_none());
}

#[test]
fn demo_labels_find_entities_in_both_languages() {
    let vault = build_demo_vault();
    assert_eq!(vault.find_entity_by_label("BRASIL").map(|e| e.id), Some(EntityId(1)));
    assert_eq!(vault.find_entity_by_label("brasilia").map(|e| e.id), Some(EntityId(2)));
    assert_eq!(vault.find_entity_by_label("Tóquio").map(|e| e.id), Some(EntityId(6)));
    assert_eq!(vault.find_predicate("seat_of_government").map(|p| p.id), Some(PredicateId(1)));
    assert!(vault.find_entity_by_label("Lisbon").is_none());
}
