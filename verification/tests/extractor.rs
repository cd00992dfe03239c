use parallaxis::claim::ExtractionWarning;
use parallaxis::extractor::{
    build_prompt, extract_json, extraction_from_reply, self_check, ExtractedTriple, SimpleExtractor,
    CLAIM_CONFIDENCE_BITS, EXTRACTION_CONFIDENCE_BITS,
};
use parallaxis::types::{DomainId, FloatBits, Predicate, PredicateId, PredicateKind, Ratio, ValueType};

fn triple(subject: &str, predicate: &str, object: &str, span: &str) -> ExtractedTriple {
    ExtractedTriple {
        subject: subject.to_string(),
        predicate: predicate.to_string(),
        object: object.to_string(),
        conditions: vec![],
        original_span: span.to_string(),
    }
}

fn predicate(name: &str, aliases: &[&str]) -> Predicate {
    Predicate {
        id: PredicateId(1),
        name: name.to_string(),
        kind: PredicateKind::Relation,
        expected_value_type: ValueType::Entity,
        expected_unit: None,
        aliases: aliases.iter().map(|a| a.to_string()).collect(),
        domain: DomainId(1),
        verification_threshold: None,
    }
}

#[test]
fn simple_extractor_makes_one_empty_claim() {
    let r = SimpleExtractor.extract("Água ferve a 100°C", &[]).unwrap();
    assert_eq!(r.original_text, "Água ferve a 100°C");
    assert_eq!(r.claims.len(), 1);
    let c = &r.claims[0];
    assert_eq!(c.span_start, 0);
    assert_eq!(c.span_end, "Água ferve a 100°C".len());
    assert!(c.subject.is_empty() && c.predicate.is_empty() && c.object.is_empty());
    assert_eq!(r.confidence, FloatBits(0));
    assert!(r.warnings.is_empty());
}

#[test]
fn json_is_taken_from_a_json_fence() {
    let reply = "Here you go:\n```json\n {\"triples\": []} \n```\nBye";
    assert_eq!(extract_json(reply), "{\"triples\": []}");
}

#[test]
fn json_is_taken_from_a_plain_fence() {
    assert_eq!(extract_json("```\n[1, 2]\n```"), "[1, 2]");
}

#[test]
fn json_is_taken_between_braces() {
    assert_eq!(extract_json("Sure! {\"a\": {\"b\": 1}} hope it helps"), "{\"a\": {\"b\": 1}}");
}

#[test]
fn json_falls_back_to_trimmed_reply() {
    assert_eq!(extract_json("  no json here \n"), "no json here");
}

#[test]
fn self_check_flags_spans_not_in_text() {
    let text = "Brasília is the capital of Brazil.";
    let triples = vec![
        triple("Brazil", "capital", "Brasília", "BRASÍLIA is the capital"),
        triple("Brazil", "population", "215000000", "215 million people"),
        triple("Brazil", "continent", "South America", ""),
    ];
    let w = self_check(text, &triples);
    assert_eq!(w.len(), 1);
    match &w[0] {
        ExtractionWarning::ContextLoss { original_segment, reconstructed } => {
            assert_eq!(original_segment, "215 million people");
            assert_eq!(reconstructed, "Brazil population 215000000");
        }
        other => panic!("unexpected {:?}", other),
    }
}

#[test]
fn self_check_flags_hedged_text() {
    let text = "Maybe Paris is possibly the capital";
    let w = self_check(text, &vec![]);
    assert_eq!(w.len(), 1);
    match &w[0] {
        ExtractionWarning::HighHedging { hedge_ratio } => assert_eq!(*hedge_ratio, Ratio { num: 2, den: 6 }),
        other => panic!("unexpected {:?}", other),
    }
    assert!(self_check("Paris is the capital of France", &vec![]).is_empty());
    assert!(self_check("", &vec![]).is_empty());
}

#[test]
fn reply_becomes_claims_with_byte_spans() {
    let text = "Sobre o Brasil: Brasília é a capital.";
    let triples = vec![
        triple("Brasil", "capital", "Brasília", "Brasília é a capital"),
        triple("Brasil", "continent", "South America", ""),
    ];
    let e = extraction_from_reply(text, &triples, &vec!["ambiguous pronoun".to_string()]);
    assert_eq!(e.claims.len(), 2);
    let c = &e.claims[0];
    assert_eq!(c.original_text, "Brasília é a capital");
    assert_eq!(c.span_start, text.find("Brasília").unwrap());
    assert_eq!(&text[c.span_start..c.span_end], "Brasília é a capital");
    assert_eq!(c.extraction_confidence, FloatBits(CLAIM_CONFIDENCE_BITS));
    let d = &e.claims[1];
    assert_eq!(d.original_text, "Brasil continent South America");
    assert_eq!(d.span_start, 0);
    assert_eq!(d.span_end, "Brasil continent South America".len());
    assert_eq!(e.confidence, FloatBits(EXTRACTION_CONFIDENCE_BITS));
    assert_eq!(f64::from_bits(EXTRACTION_CONFIDENCE_BITS), 0.85);
    assert_eq!(f64::from_bits(CLAIM_CONFIDENCE_BITS), 0.9);
    assert_eq!(e.warnings.len(), 1);
    match &e.warnings[0] {
        ExtractionWarning::AmbiguousDecomposition { text: t, reason } => {
            assert_eq!(t, text);
            assert_eq!(reason, "ambiguous pronoun");
        }
        other => panic!("unexpected {:?}", other),
    }
}

#[test]
fn empty_reply_has_zero_confidence() {
    let e = extraction_from_reply("x", &vec![], &vec![]);
    assert!(e.claims.is_empty());
    assert_eq!(e.confidence, FloatBits(0));
}

#[test]
fn prompt_lists_predicates_and_text() {
    let p = build_prompt("Paris is nice", &[predicate("capital", &["capital_city", "seat"]), predicate("area", &[])]);
    assert!(p.starts_with("You are a factual claim extractor."));
    assert!(p.contains("Available predicates in the knowledge base:\n  - capital (aliases: capital_city, seat)\n  - area\n\nRules:"));
    assert!(p.ends_with("Text to analyze:\n\"Paris is nice\"\n"));
    assert!(p.contains("\"original_span\": \"the exact text this claim comes from\""));
}

#[test]
fn reply_with_braces_reversed_cannot_be_cut() {
    assert!(!parallaxis::extractor::json_part_is_defined("} oops {"));
    assert!(parallaxis::extractor::json_part_is_defined("```\n} {\n```"));
    assert!(parallaxis::extractor::json_part_is_defined("{}"));
    assert!(parallaxis::extractor::json_part_is_defined("nothing"));
}
