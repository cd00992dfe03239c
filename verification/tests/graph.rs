use parallaxis::graph::KnowledgeGraph;
use parallaxis::types::{
    Confidence, DomainConfig, DomainId, Entity, EntityId, EntityKind, FloatBits, Label, Predicate,
    PredicateId, PredicateKind, Relation, RelationId, SourceKind, SourceRef, Value, ValueType,
};
use parallaxis::vault::{Vault, VaultQuery};
use parallaxis::types::Domain;

fn entity(id: u64, labels: &[(&str, &str)]) -> Entity {
    Entity {
        id: EntityId(id),
        kind: EntityKind { id: 1, name: "country".to_string(), parent: None },
        labels: labels
            .iter()
            .map(|(t, l)| Label { text: t.to_string(), language: l.to_string(), primary: true })
            .collect(),
        domain: DomainId(1),
    }
}

fn source() -> SourceRef {
    SourceRef {
        kind: SourceKind::Official,
        name: "IBGE".to_string(),
        locator: "https://ibge.gov.br".to_string(),
        date: Some(1_711_929_600),
    }
}

fn relation(id: u64, subject: u64, predicate: u32, value: Value) -> Relation {
    Relation {
        id: RelationId(id),
        subject: EntityId(subject),
        predicate: PredicateId(predicate),
        value,
        confidence: Confidence::Verified,
        source: source(),
        domain: DomainId(1),
        valid_from: None,
        valid_until: None,
        timestamp: 0,
    }
}

fn capital_predicate() -> Predicate {
    Predicate {
        id: PredicateId(1),
        name: "capital".to_string(),
        kind: PredicateKind::Relation,
        expected_value_type: ValueType::Entity,
        expected_unit: None,
        aliases: vec!["capital_city".to_string(), "Seat_Of_Government".to_string()],
        domain: DomainId(1),
        verification_threshold: None,
    }
}

fn domain() -> Domain {
    Domain { id: DomainId(1), name: "geography".to_string(), parent: None, config: DomainConfig::default() }
}

#[test]
fn new_graph_is_empty() {
    let g = KnowledgeGraph::new();
    assert_eq!(g.entity_count(), 0);
    assert_eq!(g.relation_count(), 0);
    assert!(g.all_relations().is_empty());
    assert!(g.all_entities().is_empty());
    assert!(g.all_predicates().is_empty());
    let d = KnowledgeGraph::default();
    assert_eq!(d.entity_count(), 0);
}

#[test]
fn labels_are_found_case_insensitively() {
    let mut g = KnowledgeGraph::new();
    g.add_entity(entity(1, &[("Brazil", "en"), ("Brasil", "pt")]));
    assert_eq!(g.find_entity_by_label("brazil").map(|e| e.id), Some(EntityId(1)));
    assert_eq!(g.find_entity_by_label("BRASIL").map(|e| e.id), Some(EntityId(1)));
    assert!(g.find_entity_by_label("Brasilia").is_none());
}

#[test]
fn later_entity_takes_over_a_shared_label() {
    let mut g = KnowledgeGraph::new();
    g.add_entity(entity(1, &[("Georgia", "en")]));
    g.add_entity(entity(2, &[("georgia", "en")]));
    assert_eq!(g.find_entity_by_label("Georgia").map(|e| e.id), Some(EntityId(2)));
    assert_eq!(g.entity_count(), 2);
}

#[test]
fn predicates_are_found_by_name_or_alias() {
    let mut g = KnowledgeGraph::new();
    g.add_predicate(capital_predicate());
    assert_eq!(g.find_predicate("Capital").map(|p| p.id), Some(PredicateId(1)));
    assert_eq!(g.find_predicate("seat_of_government").map(|p| p.id), Some(PredicateId(1)));
    assert!(g.find_predicate("population").is_none());
    assert_eq!(g.get_predicate(PredicateId(1)).map(|p| p.name.clone()), Some("capital".to_string()));
    assert!(g.get_predicate(PredicateId(2)).is_none());
}

#[test]
fn lookup_returns_relations_in_insertion_order() {
    let mut g = KnowledgeGraph::new();
    g.add_relation(relation(1, 1, 1, Value::Entity(EntityId(2))));
    g.add_relation(relation(2, 1, 2, Value::Boolean(true)));
    g.add_relation(relation(3, 1, 1, Value::Entity(EntityId(3))));
    g.add_relation(relation(4, 5, 1, Value::Entity(EntityId(2))));
    let ids: Vec<RelationId> = g.lookup(EntityId(1), PredicateId(1)).iter().map(|r| r.id).collect();
    assert_eq!(ids, vec![RelationId(1), RelationId(3)]);
    let from: Vec<RelationId> = g.relations_from(EntityId(1)).iter().map(|r| r.id).collect();
    assert_eq!(from, vec![RelationId(1), RelationId(2), RelationId(3)]);
    let to: Vec<RelationId> = g.relations_to(EntityId(2)).iter().map(|r| r.id).collect();
    assert_eq!(to, vec![RelationId(1), RelationId(4)]);
    assert!(g.lookup(EntityId(9), PredicateId(1)).is_empty());
    assert_eq!(g.relation_count(), 4);
}

#[test]
fn added_relation_is_found_by_lookup() {
    let mut g = KnowledgeGraph::new();
    g.add_relation(relation(1, 7, 3, Value::Text("x".to_string())));
    let before = g.lookup(EntityId(7), PredicateId(3)).len();
    g.add_relation(relation(2, 7, 3, Value::Text("y".to_string())));
    let after: Vec<RelationId> = g.lookup(EntityId(7), PredicateId(3)).iter().map(|r| r.id).collect();
    assert_eq!(after.len(), before + 1);
    assert_eq!(after.last(), Some(&RelationId(2)));
}

#[test]
fn label_mapping_adds_label_once() {
    let mut g = KnowledgeGraph::new();
    g.add_entity(entity(1, &[("Japan", "en")]));
    g.add_label_mapping("Japão", "pt", EntityId(1));
    assert_eq!(g.find_entity_by_label("japão").map(|e| e.id), Some(EntityId(1)));
    assert_eq!(g.get_entity(EntityId(1)).unwrap().labels.len(), 2);
    g.add_label_mapping("JAPÃO", "pt", EntityId(1));
    assert_eq!(g.get_entity(EntityId(1)).unwrap().labels.len(), 2);
    let last = g.get_entity(EntityId(1)).unwrap().labels.last().unwrap();
    assert_eq!(last.text, "Japão");
    assert_eq!(last.language, "pt");
    assert!(last.primary);
}

#[test]
fn label_mapping_to_missing_entity_only_indexes() {
    let mut g = KnowledgeGraph::new();
    g.add_label_mapping("Nowhere", "en", EntityId(42));
    assert!(g.find_entity_by_label("nowhere").is_none());
    assert_eq!(g.entity_count(), 0);
}

#[test]
fn vault_query_finds_relations() {
    let mut v = Vault::new(domain(), "test-v1".to_string());
    v.add_predicate(capital_predicate());
    v.add_entity(entity(1, &[("Brazil", "en")]));
    v.add_entity(entity(2, &[("Brasília", "pt")]));
    v.add_relation(relation(1, 1, 1, Value::Entity(EntityId(2))));
    let q = VaultQuery { subject_label: "brazil".to_string(), predicate_name: "capital_city".to_string() };
    let r = v.query(&q).unwrap().unwrap();
    assert_eq!(r.entity.id, EntityId(1));
    assert_eq!(r.predicate.id, PredicateId(1));
    assert_eq!(r.relations.len(), 1);
    assert_eq!(r.relations[0].id, RelationId(1));
}

#[test]
fn vault_query_without_relations_is_none() {
    let mut v = Vault::new(domain(), "test-v1".to_string());
    v.add_predicate(capital_predicate());
    v.add_entity(entity(1, &[("Brazil", "en")]));
    let q = VaultQuery { subject_label: "Brazil".to_string(), predicate_name: "capital".to_string() };
    assert!(v.query(&q).unwrap().is_none());
    let q2 = VaultQuery { subject_label: "Chile".to_string(), predicate_name: "capital".to_string() };
    assert!(v.query(&q2).unwrap().is_none());
    let q3 = VaultQuery { subject_label: "Brazil".to_string(), predicate_name: "anthem".to_string() };
    assert!(v.query(&q3).unwrap().is_none());
}

#[test]
fn vault_from_data_keeps_relation_order() {
    let rels = vec![
        relation(5, 1, 1, Value::Entity(EntityId(2))),
        relation(9, 2, 1, Value::Entity(EntityId(1))),
    ];
    let v = parallaxis::vault::vault_from_data(
        domain(),
        "v2".to_string(),
        vec![capital_predicate()],
        vec![entity(1, &[("A", "en")]), entity(2, &[("B", "en")])],
        rels,
    );
    assert_eq!(v.version, "v2");
    assert_eq!(v.entity_count(), 2);
    let ids: Vec<RelationId> = v.graph.all_relations().iter().map(|r| r.id).collect();
    assert_eq!(ids, vec![RelationId(5), RelationId(9)]);
    assert_eq!(v.relations_to(EntityId(1)).len(), 1);
    assert_eq!(v.relations_from(EntityId(1)).len(), 1);
    assert!(v.get_entity(EntityId(3)).is_none());
}

#[test]
fn number_value_keeps_its_bits() {
    let mut g = KnowledgeGraph::new();
    let bits = FloatBits(203_100_000.0f64.to_bits());
    g.add_relation(relation(1, 1, 2, Value::Number { value: bits, unit: parallaxis::types::Unit::Count }));
    match &g.all_relations()[0].value {
        Value::Number { value, .. } => assert_eq!(f64::from_bits(value.0), 203_100_000.0),
        _ => panic!("expected a number"),
    }
}

#[test]
fn rebuilt_vault_has_the_listed_entities_and_predicates() {
    let mut v = Vault::new(domain(), "v3".to_string());
    v.add_predicate(capital_predicate());
    v.add_entity(entity(1, &[("Brazil", "en"), ("Brasil", "pt")]));
    v.add_entity(entity(2, &[("Brasília", "pt")]));
    let entities: Vec<Entity> = v.graph.all_entities().into_iter().cloned().collect();
    let predicates: Vec<Predicate> = v.graph.all_predicates().into_iter().cloned().collect();
    let w = parallaxis::vault::vault_from_data(domain(), "v3".to_string(), predicates, entities, vec![]);
    assert_eq!(w.entity_count(), 2);
    assert_eq!(w.find_entity_by_label("brasil").map(|e| e.id), Some(EntityId(1)));
    assert_eq!(w.find_entity_by_label("BRASÍLIA").map(|e| e.id), Some(EntityId(2)));
    assert_eq!(w.find_predicate("capital_city").map(|p| p.id), Some(PredicateId(1)));
    assert_eq!(w.relation_count(), 0);
}
