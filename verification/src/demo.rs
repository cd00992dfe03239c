//! The built-in demonstration vault: a few countries, their capitals and
//! Brazil's population.

use vstd::prelude::*;
use vstd::string::StringExecFns;
use crate::graph::index_labels;
use crate::geography::{geography_predicate, make_geography_predicate};
use crate::import::primary_label;
use crate::types::{
    Confidence, Domain, DomainConfig, DomainId, Entity, EntityId, EntityKind, FloatBits, Label,
    PredicateId, Relation, RelationId, SourceKind, SourceRef, Unit, Value, FLOAT_ONE,
    FLOAT_THREE_HUNDREDTHS,
};
use crate::vault::Vault;

verus! {

/// The bit pattern of 203,100,000.0, Brazil's population at the 2022 census.
pub const BRAZIL_POPULATION_2022: u64 = 0x41a8_361e_c000_0000u64;

/// `labels` are primary labels with the given texts and languages, in order.
pub open spec fn labels_are(labels: Seq<Label>, texts: Seq<(Seq<char>, Seq<char>)>) -> bool {
    &&& labels.len() == texts.len()
    &&& forall|i: int| 0 <= i < labels.len() ==> #[trigger] primary_label(labels[i], texts[i].0, texts[i].1)
}

/// The kind (identifier and name) and labels of demonstration entity `id`
/// (1 to 6).
pub open spec fn demo_entity_data(id: u64) -> (u32, Seq<char>, Seq<(Seq<char>, Seq<char>)>) {
    if id == 1 {
        (1, "country"@, seq![("Brazil"@, "en"@), ("Brasil"@, "pt"@)])
    } else if id == 2 {
        (2, "city"@, seq![("Brasília"@, "pt"@), ("Brasilia"@, "en"@)])
    } else if id == 3 {
        (1, "country"@, seq![("France"@, "en"@), ("França"@, "pt"@)])
    } else if id == 4 {
        (2, "city"@, seq![("Paris"@, "en"@)])
    } else if id == 5 {
        (1, "country"@, seq![("Japan"@, "en"@), ("Japão"@, "pt"@)])
    } else {
        (2, "city"@, seq![("Tokyo"@, "en"@), ("Tóquio"@, "pt"@)])
    }
}

/// `e` is demonstration entity `id`.
pub open spec fn demo_entity(e: Entity, id: u64) -> bool {
    let (kind_id, kind_name, labels) = demo_entity_data(id);
    &&& e.id == EntityId(id)
    &&& e.kind.id == kind_id
    &&& e.kind.name@ == kind_name
    &&& e.kind.parent is None
    &&& labels_are(e.labels@, labels)
    &&& e.domain == DomainId(1)
}

/// The label index after the entities `1..=n` of `entities` were added, in
/// order, to `m`.
pub open spec fn labels_after(m: Map<Seq<char>, EntityId>, entities: Map<u64, Entity>, n: nat) -> Map<Seq<char>, EntityId>
    decreases n,
{
    if n == 0 {
        m
    } else {
        let prev = labels_after(m, entities, (n - 1) as nat);
        index_labels(prev, entities[n as u64].labels@, EntityId(n as u64))
    }
}

/// `s` is the source `kind`, `name`, `locator`, dated `date`.
pub open spec fn source_is(s: SourceRef, kind: SourceKind, name: Seq<char>, locator: Seq<char>, date: i64) -> bool {
    &&& s.kind == kind
    &&& s.name@ == name
    &&& s.locator@ == locator
    &&& s.date == Some(date)
}

/// The subject, predicate, value, validity start and timestamp of the
/// demonstration relation `id` (1 to 4).
pub open spec fn demo_fact(id: u64) -> (u64, u32, Value, Option<i64>, i64) {
    if id == 1 {
        (1, 1, Value::Entity(EntityId(2)), Some(-315619200i64), 1711929600i64)
    } else if id == 2 {
        (
            1,
            2,
            Value::Number { value: FloatBits(BRAZIL_POPULATION_2022), unit: Unit::Count },
            Some(1659312000i64),
            1659312000i64,
        )
    } else if id == 3 {
        (3, 1, Value::Entity(EntityId(4)), None, 1711929600i64)
    } else {
        (5, 1, Value::Entity(EntityId(6)), None, 1711929600i64)
    }
}

/// `r` is demonstration relation `id`: Brazil's capital (from IBGE), its
/// population (from the 2022 census), France's and Japan's capitals (from
/// Wikidata), all verified, in the geography domain, still valid.
pub open spec fn demo_relation(r: Relation, id: u64) -> bool {
    let (subject, predicate, value, valid_from, timestamp) = demo_fact(id);
    &&& r.id == RelationId(id)
    &&& r.subject == EntityId(subject)
    &&& r.predicate == PredicateId(predicate)
    &&& r.value == value
    &&& r.confidence == Confidence::Verified
    &&& r.domain == DomainId(1)
    &&& r.valid_from == valid_from
    &&& r.valid_until is None
    &&& r.timestamp == timestamp
    &&& if id == 1 {
        source_is(r.source, SourceKind::Official, "IBGE"@, "https://ibge.gov.br"@, 1711929600)
    } else if id == 2 {
        source_is(
            r.source,
            SourceKind::Official,
            "IBGE Census 2022"@,
            "https://censo2022.ibge.gov.br"@,
            1659312000,
        )
    } else {
        source_is(r.source, SourceKind::KnowledgeBase, "Wikidata"@, "https://wikidata.org"@, 1711929600)
    }
}

fn label(text: &str, language: &str) -> (l: Label)
    ensures
        primary_label(l, text@, language@),
{
    Label { text: String::from_str(text), language: String::from_str(language), primary: true }
}

fn demo_entity_of(id: u64) -> (e: Entity)
    requires
        1 <= id <= 6,
    ensures
        demo_entity(e, id),
{
    let mut labels: Vec<Label> = Vec::new();
    let kind_id: u32;
    let kind_name: &str;
    if id == 1 {
        kind_id = 1;
        kind_name = "country";
        labels.push(label("Brazil", "en"));
        labels.push(label("Brasil", "pt"));
    } else if id == 2 {
        kind_id = 2;
        kind_name = "city";
        labels.push(label("Brasília", "pt"));
        labels.push(label("Brasilia", "en"));
    } else if id == 3 {
        kind_id = 1;
        kind_name = "country";
        labels.push(label("France", "en"));
        labels.push(label("França", "pt"));
    } else if id == 4 {
        kind_id = 2;
        kind_name = "city";
        labels.push(label("Paris", "en"));
    } else if id == 5 {
        kind_id = 1;
        kind_name = "country";
        labels.push(label("Japan", "en"));
        labels.push(label("Japão", "pt"));
    } else {
        kind_id = 2;
        kind_name = "city";
        labels.push(label("Tokyo", "en"));
        labels.push(label("Tóquio", "pt"));
    }
    let e = Entity {
        id: EntityId(id),
        kind: EntityKind { id: kind_id, name: String::from_str(kind_name), parent: None },
        labels,
        domain: DomainId(1),
    };
    let ghost texts = demo_entity_data(id).2;
    assert forall|i: int| 0 <= i < e.labels@.len() implies #[trigger] primary_label(e.labels@[i], texts[i].0, texts[i].1) by {
        if i == 0 {
        } else {
        }
    }
    e
}

fn source(kind: SourceKind, name: &str, locator: &str, date: i64) -> (s: SourceRef)
    ensures
        source_is(s, kind, name@, locator@, date),
{
    SourceRef { kind, name: String::from_str(name), locator: String::from_str(locator), date: Some(date) }
}

fn demo_relation_of(id: u64) -> (r: Relation)
    requires
        1 <= id <= 4,
    ensures
        demo_relation(r, id),
{
    if id == 1 {
        Relation {
            id: RelationId(1),
            subject: EntityId(1),
            predicate: PredicateId(1),
            value: Value::Entity(EntityId(2)),
            confidence: Confidence::Verified,
            source: source(SourceKind::Official, "IBGE", "https://ibge.gov.br", 1711929600),
            domain: DomainId(1),
            valid_from: Some(-315619200),
            valid_until: None,
            timestamp: 1711929600,
        }
    } else if id == 2 {
        Relation {
            id: RelationId(2),
            subject: EntityId(1),
            predicate: PredicateId(2),
            value: Value::Number { value: FloatBits(BRAZIL_POPULATION_2022), unit: Unit::Count },
            confidence: Confidence::Verified,
            source: source(
                SourceKind::Official,
                "IBGE Census 2022",
                "https://censo2022.ibge.gov.br",
                1659312000,
            ),
            domain: DomainId(1),
            valid_from: Some(1659312000),
            valid_until: None,
            timestamp: 1659312000,
        }
    } else {
        let (subject, target) = if id == 3 {
            (3u64, 4u64)
        } else {
            (5u64, 6u64)
        };
        Relation {
            id: RelationId(id),
            subject: EntityId(subject),
            predicate: PredicateId(1),
            value: Value::Entity(EntityId(target)),
            confidence: Confidence::Verified,
            source: source(SourceKind::KnowledgeBase, "Wikidata", "https://wikidata.org", 1711929600),
            domain: DomainId(1),
            valid_from: None,
            valid_until: None,
            timestamp: 1711929600,
        }
    }
}

/// `d` is the demonstration's geography domain: identifier 1, no parent,
/// 180 days of cache, 3% numeric tolerance, exact dates, 1 km for
/// coordinates.
pub open spec fn demo_domain(d: Domain) -> bool {
    &&& d.id == DomainId(1)
    &&& d.name@ == "geography"@
    &&& d.parent is None
    &&& d.config.cache_ttl_secs == 180 * 24 * 3600
    &&& d.config.numeric_tolerance == FloatBits(FLOAT_THREE_HUNDREDTHS)
    &&& d.config.date_tolerance_days == 0
    &&& d.config.coordinate_tolerance_km == FloatBits(FLOAT_ONE)
}

/// The demonstration vault, version "demo-v0.1": the predicates capital (1)
/// and population (2), entities 1 to 6 (Brazil, Brasília, France, Paris,
/// Japan, Tokyo) with their labels, and relations 1 to 4.
pub fn build_demo_vault() -> (v: Vault)
    ensures
        v.graph.wf(),
        demo_domain(v.domain),
        v.version@ == "demo-v0.1"@,
        v.graph@.predicates.dom() == set![1u32, 2u32],
        geography_predicate(v.graph@.predicates[1], 1),
        geography_predicate(v.graph@.predicates[2], 2),
        v.graph@.entities.dom() == Set::new(|k: u64| 1 <= k <= 6),
        forall|k: u64| 1 <= k <= 6 ==> #[trigger] demo_entity(v.graph@.entities[k], k),
        v.graph@.labels == labels_after(Map::empty(), v.graph@.entities, 6),
        v.graph@.relations.len() == 4,
        forall|i: int| 0 <= i < 4 ==> #[trigger] demo_relation(v.graph@.relations[i], (i + 1) as u64),
{
    let domain = Domain {
        id: DomainId(1),
        name: String::from_str("geography"),
        parent: None,
        config: DomainConfig {
            cache_ttl_secs: 180 * 24 * 3600,
            numeric_tolerance: FloatBits(FLOAT_THREE_HUNDREDTHS),
            date_tolerance_days: 0,
            coordinate_tolerance_km: FloatBits(FLOAT_ONE),
        },
    };
    let mut vault = Vault::new(domain, String::from_str("demo-v0.1"));
    vault.add_predicate(make_geography_predicate(1));
    vault.add_predicate(make_geography_predicate(2));
    assert(vault.graph@.predicates.dom() =~= set![1u32, 2u32]);
    let mut id: u64 = 1;
    while id <= 6
        invariant
            1 <= id <= 7,
            vault.graph.wf(),
            demo_domain(vault.domain),
            vault.version@ == "demo-v0.1"@,
            vault.graph@.predicates.dom() == set![1u32, 2u32],
            geography_predicate(vault.graph@.predicates[1], 1),
            geography_predicate(vault.graph@.predicates[2], 2),
            vault.graph@.entities.dom() == Set::new(|k: u64| 1 <= k < id),
            forall|k: u64| 1 <= k < id ==> #[trigger] demo_entity(vault.graph@.entities[k], k),
            vault.graph@.labels == labels_after(Map::empty(), vault.graph@.entities, (id - 1) as nat),
            vault.graph@.relations.len() == 0,
        decreases 7 - id,
    {
        let ghost before = vault.graph@.entities;
        vault.add_entity(demo_entity_of(id));
        proof {
            lemma_labels_after_frame(Map::empty(), before, vault.graph@.entities, (id - 1) as nat);
        }
        assert(vault.graph@.entities.dom() =~= Set::new(|k: u64| 1 <= k < id + 1));
        id = id + 1;
    }
    let mut r: u64 = 1;
    while r <= 4
        invariant
            1 <= r <= 5,
            vault.graph.wf(),
            demo_domain(vault.domain),
            vault.version@ == "demo-v0.1"@,
            vault.graph@.predicates.dom() == set![1u32, 2u32],
            geography_predicate(vault.graph@.predicates[1], 1),
            geography_predicate(vault.graph@.predicates[2], 2),
            vault.graph@.entities.dom() == Set::new(|k: u64| 1 <= k <= 6),
            forall|k: u64| 1 <= k <= 6 ==> #[trigger] demo_entity(vault.graph@.entities[k], k),
            vault.graph@.labels == labels_after(Map::empty(), vault.graph@.entities, 6),
            vault.graph@.relations.len() == r - 1,
            forall|i: int| 0 <= i < r - 1 ==> #[trigger] demo_relation(vault.graph@.relations[i], (i + 1) as u64),
        decreases 5 - r,
    {
        vault.add_relation(demo_relation_of(r));
        r = r + 1;
    }
    vault
}

proof fn lemma_labels_after_frame(m: Map<Seq<char>, EntityId>, a: Map<u64, Entity>, b: Map<u64, Entity>, n: nat)
    requires
        forall|k: u64| 1 <= k <= n ==> a[k] == b[k],
        n < 0x1_0000_0000,
    ensures
        labels_after(m, a, n) == labels_after(m, b, n),
    decreases n,
{
    if n > 0 {
        lemma_labels_after_frame(m, a, b, (n - 1) as nat);
        assert(a[n as u64] == b[n as u64]);
    }
}

} // verus!
