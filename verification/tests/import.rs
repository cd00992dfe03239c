use parallaxis::geography::geography_vault;
use parallaxis::import::{
    extract_qid, import_countries, import_country_row, wikidata_source, wkt_point_fields, CountryRow, IdMap,
    RelationIds,
};
use parallaxis::lookups::{
    import_border_row, import_borders, import_capital_row, import_capitals, import_continent_row,
    import_continents, import_label_row, import_labels, BorderRow, CapitalRow, ContinentRow, LabelRow,
};
use parallaxis::states::{import_state_row, import_states, StateRow};
use parallaxis::text_index::TextIndex;
use parallaxis::types::{
    Confidence, EntityId, FloatBits, PredicateId, PredicateKind, RelationId, SourceKind, Unit, Value,
    ValueType,
};

const NOW: i64 = 1_750_000_000;

fn bits(x: f64) -> FloatBits {
    FloatBits(x.to_bits())
}

fn s(x: &str) -> Option<String> {
    Some(x.to_string())
}

fn brazil_row() -> CountryRow {
    CountryRow {
        country: s("http://www.wikidata.org/entity/Q155"),
        country_label: s("Brazil"),
        capital: s("http://www.wikidata.org/entity/Q2844"),
        capital_label: s("Brasília"),
        population: Some(bits(203_080_756.0)),
        area: Some(bits(8_515_767.0)),
        continent: s("http://www.wikidata.org/entity/Q18"),
        continent_label: s("South America"),
        language: s("http://www.wikidata.org/entity/Q750553"),
        language_label: s("Brazilian Portuguese"),
        currency: None,
        currency_label: None,
        coordinates: Some((bits(-14.0), bits(-53.0))),
    }
}

#[test]
fn qid_is_the_last_path_segment() {
    assert_eq!(extract_qid("http://www.wikidata.org/entity/Q155"), Some("Q155".to_string()));
    assert_eq!(extract_qid("Q42"), Some("Q42".to_string()));
    assert_eq!(extract_qid("http://x/"), Some("".to_string()));
}

#[test]
fn wkt_point_is_split_into_fields() {
    assert_eq!(
        wkt_point_fields("  Point(-47.8825 -15.7942) "),
        Some(("-47.8825".to_string(), "-15.7942".to_string()))
    );
    assert_eq!(wkt_point_fields("Point(1 2 3)"), Some(("1".to_string(), "2".to_string())));
    assert_eq!(wkt_point_fields("Point(1)"), None);
    assert_eq!(wkt_point_fields("Point()"), None);
    assert_eq!(wkt_point_fields("Point(1 2"), None);
    assert_eq!(wkt_point_fields("POINT(1 2)"), None);
}

#[test]
fn id_map_hands_out_ids_in_order() {
    let mut m = IdMap::new();
    assert_eq!(m.get_or_create("Q155"), EntityId(1));
    assert_eq!(m.get_or_create("Q142"), EntityId(2));
    assert_eq!(m.get_or_create("Q155"), EntityId(1));
    assert_eq!(m.get_or_create("Q17"), EntityId(3));
}

#[test]
fn relation_ids_count_from_one() {
    let mut r = RelationIds::new();
    assert_eq!(r.next_relation_id(), RelationId(1));
    assert_eq!(r.next_relation_id(), RelationId(2));
    assert_eq!(r.next, 3);
}

#[test]
fn source_is_wikidata_dated_now() {
    let src = wikidata_source(NOW);
    assert_eq!(src.kind, SourceKind::KnowledgeBase);
    assert_eq!(src.name, "Wikidata");
    assert_eq!(src.locator, "https://www.wikidata.org");
    assert_eq!(src.date, Some(NOW));
}

#[test]
fn geography_vault_has_nine_predicates() {
    let v = geography_vault();
    assert_eq!(v.version, "geography-v2026Q2");
    assert_eq!(v.domain.name, "geography");
    assert_eq!(f64::from_bits(v.domain.config.numeric_tolerance.0), 0.05);
    assert_eq!(v.graph.all_predicates().len(), 9);
    assert_eq!(v.entity_count(), 0);
    let pop = v.find_predicate("inhabitants").unwrap();
    assert_eq!(pop.id, PredicateId(2));
    assert_eq!(pop.kind, PredicateKind::Attribute);
    assert_eq!(pop.expected_value_type, ValueType::Number);
    assert!(matches!(pop.expected_unit, Some(Unit::Count)));
    let t = pop.verification_threshold.unwrap();
    assert_eq!(f64::from_bits(t.numeric_tolerance.unwrap().0), 0.05);
    let coords = v.find_predicate("geo").unwrap();
    assert_eq!(coords.id, PredicateId(7));
    assert_eq!(coords.expected_value_type, ValueType::Coordinate);
    assert_eq!(v.find_predicate("nation").unwrap().id, PredicateId(9));
    assert!(v.find_predicate("area").unwrap().verification_threshold.is_none());
    assert!(matches!(v.find_predicate("area").unwrap().expected_unit, Some(Unit::SquareKilometer)));
}

#[test]
fn country_row_adds_entities_and_facts() {
    let mut v = geography_vault();
    let mut ids = IdMap::new();
    let mut rel = RelationIds::new();
    let mut seen: TextIndex<bool> = TextIndex::new();
    let src = wikidata_source(NOW);
    import_country_row(&mut v, &mut ids, &mut rel, &mut seen, &brazil_row(), &src, NOW);
    // Brazil, Brasília, South America, Brazilian Portuguese.
    assert_eq!(v.entity_count(), 4);
    let brazil = v.find_entity_by_label("brazil").unwrap();
    assert_eq!(brazil.id, EntityId(1));
    assert_eq!(brazil.kind.name, "country");
    assert_eq!(v.find_entity_by_label("Brasília").unwrap().id, EntityId(2));
    assert_eq!(v.find_entity_by_label("South America").unwrap().kind.name, "continent");
    // capital, population, area, continent, language, coordinates.
    let rels = v.graph.all_relations();
    assert_eq!(rels.len(), 6);
    let preds: Vec<u32> = rels.iter().map(|r| r.predicate.0).collect();
    assert_eq!(preds, vec![1, 2, 3, 4, 5, 7]);
    let ids_seen: Vec<u64> = rels.iter().map(|r| r.id.0).collect();
    assert_eq!(ids_seen, vec![1, 2, 3, 4, 5, 6]);
    assert!(matches!(rels[0].value, Value::Entity(EntityId(2))));
    assert_eq!(rels[0].confidence, Confidence::Verified);
    assert_eq!(rels[1].confidence, Confidence::Attested);
    assert!(rels.iter().all(|r| r.subject == EntityId(1) && r.timestamp == NOW && r.source.date == Some(NOW)));
    match rels[5].value {
        Value::Coordinate { lat, lon } => {
            assert_eq!(f64::from_bits(lat.0), -14.0);
            assert_eq!(f64::from_bits(lon.0), -53.0);
        }
        _ => panic!("expected coordinates"),
    }
    assert_eq!(rel.next, 7);
}

#[test]
fn repeated_country_row_adds_no_second_entity() {
    let mut v = geography_vault();
    let src = wikidata_source(NOW);
    let mut rel = RelationIds::new();
    let mut row2 = brazil_row();
    row2.capital = None;
    row2.population = None;
    row2.area = None;
    row2.continent = None;
    row2.language = None;
    row2.coordinates = None;
    row2.currency = s("http://www.wikidata.org/entity/Q173117");
    row2.currency_label = s("Brazilian real");
    import_countries(&mut v, &mut rel, &vec![brazil_row(), row2], &src, NOW);
    assert_eq!(v.entity_count(), 5);
    assert_eq!(v.relation_count(), 7);
    let last = v.graph.all_relations().last().unwrap();
    assert_eq!(last.predicate, PredicateId(6));
    assert_eq!(last.subject, EntityId(1));
    assert!(matches!(last.value, Value::Entity(EntityId(5))));
    assert_eq!(v.find_entity_by_label("Brazilian real").unwrap().kind.name, "currency");
}

#[test]
fn row_without_country_changes_nothing() {
    let mut v = geography_vault();
    let mut ids = IdMap::new();
    let mut rel = RelationIds::new();
    let mut seen: TextIndex<bool> = TextIndex::new();
    let mut row = brazil_row();
    row.country = None;
    import_country_row(&mut v, &mut ids, &mut rel, &mut seen, &row, &wikidata_source(NOW), NOW);
    assert_eq!(v.entity_count(), 0);
    assert_eq!(v.relation_count(), 0);
    assert_eq!(rel.next, 1);
}

#[test]
fn capital_rows_add_facts_to_named_entities() {
    let mut v = geography_vault();
    let src = wikidata_source(NOW);
    let mut rel = RelationIds::new();
    import_countries(&mut v, &mut rel, &vec![brazil_row()], &src, NOW);
    let rows = vec![
        CapitalRow { capital_label: s("brasília"), population: Some(bits(2_817_068.0)), coordinates: None },
        CapitalRow { capital_label: s("Atlantis"), population: Some(bits(1.0)), coordinates: None },
        CapitalRow { capital_label: None, population: Some(bits(1.0)), coordinates: None },
    ];
    import_capitals(&mut v, &mut rel, &rows, &src, NOW);
    assert_eq!(v.relation_count(), 7);
    let last = v.graph.all_relations().last().unwrap();
    assert_eq!(last.subject, EntityId(2));
    assert_eq!(last.predicate, PredicateId(2));
    assert_eq!(last.id, RelationId(7));
    import_capital_row(
        &mut v,
        &mut rel,
        &CapitalRow { capital_label: s("Brasília"), population: None, coordinates: Some((bits(-15.79), bits(-47.88))) },
        &src,
        NOW,
    );
    assert_eq!(v.relation_count(), 8);
    assert_eq!(v.graph.all_relations().last().unwrap().predicate, PredicateId(7));
}

#[test]
fn border_and_continent_rows() {
    let mut v = geography_vault();
    let src = wikidata_source(NOW);
    let mut rel = RelationIds::new();
    let mut argentina = brazil_row();
    argentina.country = s("http://www.wikidata.org/entity/Q414");
    argentina.country_label = s("Argentina");
    argentina.capital = None;
    argentina.language = None;
    argentina.population = None;
    argentina.area = None;
    argentina.coordinates = None;
    import_countries(&mut v, &mut rel, &vec![brazil_row(), argentina], &src, NOW);
    let n = v.relation_count();
    import_border_row(&mut v, &mut rel, &BorderRow { country_label: s("Brazil"), border_label: s("Argentina") }, &src, NOW);
    assert_eq!(v.relation_count(), n + 1);
    let b = v.graph.all_relations().last().unwrap();
    assert_eq!(b.predicate, PredicateId(8));
    assert_eq!(b.confidence, Confidence::Verified);
    import_border_row(&mut v, &mut rel, &BorderRow { country_label: s("Brazil"), border_label: s("Narnia") }, &src, NOW);
    assert_eq!(v.relation_count(), n + 1);
    import_continent_row(
        &mut v,
        &mut rel,
        &ContinentRow { continent_label: s("South America"), coordinates: Some((bits(-21.0), bits(-59.0))) },
        &src,
        NOW,
    );
    assert_eq!(v.relation_count(), n + 2);
    import_continent_row(&mut v, &mut rel, &ContinentRow { continent_label: s("South America"), coordinates: None }, &src, NOW);
    assert_eq!(v.relation_count(), n + 2);
    import_borders(
        &mut v,
        &mut rel,
        &vec![BorderRow { country_label: s("Argentina"), border_label: s("Brazil") }],
        &src,
        NOW,
    );
    assert_eq!(v.relation_count(), n + 3);
    import_continents(
        &mut v,
        &mut rel,
        &vec![ContinentRow { continent_label: s("South America"), coordinates: Some((bits(1.0), bits(2.0))) }],
        &src,
        NOW,
    );
    assert_eq!(v.relation_count(), n + 4);
}

#[test]
fn label_rows_map_portuguese_labels() {
    let mut v = geography_vault();
    let src = wikidata_source(NOW);
    let mut rel = RelationIds::new();
    import_countries(&mut v, &mut rel, &vec![brazil_row()], &src, NOW);
    assert!(import_label_row(&mut v, &LabelRow { label_en: s("Brazil"), label_pt: s("Brasil") }));
    assert_eq!(v.find_entity_by_label("brasil").unwrap().id, EntityId(1));
    let added = import_labels(
        &mut v,
        &vec![
            LabelRow { label_en: s("Nowhere"), label_pt: s("Lugar Nenhum") },
            LabelRow { label_en: s("Brazil"), label_pt: None },
            LabelRow { label_en: s("South America"), label_pt: s("América do Sul") },
        ],
    );
    assert_eq!(added, 1);
    assert_eq!(v.find_entity_by_label("América do Sul").unwrap().kind.name, "continent");
    assert!(v.find_entity_by_label("Lugar Nenhum").is_none());
}

fn state_row(qid: &str, en: &str, pt: Option<&str>, cap_en: &str, cap_pt: Option<&str>) -> StateRow {
    StateRow {
        state: Some(format!("http://www.wikidata.org/entity/{}", qid)),
        state_label: s(en),
        state_label_pt: pt.map(|x| x.to_string()),
        capital: s("http://www.wikidata.org/entity/Q1"),
        capital_label: s(cap_en),
        capital_label_pt: cap_pt.map(|x| x.to_string()),
        population: Some(bits(1_000_000.0)),
        area: None,
    }
}

#[test]
fn state_rows_number_states_and_capitals() {
    let mut v = geography_vault();
    let src = wikidata_source(NOW);
    let mut rel = RelationIds::new();
    let mut seen: TextIndex<EntityId> = TextIndex::new();
    import_state_row(&mut v, &mut rel, &mut seen, &state_row("Q40030", "Amazonas", None, "Manaus", Some("manaus")), &src, NOW);
    let state = v.find_entity_by_label("Amazonas").unwrap();
    assert_eq!(state.id, EntityId(10000));
    assert_eq!(state.kind.name, "state");
    let cap = v.find_entity_by_label("Manaus").unwrap();
    assert_eq!(cap.id, EntityId(20001));
    // The Portuguese label reads the same lower-cased: it is not added.
    assert_eq!(cap.labels.len(), 1);
    let rels = v.graph.all_relations();
    assert_eq!(rels.len(), 2);
    assert_eq!(rels[0].predicate, PredicateId(1));
    assert!(matches!(rels[0].value, Value::Entity(EntityId(20001))));
    assert_eq!(rels[1].predicate, PredicateId(2));
    // The same state again changes nothing.
    import_state_row(&mut v, &mut rel, &mut seen, &state_row("Q40030", "Amazonas", None, "Manaus", None), &src, NOW);
    assert_eq!(v.relation_count(), 2);
    // A second state, with Portuguese labels.
    import_state_row(&mut v, &mut rel, &mut seen, &state_row("Q41587", "Para", Some("Pará"), "Belem", Some("Belém")), &src, NOW);
    let para = v.find_entity_by_label("pará").unwrap();
    assert_eq!(para.id, EntityId(10001));
    assert_eq!(para.labels.len(), 2);
    let belem = v.find_entity_by_label("Belém").unwrap();
    assert_eq!(belem.id, EntityId(20002));
    assert_eq!(belem.labels.len(), 2);
}

#[test]
fn state_named_like_its_capital_points_to_itself() {
    let mut v = geography_vault();
    let src = wikidata_source(NOW);
    let mut rel = RelationIds::new();
    let n = import_states(
        &mut v,
        &mut rel,
        &vec![
            state_row("Q175", "São Paulo", None, "São Paulo", None),
            state_row("Q175", "São Paulo", None, "São Paulo", None),
        ],
        &src,
        NOW,
    );
    assert_eq!(n, 1);
    assert_eq!(v.entity_count(), 1);
    let first = &v.graph.all_relations()[0];
    assert_eq!(first.subject, EntityId(10000));
    assert!(matches!(first.value, Value::Entity(EntityId(10000))));
}

#[test]
fn imported_countries_are_country_entities_with_one_english_label() {
    let mut v = geography_vault();
    let src = wikidata_source(NOW);
    let mut rel = RelationIds::new();
    let mut unnamed = brazil_row();
    unnamed.country = s("http://www.wikidata.org/entity/Q16");
    unnamed.country_label = None;
    unnamed.capital = None;
    unnamed.continent = None;
    unnamed.language = None;
    import_countries(&mut v, &mut rel, &vec![brazil_row(), unnamed], &src, NOW);
    let brazil = v.graph.get_entity(EntityId(1)).unwrap();
    assert_eq!(brazil.kind.name, "country");
    assert_eq!(brazil.labels.len(), 1);
    assert_eq!(brazil.labels[0].text, "Brazil");
    assert_eq!(brazil.labels[0].language, "en");
    assert!(brazil.labels[0].primary);
    // Brasília, South America and Brazilian Portuguese take 2 to 4.
    let other = v.graph.get_entity(EntityId(5)).unwrap();
    assert_eq!(other.kind.name, "country");
    assert_eq!(other.labels.len(), 1);
    assert_eq!(other.labels[0].text, "Unknown");
    assert!(other.labels[0].primary);
}

#[test]
fn imported_states_are_numbered_from_ten_thousand() {
    let mut v = geography_vault();
    let src = wikidata_source(NOW);
    let mut rel = RelationIds::new();
    let rows = vec![
        state_row("Q40030", "Amazonas", None, "Manaus", None),
        state_row("Q40030", "Amazonas again", None, "Manaus", None),
        state_row("Q41587", "Para", Some("Pará"), "Belem", None),
    ];
    let n = import_states(&mut v, &mut rel, &rows, &src, NOW);
    assert_eq!(n, 2);
    let first = v.graph.get_entity(EntityId(10000)).unwrap();
    assert_eq!(first.kind.name, "state");
    assert_eq!(first.labels[0].text, "Amazonas");
    assert_eq!(first.labels[0].language, "en");
    assert!(first.labels[0].primary);
    let second = v.graph.get_entity(EntityId(10001)).unwrap();
    assert_eq!(second.kind.name, "state");
    assert_eq!(second.labels[0].text, "Para");
    assert_eq!(second.labels[1].text, "Pará");
    assert_eq!(v.graph.get_entity(EntityId(20001)).unwrap().kind.name, "city");
    assert_eq!(v.graph.get_entity(EntityId(20002)).unwrap().labels[0].text, "Belem");
}
