//! Rows that name entities by their labels: capitals, borders, continents
//! and Portuguese labels, each adding facts (or labels) to the entities
//! that the vault already has.

use vstd::prelude::*;
use crate::graph::{
    extends_labels, lemma_extends_labels_refl, lemma_extends_labels_trans, lemma_relabelled_extends,
    relabelled, GraphView,
};
use crate::import::{
    add_fact, add_optional_fact, fact, has_room, keeps_schema, lemma_extend, numbered_facts,
    optional_plan, FactPlan, RelationIds,
};
use crate::text::lowercase_of;
use crate::geography::{
    facts_fit, fits_geography, geography_schema, lemma_numbered_facts_fit, lemma_plan_fits_concat,
    lemma_schema_names, plan_fits,
};
use crate::types::{Confidence, Entity, EntityId, FloatBits, Relation, SourceRef, Unit, Value};
use crate::vault::Vault;

verus! {

/// A row about a capital: its label, population and coordinates.
#[derive(Debug)]
pub struct CapitalRow {
    pub capital_label: Option<String>,
    pub population: Option<FloatBits>,
    pub coordinates: Option<(FloatBits, FloatBits)>,
}

/// The facts that a capital row states: population, then coordinates.
pub open spec fn capital_plan(row: CapitalRow) -> Seq<FactPlan> {
    optional_plan(
        2,
        match row.population {
            Some(p) => Some(Value::Number { value: p, unit: Unit::Count }),
            None => None,
        },
        Confidence::Attested,
    ) + optional_plan(
        7,
        match row.coordinates {
            Some((lat, lon)) => Some(Value::Coordinate { lat, lon }),
            None => None,
        },
        Confidence::Attested,
    )
}

/// The relations that a capital row adds to `g`, numbered from `first`:
/// the facts of `capital_plan` about the entity that its label names, when
/// there is one.
pub open spec fn capital_row_facts(g: GraphView, row: CapitalRow, first: u64, source: SourceRef, now: i64) -> Seq<Relation> {
    match row.capital_label {
        Some(l) => match g.entity_by_label(l@) {
            Some(e) => numbered_facts(capital_plan(row), first, e.id, source, now),
            None => Seq::empty(),
        },
        None => Seq::empty(),
    }
}

/// Every fact that a capital, border or continent row adds fits its
/// geography predicate: a capital's population is a count of people, its
/// coordinates are coordinates; a border is an entity; a continent's
/// coordinates are coordinates.
pub proof fn lemma_lookup_facts_fit(
    g: GraphView,
    capital: CapitalRow,
    border: BorderRow,
    continent: ContinentRow,
    first: u64,
    source: SourceRef,
    now: i64,
)
    ensures
        facts_fit(capital_row_facts(g, capital, first, source, now)),
        facts_fit(border_row_facts(g, border, first, source, now)),
        facts_fit(continent_row_facts(g, continent, first, source, now)),
{
    lemma_schema_names();
    assert(geography_schema(2).0 == "population"@);
    assert(geography_schema(7).0 != "population"@ && geography_schema(7).0 != "area"@);
    assert(geography_schema(8).0 != "population"@ && geography_schema(8).0 != "area"@);
    let a = optional_plan(
        2,
        match capital.population {
            Some(p) => Some(Value::Number { value: p, unit: Unit::Count }),
            None => None,
        },
        Confidence::Attested,
    );
    let b = optional_plan(
        7,
        match capital.coordinates {
            Some((lat, lon)) => Some(Value::Coordinate { lat, lon }),
            None => None,
        },
        Confidence::Attested,
    );
    assert(plan_fits(a));
    assert(plan_fits(b));
    lemma_plan_fits_concat(a, b);
    assert(capital_plan(capital) == a + b);
    if let Some(l) = capital.capital_label {
        if let Some(e) = g.entity_by_label(l@) {
            lemma_numbered_facts_fit(capital_plan(capital), first, e.id, source, now);
        }
    }
    let bf = border_row_facts(g, border, first, source, now);
    if bf.len() > 0 {
        assert(fits_geography(bf[0].predicate.0, bf[0].value));
    }
    let cf = continent_row_facts(g, continent, first, source, now);
    if cf.len() > 0 {
        assert(fits_geography(cf[0].predicate.0, cf[0].value));
    }
}

/// Imports one capital row: the population and coordinates of the entity
/// that the label names, when there is one.
pub fn import_capital_row(vault: &mut Vault, rel_ids: &mut RelationIds, row: &CapitalRow, source: &SourceRef, now: i64)
    requires
        has_room(*old(vault), *old(rel_ids), 2),
    ensures
        final(vault).graph.wf(),
        keeps_schema(*old(vault), *final(vault)),
        final(vault).graph@.entities == old(vault).graph@.entities,
        final(vault).graph@.labels == old(vault).graph@.labels,
        final(vault).graph@.relations == old(vault).graph@.relations + capital_row_facts(
            old(vault).graph@,
            *row,
            old(rel_ids).next,
            *source,
            now,
        ),
        final(rel_ids).next == old(rel_ids).next + capital_row_facts(
            old(vault).graph@,
            *row,
            old(rel_ids).next,
            *source,
            now,
        ).len(),
{
    let label = match &row.capital_label {
        Some(l) => l,
        None => {
            assert(vault.graph@.relations =~= old(vault).graph@.relations + Seq::<Relation>::empty());
            return;
        },
    };
    let entity = match vault.find_entity_by_label(label.as_str()) {
        Some(e) => e.id,
        None => {
            assert(vault.graph@.relations =~= old(vault).graph@.relations + Seq::<Relation>::empty());
            return;
        },
    };
    let ghost base = vault.graph@.relations;
    let ghost n0 = rel_ids.next;
    let population = match row.population {
        Some(p) => Some(Value::Number { value: p, unit: Unit::Count }),
        None => None,
    };
    add_optional_fact(vault, rel_ids, entity, 2, population, Confidence::Attested, source, now);
    let coordinates = match row.coordinates {
        Some((lat, lon)) => Some(Value::Coordinate { lat, lon }),
        None => None,
    };
    let ghost p1 = optional_plan(2, population, Confidence::Attested);
    add_optional_fact(vault, rel_ids, entity, 7, coordinates, Confidence::Attested, source, now);
    proof {
        let p2 = optional_plan(7, coordinates, Confidence::Attested);
        assert(base + numbered_facts(Seq::empty(), n0, entity, *source, now) =~= base);
        lemma_extend(base, Seq::empty(), p1, n0, entity, *source, now);
        assert(Seq::<FactPlan>::empty() + p1 =~= p1);
        lemma_extend(base, p1, p2, n0, entity, *source, now);
        assert(capital_plan(*row) == p1 + p2);
    }
}

/// A row about two countries that share a border, by their labels.
#[derive(Debug)]
pub struct BorderRow {
    pub country_label: Option<String>,
    pub border_label: Option<String>,
}

/// The entities that a border row names, when both labels name one.
pub open spec fn border_pair(g: GraphView, row: BorderRow) -> Option<(Entity, Entity)> {
    match (row.country_label, row.border_label) {
        (Some(a), Some(b)) => match (g.entity_by_label(a@), g.entity_by_label(b@)) {
            (Some(x), Some(y)) => Some((x, y)),
            _ => None,
        },
        _ => None,
    }
}

/// The relations that a border row adds to `g`, numbered from `first`: the
/// fact that the first entity borders the second, when both are named.
pub open spec fn border_row_facts(g: GraphView, row: BorderRow, first: u64, source: SourceRef, now: i64) -> Seq<Relation> {
    match border_pair(g, row) {
        Some((x, y)) => seq![fact(first, x.id, 8, Value::Entity(y.id), Confidence::Verified, source, now)],
        None => Seq::empty(),
    }
}

/// Imports one border row: when both labels name entities, the fact that
/// the first borders the second.
pub fn import_border_row(vault: &mut Vault, rel_ids: &mut RelationIds, row: &BorderRow, source: &SourceRef, now: i64)
    requires
        has_room(*old(vault), *old(rel_ids), 1),
    ensures
        final(vault).graph.wf(),
        keeps_schema(*old(vault), *final(vault)),
        final(vault).graph@.entities == old(vault).graph@.entities,
        final(vault).graph@.labels == old(vault).graph@.labels,
        final(vault).graph@.relations == old(vault).graph@.relations + border_row_facts(
            old(vault).graph@,
            *row,
            old(rel_ids).next,
            *source,
            now,
        ),
        final(rel_ids).next == old(rel_ids).next + border_row_facts(
            old(vault).graph@,
            *row,
            old(rel_ids).next,
            *source,
            now,
        ).len(),
{
    proof {
        assert(old(vault).graph@.relations =~= old(vault).graph@.relations + Seq::<Relation>::empty());
    }
    let a = match &row.country_label {
        Some(l) => l,
        None => return,
    };
    let b = match &row.border_label {
        Some(l) => l,
        None => return,
    };
    let country = match vault.find_entity_by_label(a.as_str()) {
        Some(e) => e.id,
        None => return,
    };
    let border = match vault.find_entity_by_label(b.as_str()) {
        Some(e) => e.id,
        None => return,
    };
    add_fact(vault, rel_ids, country, 8, Value::Entity(border), Confidence::Verified, source, now);
    assert(vault.graph@.relations =~= old(vault).graph@.relations + border_row_facts(
        old(vault).graph@,
        *row,
        old(rel_ids).next,
        *source,
        now,
    ));
}

/// A row about a continent: its label and coordinates.
#[derive(Debug)]
pub struct ContinentRow {
    pub continent_label: Option<String>,
    pub coordinates: Option<(FloatBits, FloatBits)>,
}

/// The relations that a continent row adds to `g`, numbered from `first`:
/// the coordinates of the entity that its label names, when there are both.
pub open spec fn continent_row_facts(g: GraphView, row: ContinentRow, first: u64, source: SourceRef, now: i64) -> Seq<Relation> {
    match (row.continent_label, row.coordinates) {
        (Some(l), Some((lat, lon))) => match g.entity_by_label(l@) {
            Some(e) => seq![fact(first, e.id, 7, Value::Coordinate { lat, lon }, Confidence::Attested, source, now)],
            None => Seq::empty(),
        },
        _ => Seq::empty(),
    }
}

/// Imports one continent row: the coordinates of the entity that the label
/// names, when there are both.
pub fn import_continent_row(vault: &mut Vault, rel_ids: &mut RelationIds, row: &ContinentRow, source: &SourceRef, now: i64)
    requires
        has_room(*old(vault), *old(rel_ids), 1),
    ensures
        final(vault).graph.wf(),
        keeps_schema(*old(vault), *final(vault)),
        final(vault).graph@.entities == old(vault).graph@.entities,
        final(vault).graph@.labels == old(vault).graph@.labels,
        final(vault).graph@.relations == old(vault).graph@.relations + continent_row_facts(
            old(vault).graph@,
            *row,
            old(rel_ids).next,
            *source,
            now,
        ),
        final(rel_ids).next == old(rel_ids).next + continent_row_facts(
            old(vault).graph@,
            *row,
            old(rel_ids).next,
            *source,
            now,
        ).len(),
{
    proof {
        assert(old(vault).graph@.relations =~= old(vault).graph@.relations + Seq::<Relation>::empty());
    }
    let label = match &row.continent_label {
        Some(l) => l,
        None => return,
    };
    let entity = match vault.find_entity_by_label(label.as_str()) {
        Some(e) => e.id,
        None => return,
    };
    if let Some((lat, lon)) = row.coordinates {
        add_fact(vault, rel_ids, entity, 7, Value::Coordinate { lat, lon }, Confidence::Attested, source, now);
        assert(vault.graph@.relations =~= old(vault).graph@.relations + continent_row_facts(
            old(vault).graph@,
            *row,
            old(rel_ids).next,
            *source,
            now,
        ));
    }
}

/// A row pairing an English label with a Portuguese one.
#[derive(Debug)]
pub struct LabelRow {
    pub label_en: Option<String>,
    pub label_pt: Option<String>,
}

/// Imports one label row: when the English label names an entity, the
/// Portuguese label is mapped to it (see `add_label_mapping`). Whether it
/// was is returned.
pub fn import_label_row(vault: &mut Vault, row: &LabelRow) -> (added: bool)
    requires
        old(vault).graph.wf(),
    ensures
        final(vault).graph.wf(),
        keeps_schema(*old(vault), *final(vault)),
        final(vault).graph@.relations == old(vault).graph@.relations,
        final(vault).graph@.entities.dom() == old(vault).graph@.entities.dom(),
        added == (row.label_en is Some && row.label_pt is Some && old(vault).graph@.entity_by_label(row.label_en->0@) is Some),
        added ==> final(vault).graph@.labels == old(vault).graph@.labels.insert(
            crate::text::lowercase_of(row.label_pt->0@),
            old(vault).graph@.entity_by_label(row.label_en->0@)->0.id,
        ),
        added ==> {
            let target = old(vault).graph@.entity_by_label(row.label_en->0@)->0.id.0;
            &&& relabelled(
                old(vault).graph@.entities[target],
                final(vault).graph@.entities[target],
                row.label_pt->0@,
                "pt"@,
            )
            &&& forall|k: u64|
                k != target && #[trigger] old(vault).graph@.entities.contains_key(k)
                    ==> final(vault).graph@.entities[k] == old(vault).graph@.entities[k]
        },
        !added ==> final(vault).graph@ == old(vault).graph@,
{
    let en = match &row.label_en {
        Some(l) => l,
        None => return false,
    };
    let pt = match &row.label_pt {
        Some(l) => l,
        None => return false,
    };
    let entity = match vault.find_entity_by_label(en.as_str()) {
        Some(e) => e.id,
        None => return false,
    };
    proof {
        vault.graph.lemma_entities_keyed();
    }
    vault.graph.add_label_mapping(pt.as_str(), "pt", entity);
    true
}

/// The relations that rows add one after the other, each numbered on from
/// the last: `per_row(row, first)` are those that `row` adds from `first`.
pub open spec fn facts_of_rows<R>(rows: Seq<R>, per_row: spec_fn(R, u64) -> Seq<Relation>, first: u64) -> Seq<Relation>
    decreases rows.len(),
{
    if rows.len() == 0 {
        Seq::empty()
    } else {
        let prev = facts_of_rows(rows.drop_last(), per_row, first);
        prev + per_row(rows.last(), (first + prev.len()) as u64)
    }
}

proof fn lemma_facts_of_rows_step<R>(rows: Seq<R>, i: int, per_row: spec_fn(R, u64) -> Seq<Relation>, first: u64)
    requires
        0 <= i < rows.len(),
    ensures
        facts_of_rows(rows.take(i + 1), per_row, first) == facts_of_rows(rows.take(i), per_row, first)
            + per_row(rows[i], (first + facts_of_rows(rows.take(i), per_row, first).len()) as u64),
{
    assert(rows.take(i + 1).drop_last() =~= rows.take(i));
}

/// Imports the capital rows, each as `import_capital_row` does, against the
/// entities and labels that the vault has (capital rows change neither).
pub fn import_capitals(
    vault: &mut Vault,
    rel_ids: &mut RelationIds,
    rows: &Vec<CapitalRow>,
    source: &SourceRef,
    now: i64,
)
    requires
        old(vault).graph.wf(),
        old(vault).graph@.relations.len() + 2 * rows@.len() < usize::MAX,
        old(rel_ids).next + 2 * rows@.len() < u64::MAX,
    ensures
        final(vault).graph.wf(),
        keeps_schema(*old(vault), *final(vault)),
        final(vault).graph@.entities == old(vault).graph@.entities,
        final(vault).graph@.labels == old(vault).graph@.labels,
        ({
            let added = facts_of_rows(
                rows@,
                |row: CapitalRow, first: u64| capital_row_facts(old(vault).graph@, row, first, *source, now),
                old(rel_ids).next,
            );
            &&& final(vault).graph@.relations == old(vault).graph@.relations + added
            &&& final(rel_ids).next == old(rel_ids).next + added.len()
        }),
{
    let ghost g0 = vault.graph@;
    let ghost per = |row: CapitalRow, first: u64| capital_row_facts(g0, row, first, *source, now);
    let mut i: usize = 0;
    assert(g0.relations + facts_of_rows(rows@.take(0), per, old(rel_ids).next) =~= g0.relations);
    while i < rows.len()
        invariant
            i <= rows@.len(),
            vault.graph.wf(),
            g0 == old(vault).graph@,
            per == (|row: CapitalRow, first: u64| capital_row_facts(g0, row, first, *source, now)),
            keeps_schema(*old(vault), *vault),
            vault.graph@.entities == g0.entities,
            vault.graph@.labels == g0.labels,
            vault.graph@.relations == g0.relations + facts_of_rows(rows@.take(i as int), per, old(rel_ids).next),
            rel_ids.next == old(rel_ids).next + facts_of_rows(rows@.take(i as int), per, old(rel_ids).next).len(),
            vault.graph@.relations.len() <= g0.relations.len() + 2 * i,
            g0.relations.len() + 2 * rows@.len() < usize::MAX,
            old(rel_ids).next + 2 * rows@.len() < u64::MAX,
        decreases rows@.len() - i,
    {
        let ghost before = vault.graph@;
        import_capital_row(vault, rel_ids, &rows[i], source, now);
        proof {
            assert(capital_plan(rows@[i as int]).len() <= 2);
            assert(capital_row_facts(before, rows@[i as int], (old(rel_ids).next + facts_of_rows(rows@.take(i as int), per, old(rel_ids).next).len()) as u64, *source, now)
                == per(rows@[i as int], (old(rel_ids).next + facts_of_rows(rows@.take(i as int), per, old(rel_ids).next).len()) as u64));
            lemma_facts_of_rows_step(rows@, i as int, per, old(rel_ids).next);
        }
        i = i + 1;
    }
    assert(rows@.take(rows@.len() as int) =~= rows@);
}

/// Imports the capital rows, each as `import_border_row` does, against the
/// entities and labels that the vault has (capital rows change neither).
pub fn import_borders(
    vault: &mut Vault,
    rel_ids: &mut RelationIds,
    rows: &Vec<BorderRow>,
    source: &SourceRef,
    now: i64,
)
    requires
        old(vault).graph.wf(),
        old(vault).graph@.relations.len() + 1 * rows@.len() < usize::MAX,
        old(rel_ids).next + 1 * rows@.len() < u64::MAX,
    ensures
        final(vault).graph.wf(),
        keeps_schema(*old(vault), *final(vault)),
        final(vault).graph@.entities == old(vault).graph@.entities,
        final(vault).graph@.labels == old(vault).graph@.labels,
        ({
            let added = facts_of_rows(
                rows@,
                |row: BorderRow, first: u64| border_row_facts(old(vault).graph@, row, first, *source, now),
                old(rel_ids).next,
            );
            &&& final(vault).graph@.relations == old(vault).graph@.relations + added
            &&& final(rel_ids).next == old(rel_ids).next + added.len()
        }),
{
    let ghost g0 = vault.graph@;
    let ghost per = |row: BorderRow, first: u64| border_row_facts(g0, row, first, *source, now);
    let mut i: usize = 0;
    assert(g0.relations + facts_of_rows(rows@.take(0), per, old(rel_ids).next) =~= g0.relations);
    while i < rows.len()
        invariant
            i <= rows@.len(),
            vault.graph.wf(),
            g0 == old(vault).graph@,
            per == (|row: BorderRow, first: u64| border_row_facts(g0, row, first, *source, now)),
            keeps_schema(*old(vault), *vault),
            vault.graph@.entities == g0.entities,
            vault.graph@.labels == g0.labels,
            vault.graph@.relations == g0.relations + facts_of_rows(rows@.take(i as int), per, old(rel_ids).next),
            rel_ids.next == old(rel_ids).next + facts_of_rows(rows@.take(i as int), per, old(rel_ids).next).len(),
            vault.graph@.relations.len() <= g0.relations.len() + 1 * i,
            g0.relations.len() + 1 * rows@.len() < usize::MAX,
            old(rel_ids).next + 1 * rows@.len() < u64::MAX,
        decreases rows@.len() - i,
    {
        let ghost before = vault.graph@;
        import_border_row(vault, rel_ids, &rows[i], source, now);
        proof {
            assert(border_row_facts(before, rows@[i as int], (old(rel_ids).next + facts_of_rows(rows@.take(i as int), per, old(rel_ids).next).len()) as u64, *source, now)
                == per(rows@[i as int], (old(rel_ids).next + facts_of_rows(rows@.take(i as int), per, old(rel_ids).next).len()) as u64));
            lemma_facts_of_rows_step(rows@, i as int, per, old(rel_ids).next);
        }
        i = i + 1;
    }
    assert(rows@.take(rows@.len() as int) =~= rows@);
}

/// Imports the capital rows, each as `import_continent_row` does, against the
/// entities and labels that the vault has (capital rows change neither).
pub fn import_continents(
    vault: &mut Vault,
    rel_ids: &mut RelationIds,
    rows: &Vec<ContinentRow>,
    source: &SourceRef,
    now: i64,
)
    requires
        old(vault).graph.wf(),
        old(vault).graph@.relations.len() + 1 * rows@.len() < usize::MAX,
        old(rel_ids).next + 1 * rows@.len() < u64::MAX,
    ensures
        final(vault).graph.wf(),
        keeps_schema(*old(vault), *final(vault)),
        final(vault).graph@.entities == old(vault).graph@.entities,
        final(vault).graph@.labels == old(vault).graph@.labels,
        ({
            let added = facts_of_rows(
                rows@,
                |row: ContinentRow, first: u64| continent_row_facts(old(vault).graph@, row, first, *source, now),
                old(rel_ids).next,
            );
            &&& final(vault).graph@.relations == old(vault).graph@.relations + added
            &&& final(rel_ids).next == old(rel_ids).next + added.len()
        }),
{
    let ghost g0 = vault.graph@;
    let ghost per = |row: ContinentRow, first: u64| continent_row_facts(g0, row, first, *source, now);
    let mut i: usize = 0;
    assert(g0.relations + facts_of_rows(rows@.take(0), per, old(rel_ids).next) =~= g0.relations);
    while i < rows.len()
        invariant
            i <= rows@.len(),
            vault.graph.wf(),
            g0 == old(vault).graph@,
            per == (|row: ContinentRow, first: u64| continent_row_facts(g0, row, first, *source, now)),
            keeps_schema(*old(vault), *vault),
            vault.graph@.entities == g0.entities,
            vault.graph@.labels == g0.labels,
            vault.graph@.relations == g0.relations + facts_of_rows(rows@.take(i as int), per, old(rel_ids).next),
            rel_ids.next == old(rel_ids).next + facts_of_rows(rows@.take(i as int), per, old(rel_ids).next).len(),
            vault.graph@.relations.len() <= g0.relations.len() + 1 * i,
            g0.relations.len() + 1 * rows@.len() < usize::MAX,
            old(rel_ids).next + 1 * rows@.len() < u64::MAX,
        decreases rows@.len() - i,
    {
        let ghost before = vault.graph@;
        import_continent_row(vault, rel_ids, &rows[i], source, now);
        proof {
            assert(continent_row_facts(before, rows@[i as int], (old(rel_ids).next + facts_of_rows(rows@.take(i as int), per, old(rel_ids).next).len()) as u64, *source, now)
                == per(rows@[i as int], (old(rel_ids).next + facts_of_rows(rows@.take(i as int), per, old(rel_ids).next).len()) as u64));
            lemma_facts_of_rows_step(rows@, i as int, per, old(rel_ids).next);
        }
        i = i + 1;
    }
    assert(rows@.take(rows@.len() as int) =~= rows@);
}

/// The entity that `label` names through the label index `labels`, when
/// the index maps it to an identifier in `ids`.
pub open spec fn label_target(labels: Map<Seq<char>, EntityId>, ids: Set<u64>, label: Seq<char>) -> Option<EntityId> {
    let key = lowercase_of(label);
    if labels.contains_key(key) && ids.contains(labels[key].0) {
        Some(labels[key])
    } else {
        None
    }
}

/// Where a label row maps its Portuguese label, given the label index so
/// far: to the entity that its English label names, when there are both.
pub open spec fn label_row_target(labels: Map<Seq<char>, EntityId>, ids: Set<u64>, row: LabelRow) -> Option<(Seq<char>, EntityId)> {
    match (row.label_en, row.label_pt) {
        (Some(en), Some(pt)) => match label_target(labels, ids, en@) {
            Some(id) => Some((lowercase_of(pt@), id)),
            None => None,
        },
        _ => None,
    }
}

/// The label index after the label rows, one after the other.
pub open spec fn labels_after_rows(labels: Map<Seq<char>, EntityId>, ids: Set<u64>, rows: Seq<LabelRow>) -> Map<Seq<char>, EntityId>
    decreases rows.len(),
{
    if rows.len() == 0 {
        labels
    } else {
        let prev = labels_after_rows(labels, ids, rows.drop_last());
        match label_row_target(prev, ids, rows.last()) {
            Some((key, id)) => prev.insert(key, id),
            None => prev,
        }
    }
}

/// How many of the label rows map a label.
pub open spec fn mapped_count(labels: Map<Seq<char>, EntityId>, ids: Set<u64>, rows: Seq<LabelRow>) -> nat
    decreases rows.len(),
{
    if rows.len() == 0 {
        0
    } else {
        let prev = labels_after_rows(labels, ids, rows.drop_last());
        mapped_count(labels, ids, rows.drop_last()) + if label_row_target(prev, ids, rows.last()) is Some {
            1nat
        } else {
            0nat
        }
    }
}

/// Imports the label rows, each as `import_label_row` does, and returns how
/// many mapped a label.
pub fn import_labels(vault: &mut Vault, rows: &Vec<LabelRow>) -> (added: usize)
    requires
        old(vault).graph.wf(),
    ensures
        final(vault).graph.wf(),
        keeps_schema(*old(vault), *final(vault)),
        final(vault).graph@.relations == old(vault).graph@.relations,
        final(vault).graph@.entities.dom() == old(vault).graph@.entities.dom(),
        final(vault).graph@.labels == labels_after_rows(
            old(vault).graph@.labels,
            old(vault).graph@.entities.dom(),
            rows@,
        ),
        added == mapped_count(old(vault).graph@.labels, old(vault).graph@.entities.dom(), rows@),
        forall|k: u64|
            #[trigger] old(vault).graph@.entities.contains_key(k) ==> extends_labels(
                old(vault).graph@.entities[k],
                final(vault).graph@.entities[k],
            ),
{
    let ghost g0 = vault.graph@;
    proof {
        assert forall|k: u64| #[trigger] g0.entities.contains_key(k) implies extends_labels(
            g0.entities[k],
            g0.entities[k],
        ) by {
            lemma_extends_labels_refl(g0.entities[k]);
        }
    }
    let mut added: usize = 0;
    let mut i: usize = 0;
    while i < rows.len()
        invariant
            i <= rows@.len(),
            g0 == old(vault).graph@,
            vault.graph.wf(),
            keeps_schema(*old(vault), *vault),
            vault.graph@.relations == g0.relations,
            vault.graph@.entities.dom() == g0.entities.dom(),
            vault.graph@.labels == labels_after_rows(g0.labels, g0.entities.dom(), rows@.take(i as int)),
            added == mapped_count(g0.labels, g0.entities.dom(), rows@.take(i as int)),
            added <= i,
            forall|k: u64|
                #[trigger] g0.entities.contains_key(k) ==> extends_labels(g0.entities[k], vault.graph@.entities[k]),
        decreases rows@.len() - i,
    {
        let ghost before = vault.graph@;
        proof {
            vault.graph.lemma_entities_keyed();
        }
        let mapped = import_label_row(vault, &rows[i]);
        proof {
            let t = rows@.take(i as int + 1);
            assert(t.drop_last() =~= rows@.take(i as int));
            assert(t.last() == rows@[i as int]);
            let row = rows@[i as int];
            match (row.label_en, row.label_pt) {
                (Some(en), Some(_)) => {
                    let key = lowercase_of(en@);
                    if before.labels.contains_key(key) && before.entities.contains_key(before.labels[key].0) {
                        assert(before.entities[before.labels[key].0].id.0 == before.labels[key].0);
                    }
                },
                _ => {},
            }
        }
        proof {
            assert forall|k: u64| #[trigger] g0.entities.contains_key(k) implies extends_labels(
                g0.entities[k],
                vault.graph@.entities[k],
            ) by {
                if mapped {
                    let target = before.entity_by_label(rows@[i as int].label_en->0@)->0.id.0;
                    if k == target {
                        lemma_relabelled_extends(
                            before.entities[k],
                            vault.graph@.entities[k],
                            rows@[i as int].label_pt->0@,
                            "pt"@,
                        );
                    } else {
                        lemma_extends_labels_refl(vault.graph@.entities[k]);
                    }
                } else {
                    lemma_extends_labels_refl(vault.graph@.entities[k]);
                }
                lemma_extends_labels_trans(g0.entities[k], before.entities[k], vault.graph@.entities[k]);
            }
        }
        if mapped {
            added = added + 1;
        }
        i = i + 1;
    }
    assert(rows@.take(rows@.len() as int) =~= rows@);
    added
}

} // verus!
