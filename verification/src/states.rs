//! Rows about the states of a country: each state, its capital and their
//! facts, with identifiers numbered from the states seen so far.

use vstd::prelude::*;
use vstd::string::StringExecFns;
use crate::graph::{index_labels, lemma_label_finds_added_entity, GraphView};
use crate::import::{
    add_fact, add_optional_fact, extract_qid, has_room, keeps_schema, label_or_unknown, label_text,
    lemma_extend, numbered_facts, optional_plan, primary_label, qid_of, with_entity, FactPlan,
    RelationIds,
};
use crate::lookups::label_target;
use crate::geography::{facts_fit, fits_geography, geography_schema, lemma_schema_names, lemma_numbered_facts_fit, lemma_plan_fits_concat, plan_fits};
use crate::text::{lowercase_of, text_eq, to_lowercase};
use crate::text_index::TextIndex;
use crate::types::{
    Confidence, DomainId, Entity, EntityId, EntityKind, FloatBits, Label, Relation, SourceRef, Unit, Value,
};
use crate::vault::Vault;

verus! {

/// A row about a state: its identifier, English and Portuguese labels,
/// its capital (identifier and labels), population and area.
#[derive(Debug)]
pub struct StateRow {
    pub state: Option<String>,
    pub state_label: Option<String>,
    pub state_label_pt: Option<String>,
    pub capital: Option<String>,
    pub capital_label: Option<String>,
    pub capital_label_pt: Option<String>,
    pub population: Option<FloatBits>,
    pub area: Option<FloatBits>,
}

/// `e` is the entity that a state row creates under `id`: the English label
/// first, then the Portuguese one when the row has it.
pub open spec fn state_entity(e: Entity, row: StateRow, id: EntityId) -> bool {
    &&& e.id == id
    &&& e.kind.id == 6
    &&& e.kind.name@ == "state"@
    &&& e.kind.parent is None
    &&& e.domain == DomainId(1)
    &&& e.labels@.len() >= 1
    &&& primary_label(e.labels@[0], label_or_unknown(row.state_label), "en"@)
    &&& match row.state_label_pt {
        Some(pt) => e.labels@.len() == 2 && primary_label(e.labels@[1], pt@, "pt"@),
        None => e.labels@.len() == 1,
    }
}

/// The Portuguese label of the capital, when the row has one that does not
/// read as the English one once lower-cased.
pub open spec fn capital_pt_label(row: StateRow) -> Option<Seq<char>> {
    match row.capital_label_pt {
        Some(pt) => if lowercase_of(pt@) != lowercase_of(label_or_unknown(row.capital_label)) {
            Some(pt@)
        } else {
            None
        },
        None => None,
    }
}

/// `e` is the city that a state row creates under `id` for its capital.
pub open spec fn capital_entity(e: Entity, row: StateRow, id: EntityId) -> bool {
    &&& e.id == id
    &&& e.kind.id == 2
    &&& e.kind.name@ == "city"@
    &&& e.kind.parent is None
    &&& e.domain == DomainId(1)
    &&& e.labels@.len() >= 1
    &&& primary_label(e.labels@[0], label_or_unknown(row.capital_label), "en"@)
    &&& match capital_pt_label(row) {
        Some(pt) => e.labels@.len() == 2 && primary_label(e.labels@[1], pt, "pt"@),
        None => e.labels@.len() == 1,
    }
}

/// A measured value, when there is one.
pub open spec fn measured(v: Option<FloatBits>, unit: Unit) -> Option<Value> {
    match v {
        Some(x) => Some(Value::Number { value: x, unit }),
        None => None,
    }
}

/// The facts that a state row states, in `g` (the graph once its entities
/// are in): the capital (the entity that its English label names), the
/// population, the area.
pub open spec fn state_plan(row: StateRow, g: GraphView) -> Seq<FactPlan> {
    (match row.capital {
        Some(_) => seq![
            (
                1u32,
                Value::Entity(g.entity_by_label(label_or_unknown(row.capital_label))->0.id),
                Confidence::Verified,
            ),
        ],
        None => Seq::<FactPlan>::empty(),
    }) + optional_plan(2, measured(row.population, Unit::Count), Confidence::Attested)
        + optional_plan(3, measured(row.area, Unit::SquareKilometer), Confidence::Attested)
}

/// The entities that a state row adds: the state, then (when its English
/// label names no entity yet) the capital.
fn state_entities(vault: &mut Vault, state: EntityId, capital: EntityId, row: &StateRow)
    requires
        old(vault).graph.wf(),
        state.0 != capital.0,
    ensures
        final(vault).graph.wf(),
        keeps_schema(*old(vault), *final(vault)),
        final(vault).graph@.relations == old(vault).graph@.relations,
        ({
            let after = final(vault).graph@;
            let g1 = with_entity(old(vault).graph@, after.entities[state.0]);
            let cap_en = label_or_unknown(row.capital_label);
            let add_cap = row.capital is Some && g1.entity_by_label(cap_en) is None;
            let g2 = if add_cap {
                with_entity(g1, after.entities[capital.0])
            } else {
                g1
            };
            &&& state_entity(after.entities[state.0], *row, state)
            &&& add_cap ==> capital_entity(after.entities[capital.0], *row, capital)
            &&& after.entities == g2.entities
            &&& after.labels == g2.labels
            &&& row.capital is Some ==> after.entity_by_label(cap_en) is Some
        }),
{
    let mut labels: Vec<Label> = Vec::new();
    labels.push(
        Label { text: label_text(&row.state_label), language: String::from_str("en"), primary: true },
    );
    match &row.state_label_pt {
        Some(pt) => {
            labels.push(Label { text: pt.clone(), language: String::from_str("pt"), primary: true });
        },
        None => {},
    }
    let s = Entity {
        id: state,
        kind: EntityKind { id: 6, name: String::from_str("state"), parent: None },
        labels,
        domain: DomainId(1),
    };
    let ghost se = s;
    vault.add_entity(s);
    let ghost g1 = vault.graph@;
    assert(g1 == with_entity(old(vault).graph@, se));
    if row.capital.is_none() {
        return;
    }
    let cap_en = label_text(&row.capital_label);
    if vault.find_entity_by_label(cap_en.as_str()).is_none() {
        let mut cap_labels: Vec<Label> = Vec::new();
        cap_labels.push(
            Label { text: String::from_str(cap_en.as_str()), language: String::from_str("en"), primary: true },
        );
        match &row.capital_label_pt {
            Some(pt) => {
                let a = to_lowercase(pt.as_str());
                let b = to_lowercase(cap_en.as_str());
                if !text_eq(a.as_str(), b.as_str()) {
                    cap_labels.push(
                        Label { text: pt.clone(), language: String::from_str("pt"), primary: true },
                    );
                }
            },
            None => {},
        }
        let c = Entity {
            id: capital,
            kind: EntityKind { id: 2, name: String::from_str("city"), parent: None },
            labels: cap_labels,
            domain: DomainId(1),
        };
        let ghost ce = c;
        vault.add_entity(c);
        proof {
            assert(vault.graph@ == with_entity(g1, ce));
            lemma_label_finds_added_entity(g1, vault.graph@, ce, 0, cap_en@);
        }
    }
}

proof fn lemma_optional_fits(predicate: u32, value: Option<Value>, confidence: Confidence)
    requires
        value matches Some(v) ==> fits_geography(predicate, v),
    ensures
        plan_fits(optional_plan(predicate, value, confidence)),
{
}

/// Population is a count, area is in square kilometers.
proof fn lemma_measures_fit(population: Option<FloatBits>, area: Option<FloatBits>)
    ensures
        measured(population, Unit::Count) matches Some(v) ==> fits_geography(2, v),
        measured(area, Unit::SquareKilometer) matches Some(v) ==> fits_geography(3, v),
{
    lemma_schema_names();
    assert(geography_schema(2).0 == "population"@);
    assert(geography_schema(3).0 == "area"@);
}

/// Every fact that a state row adds fits its geography predicate: the
/// capital is an entity, the population a count of people, the area in
/// square kilometers; so with the facts of `state_step`.
pub proof fn lemma_state_facts_fit(
    row: StateRow,
    g: GraphView,
    capital: Option<EntityId>,
    first: u64,
    state: EntityId,
    source: SourceRef,
    now: i64,
)
    ensures
        facts_fit(numbered_facts(state_plan(row, g), first, state, source, now)),
        facts_fit(numbered_facts(state_row_plan(row, capital), first, state, source, now)),
{
    let cap1: Seq<FactPlan> = match row.capital {
        Some(_) => seq![(1u32, Value::Entity(g.entity_by_label(label_or_unknown(row.capital_label))->0.id), Confidence::Verified)],
        None => Seq::<FactPlan>::empty(),
    };
    let cap2: Seq<FactPlan> = match row.capital {
        Some(_) => seq![(1u32, Value::Entity(capital->0), Confidence::Verified)],
        None => Seq::<FactPlan>::empty(),
    };
    let pop = optional_plan(2, measured(row.population, Unit::Count), Confidence::Attested);
    let area = optional_plan(3, measured(row.area, Unit::SquareKilometer), Confidence::Attested);
    lemma_schema_names();
    assert(geography_schema(1).0 != "population"@ && geography_schema(1).0 != "area"@);
    lemma_measures_fit(row.population, row.area);
    lemma_optional_fits(2, measured(row.population, Unit::Count), Confidence::Attested);
    lemma_optional_fits(3, measured(row.area, Unit::SquareKilometer), Confidence::Attested);
    assert(plan_fits(cap1));
    assert(plan_fits(cap2));
    lemma_plan_fits_concat(cap1, pop);
    lemma_plan_fits_concat(cap1 + pop, area);
    lemma_plan_fits_concat(cap2, pop);
    lemma_plan_fits_concat(cap2 + pop, area);
    assert(state_plan(row, g) == cap1 + pop + area);
    assert(state_row_plan(row, capital) == cap2 + pop + area);
    lemma_numbered_facts_fit(state_plan(row, g), first, state, source, now);
    lemma_numbered_facts_fit(state_row_plan(row, capital), first, state, source, now);
}

/// Imports one state row. The first time its identifier is seen, the state
/// is added under the identifier 10000 plus the number of states seen
/// before; its capital, when its English label names no entity yet, under
/// 20000 plus the number of states seen with this one; then the facts of
/// `state_plan`, numbered on from the identifier counter.
pub fn import_state_row(
    vault: &mut Vault,
    rel_ids: &mut RelationIds,
    seen: &mut TextIndex<EntityId>,
    row: &StateRow,
    source: &SourceRef,
    now: i64,
)
    requires
        has_room(*old(vault), *old(rel_ids), 3),
        old(seen).wf(),
        old(seen).count() + 20001 <= u64::MAX,
    ensures
        final(vault).graph.wf(),
        final(seen).wf(),
        keeps_schema(*old(vault), *final(vault)),
        (match row.state {
            Some(uri) => !old(seen).view().contains_key(qid_of(uri@)),
            None => false,
        }) ==> {
            let n = old(seen).count();
            let state = EntityId((10000 + n) as u64);
            let capital = EntityId((20001 + n) as u64);
            let after = final(vault).graph@;
            let g1 = with_entity(old(vault).graph@, after.entities[state.0]);
            let cap_en = label_or_unknown(row.capital_label);
            let add_cap = row.capital is Some && g1.entity_by_label(cap_en) is None;
            let g2 = if add_cap {
                with_entity(g1, after.entities[capital.0])
            } else {
                g1
            };
            let plan = state_plan(*row, after);
            &&& state_entity(after.entities[state.0], *row, state)
            &&& add_cap ==> capital_entity(after.entities[capital.0], *row, capital)
            &&& after.entities == g2.entities
            &&& after.labels == g2.labels
            &&& row.capital is Some ==> after.entity_by_label(cap_en) is Some
            &&& after.relations == old(vault).graph@.relations + numbered_facts(
                plan,
                old(rel_ids).next,
                state,
                *source,
                now,
            )
            &&& final(rel_ids).next == old(rel_ids).next + plan.len()
            &&& final(seen).view() == old(seen).view().insert(qid_of(row.state->0@), state)
            &&& final(seen).count() == n + 1
        },
        !(match row.state {
            Some(uri) => !old(seen).view().contains_key(qid_of(uri@)),
            None => false,
        }) ==> {
            &&& final(vault).graph@ == old(vault).graph@
            &&& final(rel_ids).next == old(rel_ids).next
            &&& final(seen).view() == old(seen).view()
            &&& final(seen).count() == old(seen).count()
        },
{
    let uri = match &row.state {
        Some(u) => u,
        None => return,
    };
    let qid = match extract_qid(uri.as_str()) {
        Some(q) => q,
        None => return,
    };
    if seen.get(qid.as_str()).is_some() {
        return;
    }
    let n = seen.len() as u64;
    let state = EntityId(10000 + n);
    seen.insert(qid, state);
    let capital = EntityId(20000 + (seen.len() as u64));
    state_entities(vault, state, capital, row);
    let ghost base = vault.graph@.relations;
    let ghost n0 = rel_ids.next;
    let ghost mid = vault.graph@;
    if row.capital.is_some() {
        let cap_en = label_text(&row.capital_label);
        match vault.find_entity_by_label(cap_en.as_str()) {
            Some(e) => {
                let target = e.id;
                add_fact(vault, rel_ids, state, 1, Value::Entity(target), Confidence::Verified, source, now);
            },
            None => {},
        }
    }
    let ghost p0: Seq<FactPlan> = match row.capital {
        Some(_) => seq![
            (
                1u32,
                Value::Entity(mid.entity_by_label(label_or_unknown(row.capital_label))->0.id),
                Confidence::Verified,
            ),
        ],
        None => Seq::<FactPlan>::empty(),
    };
    proof {
        assert(vault.graph@.relations =~= base + numbered_facts(p0, n0, state, *source, now));
    }
    let population = match row.population {
        Some(p) => Some(Value::Number { value: p, unit: Unit::Count }),
        None => None,
    };
    add_optional_fact(vault, rel_ids, state, 2, population, Confidence::Attested, source, now);
    let ghost p1 = optional_plan(2, population, Confidence::Attested);
    proof {
        lemma_extend(base, p0, p1, n0, state, *source, now);
    }
    let area = match row.area {
        Some(a) => Some(Value::Number { value: a, unit: Unit::SquareKilometer }),
        None => None,
    };
    add_optional_fact(vault, rel_ids, state, 3, area, Confidence::Attested, source, now);
    proof {
        let p2 = optional_plan(3, area, Confidence::Attested);
        lemma_extend(base, p0 + p1, p2, n0, state, *source, now);
        assert(state_plan(*row, vault.graph@) =~= p0 + p1 + p2);
    }
}

/// What importing state rows has built so far: the label index, the
/// identifiers of the entities, the states seen (knowledge-base identifier
/// to entity identifier), how many, the row that added each state and
/// whether it added the state's capital too, the identifiers of the
/// entities added, and the facts added.
pub struct StatesSoFar {
    pub labels: Map<Seq<char>, EntityId>,
    pub ids: Set<u64>,
    pub seen: Map<Seq<char>, EntityId>,
    pub count: nat,
    pub rows: Seq<StateRow>,
    pub caps: Seq<bool>,
    pub added: Set<u64>,
    pub facts: Seq<Relation>,
}

/// `labels` with the labels of the state of `row` (English, then Portuguese
/// when there is one), lower-cased, mapped to `id`.
pub open spec fn with_state_labels(labels: Map<Seq<char>, EntityId>, row: StateRow, id: EntityId) -> Map<Seq<char>, EntityId> {
    let m = labels.insert(lowercase_of(label_or_unknown(row.state_label)), id);
    match row.state_label_pt {
        Some(pt) => m.insert(lowercase_of(pt@), id),
        None => m,
    }
}

/// `labels` with the labels of the capital of `row`, lower-cased, mapped to
/// `id`.
pub open spec fn with_capital_labels(labels: Map<Seq<char>, EntityId>, row: StateRow, id: EntityId) -> Map<Seq<char>, EntityId> {
    let m = labels.insert(lowercase_of(label_or_unknown(row.capital_label)), id);
    match capital_pt_label(row) {
        Some(pt) => m.insert(lowercase_of(pt), id),
        None => m,
    }
}

/// The facts that a state row states, given the entity that its capital's
/// English label names.
pub open spec fn state_row_plan(row: StateRow, capital: Option<EntityId>) -> Seq<FactPlan> {
    (match row.capital {
        Some(_) => seq![(1u32, Value::Entity(capital->0), Confidence::Verified)],
        None => Seq::<FactPlan>::empty(),
    }) + optional_plan(2, measured(row.population, Unit::Count), Confidence::Attested)
        + optional_plan(3, measured(row.area, Unit::SquareKilometer), Confidence::Attested)
}

/// What one more state row adds, its facts numbered on from `first` plus
/// those so far.
pub open spec fn state_step(st: StatesSoFar, row: StateRow, first: u64, source: SourceRef, now: i64) -> StatesSoFar {
    match row.state {
        Some(uri) => {
            let qid = qid_of(uri@);
            if st.seen.contains_key(qid) {
                st
            } else {
                let state = EntityId((10000 + st.count) as u64);
                let capital = EntityId((20001 + st.count) as u64);
                let labels1 = with_state_labels(st.labels, row, state);
                let ids1 = st.ids.insert(state.0);
                let cap_en = label_or_unknown(row.capital_label);
                let add_cap = row.capital is Some && label_target(labels1, ids1, cap_en) is None;
                let labels2 = if add_cap {
                    with_capital_labels(labels1, row, capital)
                } else {
                    labels1
                };
                let ids2 = if add_cap {
                    ids1.insert(capital.0)
                } else {
                    ids1
                };
                let plan = state_row_plan(row, label_target(labels2, ids2, cap_en));
                StatesSoFar {
                    labels: labels2,
                    ids: ids2,
                    seen: st.seen.insert(qid, state),
                    count: st.count + 1,
                    rows: st.rows.push(row),
                    caps: st.caps.push(add_cap),
                    added: if add_cap {
                        st.added.insert(state.0).insert(capital.0)
                    } else {
                        st.added.insert(state.0)
                    },
                    facts: st.facts + numbered_facts(plan, (first + st.facts.len()) as u64, state, source, now),
                }
            }
        },
        None => st,
    }
}

/// What importing the state rows `rows`, one after the other, builds from
/// `st`.
pub open spec fn states_after(st: StatesSoFar, rows: Seq<StateRow>, first: u64, source: SourceRef, now: i64) -> StatesSoFar
    decreases rows.len(),
{
    if rows.len() == 0 {
        st
    } else {
        state_step(states_after(st, rows.drop_last(), first, source, now), rows.last(), first, source, now)
    }
}

proof fn lemma_index_labels_short(m: Map<Seq<char>, EntityId>, ls: Seq<Label>, id: EntityId)
    requires
        1 <= ls.len() <= 2,
    ensures
        index_labels(m, ls, id) == if ls.len() == 1 {
            m.insert(lowercase_of(ls[0].text@), id)
        } else {
            m.insert(lowercase_of(ls[0].text@), id).insert(lowercase_of(ls[1].text@), id)
        },
{
    reveal_with_fuel(index_labels, 3);
    if ls.len() == 2 {
        let first = ls.drop_last();
        assert(first.drop_last() =~= Seq::<Label>::empty());
        assert(first.last() == ls[0]);
        assert(index_labels(m, first, id) == m.insert(lowercase_of(ls[0].text@), id));
    } else {
        assert(ls.drop_last() =~= Seq::<Label>::empty());
    }
}

/// One state row, as `import_state_row` leaves the graph, is the step that
/// `state_step` describes.
proof fn lemma_state_row_step(
    g: GraphView,
    f: GraphView,
    st: StatesSoFar,
    row: StateRow,
    first: u64,
    source: SourceRef,
    now: i64,
)
    requires
        g.labels == st.labels,
        g.entities.dom() == st.ids,
        forall|k: u64| #[trigger] f.entities.contains_key(k) ==> f.entities[k].id.0 == k,
        st.count + 20001 <= u64::MAX,
        (match row.state {
            Some(uri) => !st.seen.contains_key(qid_of(uri@)),
            None => false,
        }) ==> {
            let state = EntityId((10000 + st.count) as u64);
            let capital = EntityId((20001 + st.count) as u64);
            let g1 = with_entity(g, f.entities[state.0]);
            let cap_en = label_or_unknown(row.capital_label);
            let add_cap = row.capital is Some && g1.entity_by_label(cap_en) is None;
            let g2 = if add_cap {
                with_entity(g1, f.entities[capital.0])
            } else {
                g1
            };
            &&& state_entity(f.entities[state.0], row, state)
            &&& add_cap ==> capital_entity(f.entities[capital.0], row, capital)
            &&& f.entities == g2.entities
            &&& f.labels == g2.labels
            &&& row.capital is Some ==> f.entity_by_label(cap_en) is Some
        },
    ensures
        (match row.state {
            Some(uri) => !st.seen.contains_key(qid_of(uri@)),
            None => false,
        }) ==> {
            let next = state_step(st, row, first, source, now);
            &&& f.labels == next.labels
            &&& f.entities.dom() == next.ids
            &&& state_plan(row, f) == state_row_plan(
                row,
                label_target(next.labels, next.ids, label_or_unknown(row.capital_label)),
            )
        },
{
    if (match row.state {
        Some(uri) => !st.seen.contains_key(qid_of(uri@)),
        None => false,
    }) {
        let state = EntityId((10000 + st.count) as u64);
        let capital = EntityId((20001 + st.count) as u64);
        let se = f.entities[state.0];
        let g1 = with_entity(g, se);
        let cap_en = label_or_unknown(row.capital_label);
        lemma_index_labels_short(g.labels, se.labels@, state);
        assert(g1.labels == with_state_labels(st.labels, row, state));
        assert(g1.entities.dom() =~= st.ids.insert(state.0));
        let ids1 = st.ids.insert(state.0);
        let labels1 = with_state_labels(st.labels, row, state);
        assert((g1.entity_by_label(cap_en) is None) == (label_target(labels1, ids1, cap_en) is None));
        let add_cap = row.capital is Some && g1.entity_by_label(cap_en) is None;
        if add_cap {
            let ce = f.entities[capital.0];
            lemma_index_labels_short(g1.labels, ce.labels@, capital);
            assert(f.entities.dom() =~= ids1.insert(capital.0));
        } else {
            assert(f.entities.dom() =~= ids1);
        }
        let next = state_step(st, row, first, source, now);
        if row.capital is Some {
            let key = lowercase_of(cap_en);
            assert(f.labels.contains_key(key) && f.entities.contains_key(f.labels[key].0));
            assert(f.entities[f.labels[key].0].id == f.labels[key]);
        }
    }
}

/// A state row keeps what `states_built` says of the rows before it.
proof fn lemma_state_built(
    before: Map<u64, Entity>,
    g: GraphView,
    f: GraphView,
    st: StatesSoFar,
    row: StateRow,
    first: u64,
    source: SourceRef,
    now: i64,
)
    requires
        states_built(before, st, g.entities),
        g.labels == st.labels,
        g.entities.dom() == st.ids,
        st.count + 20001 <= u64::MAX,
        !(match row.state {
            Some(uri) => !st.seen.contains_key(qid_of(uri@)),
            None => false,
        }) ==> f == g,
        (match row.state {
            Some(uri) => !st.seen.contains_key(qid_of(uri@)),
            None => false,
        }) ==> {
            let state = EntityId((10000 + st.count) as u64);
            let capital = EntityId((20001 + st.count) as u64);
            let g1 = with_entity(g, f.entities[state.0]);
            let cap_en = label_or_unknown(row.capital_label);
            let add_cap = row.capital is Some && g1.entity_by_label(cap_en) is None;
            let g2 = if add_cap {
                with_entity(g1, f.entities[capital.0])
            } else {
                g1
            };
            &&& state_entity(f.entities[state.0], row, state)
            &&& add_cap ==> capital_entity(f.entities[capital.0], row, capital)
            &&& f.entities == g2.entities
        },
    ensures
        states_built(before, state_step(st, row, first, source, now), f.entities),
{
    if (match row.state {
        Some(uri) => !st.seen.contains_key(qid_of(uri@)),
        None => false,
    }) {
        let n = st.count;
        let state = EntityId((10000 + n) as u64);
        let capital = EntityId((20001 + n) as u64);
        let g1 = with_entity(g, f.entities[state.0]);
        let cap_en = label_or_unknown(row.capital_label);
        let add_cap = row.capital is Some && g1.entity_by_label(cap_en) is None;
        let ids1 = st.ids.insert(state.0);
        let labels1 = with_state_labels(st.labels, row, state);
        lemma_index_labels_short(g.labels, f.entities[state.0].labels@, state);
        assert(g1.labels == labels1);
        assert(g1.entities.dom() =~= ids1);
        assert((g1.entity_by_label(cap_en) is None) == (label_target(labels1, ids1, cap_en) is None));
        let next = state_step(st, row, first, source, now);
        assert(next.caps.last() == add_cap);
        assert forall|k: int| 0 <= k < next.count implies #[trigger] state_in(f.entities, next.rows, k) by {
            if k < n {
                assert(next.rows[k] == st.rows[k]);
                assert(state_in(g.entities, st.rows, k));
                assert((10000 + k) as u64 != state.0);
                assert((10000 + k) as u64 != capital.0);
                assert(g1.entities.contains_key((10000 + k) as u64));
            } else {
                assert(next.rows[k] == row);
                assert(f.entities[state.0].id == state);
                assert(g1.entities.contains_key(state.0));
            }
        }
        assert forall|k: int| 0 <= k < next.count && next.caps[k] && next.count <= k + 10001 implies #[trigger] capital_in(
            f.entities,
            next.rows,
            k,
        ) by {
            if k < n {
                assert(next.rows[k] == st.rows[k]);
                assert(next.caps[k] == st.caps[k]);
                assert(capital_in(g.entities, st.rows, k));
                assert((20001 + k) as u64 != state.0);
                assert((20001 + k) as u64 != capital.0);
                assert(g1.entities.contains_key((20001 + k) as u64));
            } else {
                assert(next.rows[k] == row);
                assert(f.entities[capital.0].id == capital);
            }
        }
        assert forall|x: u64| #[trigger] before.contains_key(x) && !next.added.contains(x) implies f.entities.contains_key(x)
            && f.entities[x] == before[x] by {
            assert(x != state.0);
            assert(add_cap ==> x != capital.0);
        }
        if add_cap {
            assert(next.ids =~= before.dom().union(next.added));
        } else {
            assert(next.ids =~= before.dom().union(next.added));
        }
        assert(states_built(before, next, f.entities));
    }
}

/// `entities` holds the state of `rows[k]` under 10000 + k.
pub open spec fn state_in(entities: Map<u64, Entity>, rows: Seq<StateRow>, k: int) -> bool {
    let id = (10000 + k) as u64;
    entities.contains_key(id) && state_entity(entities[id], rows[k], EntityId(id))
}

/// `entities` holds the capital of `rows[k]` under 20001 + k.
pub open spec fn capital_in(entities: Map<u64, Entity>, rows: Seq<StateRow>, k: int) -> bool {
    let id = (20001 + k) as u64;
    entities.contains_key(id) && capital_entity(entities[id], rows[k], EntityId(id))
}

/// The entities that the state rows so far have added are in `entities`
/// as the import creates them: the k-th state under 10000 + k, and its
/// capital (when its row added one, and no later state took the
/// identifier) under 20001 + k; every entity of `before` under an
/// identifier that no row used is there as it was; and no other.
pub open spec fn states_built(before: Map<u64, Entity>, st: StatesSoFar, entities: Map<u64, Entity>) -> bool {
    &&& st.ids == before.dom().union(st.added)
    &&& st.rows.len() == st.count
    &&& st.caps.len() == st.count
    &&& forall|k: int| 0 <= k < st.count ==> #[trigger] state_in(entities, st.rows, k)
    &&& forall|k: int|
        0 <= k < st.count && st.caps[k] && st.count <= k + 10001 ==> #[trigger] capital_in(entities, st.rows, k)
    &&& forall|x: u64|
        #[trigger] before.contains_key(x) && !st.added.contains(x) ==> entities.contains_key(x)
            && entities[x] == before[x]
}

/// The knowledge-base identifier of the state of `row`, if it has one.
pub open spec fn state_qid(row: StateRow) -> Option<Seq<char>> {
    match row.state {
        Some(u) => Some(qid_of(u@)),
        None => None,
    }
}

/// `rows[i]` is the first of `rows` whose state is `q`.
pub open spec fn first_state_row(rows: Seq<StateRow>, q: Seq<char>, i: int) -> bool {
    &&& 0 <= i < rows.len()
    &&& state_qid(rows[i]) == Some(q)
    &&& forall|j: int| 0 <= j < i ==> state_qid(#[trigger] rows[j]) != Some(q)
}

/// After the state rows `rows`, the states seen are those that the rows
/// name, each numbered 10000 plus its place among them and added by the
/// first row that names it.
pub proof fn lemma_state_names(st0: StatesSoFar, rows: Seq<StateRow>, first: u64, source: SourceRef, now: i64)
    requires
        st0.seen == Map::<Seq<char>, EntityId>::empty(),
        st0.count == 0,
        st0.rows == Seq::<StateRow>::empty(),
        rows.len() + 20001 <= u64::MAX,
    ensures
        ({
            let st = states_after(st0, rows, first, source, now);
            &&& st.rows.len() == st.count
            &&& st.count <= rows.len()
            &&& forall|q: Seq<char>|
                #[trigger] st.seen.contains_key(q) <==> exists|i: int|
                    0 <= i < rows.len() && #[trigger] state_qid(rows[i]) == Some(q)
            &&& forall|q: Seq<char>, i: int|
                #[trigger] first_state_row(rows, q, i) ==> st.seen.contains_key(q) && 10000 <= st.seen[q].0 < 10000
                    + st.count && st.rows[st.seen[q].0 - 10000] == rows[i]
        }),
    decreases rows.len(),
{
    let st = states_after(st0, rows, first, source, now);
    if rows.len() > 0 {
        let prev = rows.drop_last();
        let last = rows.last();
        let n = rows.len() - 1;
        lemma_state_names(st0, prev, first, source, now);
        let ps = states_after(st0, prev, first, source, now);
        assert(st == state_step(ps, last, first, source, now));
        assert forall|i: int| 0 <= i < n implies rows[i] == prev[i] by {}
        let new_state = match last.state {
            Some(u) => !ps.seen.contains_key(qid_of(u@)),
            None => false,
        };
        assert forall|q: Seq<char>| #[trigger] st.seen.contains_key(q) <==> exists|i: int|
            0 <= i < rows.len() && #[trigger] state_qid(rows[i]) == Some(q) by {
            if st.seen.contains_key(q) {
                if ps.seen.contains_key(q) {
                    let i = choose|i: int| 0 <= i < prev.len() && #[trigger] state_qid(prev[i]) == Some(q);
                    assert(rows[i] == prev[i]);
                } else {
                    assert(state_qid(rows[n]) == Some(q));
                }
            }
            if exists|i: int| 0 <= i < rows.len() && #[trigger] state_qid(rows[i]) == Some(q) {
                let i = choose|i: int| 0 <= i < rows.len() && #[trigger] state_qid(rows[i]) == Some(q);
                if i != n {
                    assert(state_qid(prev[i]) == Some(q));
                }
            }
        }
        assert forall|q: Seq<char>, i: int| #[trigger] first_state_row(rows, q, i) implies st.seen.contains_key(q)
            && 10000 <= st.seen[q].0 < 10000 + st.count && st.rows[st.seen[q].0 - 10000] == rows[i] by {
            if i == n {
                if !new_state {
                    assert(ps.seen.contains_key(q));
                    let j = choose|j: int| 0 <= j < prev.len() && #[trigger] state_qid(prev[j]) == Some(q);
                    assert(rows[j] == prev[j]);
                    assert(state_qid(rows[j]) != Some(q));
                } else {
                    assert(st.rows[ps.count as int] == last);
                    assert(st.seen[q] == EntityId((10000 + ps.count) as u64));
                    assert(st.seen[q].0 == 10000 + ps.count);
                }
            } else {
                assert forall|j: int| 0 <= j < i implies state_qid(#[trigger] prev[j]) != Some(q) by {
                    assert(rows[j] == prev[j]);
                }
                assert(first_state_row(prev, q, i));
                assert(state_qid(prev[i]) == Some(q));
                assert(ps.seen.contains_key(q));
                if new_state {
                    assert(st.rows[ps.seen[q].0 - 10000] == ps.rows[ps.seen[q].0 - 10000]);
                }
            }
        }
    }
}

/// Imports the state rows, each as `import_state_row` does, numbering the
/// states from 10000 in the order their identifiers are first seen, and
/// returns how many states it added.
pub fn import_states(vault: &mut Vault, rel_ids: &mut RelationIds, rows: &Vec<StateRow>, source: &SourceRef, now: i64) -> (states: usize)
    requires
        old(vault).graph.wf(),
        old(vault).graph@.relations.len() + 3 * rows@.len() < usize::MAX,
        old(rel_ids).next + 3 * rows@.len() < u64::MAX,
        rows@.len() + 20001 <= u64::MAX,
    ensures
        final(vault).graph.wf(),
        keeps_schema(*old(vault), *final(vault)),
        ({
            let st = states_after(
                StatesSoFar {
                    labels: old(vault).graph@.labels,
                    ids: old(vault).graph@.entities.dom(),
                    seen: Map::empty(),
                    count: 0,
                    rows: Seq::empty(),
                    caps: Seq::empty(),
                    added: Set::empty(),
                    facts: Seq::empty(),
                },
                rows@,
                old(rel_ids).next,
                *source,
                now,
            );
            &&& final(vault).graph@.relations == old(vault).graph@.relations + st.facts
            &&& final(rel_ids).next == old(rel_ids).next + st.facts.len()
            &&& final(vault).graph@.labels == st.labels
            &&& final(vault).graph@.entities.dom() == st.ids
            &&& states == st.count
            &&& states_built(old(vault).graph@.entities, st, final(vault).graph@.entities)
            &&& forall|q: Seq<char>|
                #[trigger] st.seen.contains_key(q) <==> exists|i: int|
                    0 <= i < rows@.len() && #[trigger] state_qid(rows@[i]) == Some(q)
            &&& forall|q: Seq<char>, i: int|
                #[trigger] first_state_row(rows@, q, i) ==> st.seen.contains_key(q) && 10000 <= st.seen[q].0
                    < 10000 + st.count && final(vault).graph@.entities.contains_key(st.seen[q].0) && state_entity(
                    final(vault).graph@.entities[st.seen[q].0],
                    rows@[i],
                    st.seen[q],
                )
        }),
{
    let mut seen: TextIndex<EntityId> = TextIndex::new();
    let mut i: usize = 0;
    let ghost first = rel_ids.next;
    let ghost st0 = StatesSoFar {
        labels: old(vault).graph@.labels,
        ids: old(vault).graph@.entities.dom(),
        seen: Map::empty(),
        count: 0,
        rows: Seq::empty(),
        caps: Seq::empty(),
        added: Set::empty(),
        facts: Seq::empty(),
    };
    proof {
        assert(st0.ids =~= old(vault).graph@.entities.dom().union(st0.added));
        assert(rows@.take(0) =~= Seq::<StateRow>::empty());
        assert(old(vault).graph@.relations + st0.facts =~= old(vault).graph@.relations);
    }
    while i < rows.len()
        invariant
            i <= rows@.len(),
            first == old(rel_ids).next,
            st0 == (StatesSoFar {
                labels: old(vault).graph@.labels,
                ids: old(vault).graph@.entities.dom(),
                seen: Map::empty(),
                count: 0,
                rows: Seq::empty(),
                caps: Seq::empty(),
                added: Set::empty(),
                facts: Seq::empty(),
            }),
            vault.graph.wf(),
            seen.wf(),
            ({
                let st = states_after(st0, rows@.take(i as int), first, *source, now);
                &&& seen.view() == st.seen
                &&& seen.count() == st.count
                &&& st.count <= i
                &&& st.facts.len() <= 3 * i
                &&& vault.graph@.relations == old(vault).graph@.relations + st.facts
                &&& rel_ids.next == first + st.facts.len()
                &&& vault.graph@.labels == st.labels
                &&& vault.graph@.entities.dom() == st.ids
                &&& states_built(old(vault).graph@.entities, st, vault.graph@.entities)
            }),
            old(vault).graph@.relations.len() + 3 * rows@.len() < usize::MAX,
            old(rel_ids).next + 3 * rows@.len() < u64::MAX,
            rows@.len() + 20001 <= u64::MAX,
            keeps_schema(*old(vault), *vault),
        decreases rows@.len() - i,
    {
        let ghost st = states_after(st0, rows@.take(i as int), first, *source, now);
        let ghost g = vault.graph@;
        let ghost n = rel_ids.next;
        import_state_row(vault, rel_ids, &mut seen, &rows[i], source, now);
        proof {
            let row = rows@[i as int];
            let t = rows@.take(i + 1);
            assert(t.drop_last() =~= rows@.take(i as int));
            assert(t.last() == row);
            vault.graph.lemma_entities_keyed();
            lemma_state_row_step(g, vault.graph@, st, row, first, *source, now);
            lemma_state_built(old(vault).graph@.entities, g, vault.graph@, st, row, first, *source, now);
            let next = state_step(st, row, first, *source, now);
            assert(states_after(st0, t, first, *source, now) == next);
            if (match row.state {
                Some(uri) => !st.seen.contains_key(qid_of(uri@)),
                None => false,
            }) {
                let plan = state_plan(row, vault.graph@);
                assert(plan.len() <= 3);
                assert(vault.graph@.relations =~= old(vault).graph@.relations + next.facts);
            }
        }
        i = i + 1;
    }
    proof {
        assert(rows@.take(rows@.len() as int) =~= rows@);
        let st = states_after(st0, rows@, first, *source, now);
        lemma_state_names(st0, rows@, first, *source, now);
        assert forall|q: Seq<char>, i: int| #[trigger] first_state_row(rows@, q, i) implies st.seen.contains_key(q)
            && 10000 <= st.seen[q].0 < 10000 + st.count && vault.graph@.entities.contains_key(st.seen[q].0)
            && state_entity(vault.graph@.entities[st.seen[q].0], rows@[i], st.seen[q]) by {
            let k = st.seen[q].0 - 10000;
            assert(state_in(vault.graph@.entities, st.rows, k));
            assert(EntityId(st.seen[q].0) == st.seen[q]);
        }
    }
    seen.len()
}

} // verus!
