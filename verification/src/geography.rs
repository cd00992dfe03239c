//! The geography vault: its domain and its nine predicates.

use vstd::prelude::*;
use vstd::string::StringExecFns;
use crate::graph::index_predicate;
use crate::import::{numbered_facts, FactPlan};
use crate::types::{
    Domain, DomainConfig, DomainId, Entity, EntityId, FloatBits, Predicate, PredicateId, PredicateKind,
    Relation, SourceRef, Unit, Value, ValueType, VerificationThreshold, FLOAT_FIVE_HUNDREDTHS, FLOAT_ONE,
};
use crate::vault::Vault;

verus! {

/// The name, kind, value type and aliases of the geography predicate `id`
/// (1 to 9).
pub open spec fn geography_schema(id: u32) -> (Seq<char>, PredicateKind, ValueType, Seq<Seq<char>>) {
    if id == 1 {
        ("capital"@, PredicateKind::Relation, ValueType::Entity, seq!["capital_city"@, "seat_of_government"@])
    } else if id == 2 {
        ("population"@, PredicateKind::Attribute, ValueType::Number, seq!["inhabitants"@, "pop"@])
    } else if id == 3 {
        ("area"@, PredicateKind::Attribute, ValueType::Number, seq!["size"@, "surface_area"@])
    } else if id == 4 {
        ("continent"@, PredicateKind::Relation, ValueType::Entity, seq!["part_of_continent"@])
    } else if id == 5 {
        ("official_language"@, PredicateKind::Relation, ValueType::Entity, seq!["language"@, "official_lang"@])
    } else if id == 6 {
        ("currency"@, PredicateKind::Relation, ValueType::Entity, seq!["money"@, "official_currency"@])
    } else if id == 7 {
        (
            "coordinates"@,
            PredicateKind::Attribute,
            ValueType::Coordinate,
            seq!["location"@, "coords"@, "geo"@],
        )
    } else if id == 8 {
        (
            "borders"@,
            PredicateKind::Relation,
            ValueType::Entity,
            seq!["shares_border_with"@, "adjacent_to"@, "neighbor"@],
        )
    } else {
        ("country"@, PredicateKind::Relation, ValueType::Entity, seq!["country_of"@, "nation"@])
    }
}

/// `v` is a value that the geography predicate `id` (1 to 9) holds: of
/// the predicate's value type, and for the numbers, a count of people for
/// "population" and square kilometers for "area".
pub open spec fn fits_geography(id: u32, v: Value) -> bool {
    let (name, _kind, value_type, _aliases) = geography_schema(id);
    &&& 1 <= id <= 9
    &&& match value_type {
        ValueType::Entity => v is Entity,
        ValueType::Number => v is Number,
        ValueType::Coordinate => v is Coordinate,
        _ => false,
    }
    &&& name == "population"@ ==> (v matches Value::Number { unit: Unit::Count, .. })
    &&& name == "area"@ ==> (v matches Value::Number { unit: Unit::SquareKilometer, .. })
}

/// Of the geography predicates, "population" is 2 and "area" is 3.
pub proof fn lemma_schema_names()
    ensures
        forall|id: u32| 1 <= id <= 9 ==> (#[trigger] geography_schema(id).0 == "population"@ <==> id == 2),
        forall|id: u32| 1 <= id <= 9 ==> (#[trigger] geography_schema(id).0 == "area"@ <==> id == 3),
{
    reveal_strlit("capital");
    reveal_strlit("population");
    reveal_strlit("area");
    reveal_strlit("continent");
    reveal_strlit("official_language");
    reveal_strlit("currency");
    reveal_strlit("coordinates");
    reveal_strlit("borders");
    reveal_strlit("country");
    assert("population"@.len() == 10 && "area"@.len() == 4);
    assert("capital"@.len() == 7 && "continent"@.len() == 9 && "official_language"@.len() == 17);
    assert("currency"@.len() == 8 && "coordinates"@.len() == 11 && "borders"@.len() == 7);
    assert("country"@.len() == 7);
    assert forall|id: u32| 1 <= id <= 9 implies (#[trigger] geography_schema(id).0 == "population"@ <==> id == 2)
        && (geography_schema(id).0 == "area"@ <==> id == 3) by {
        if id == 1 {
        } else if id == 2 {
        } else if id == 3 {
        } else if id == 4 {
        } else if id == 5 {
        } else if id == 6 {
        } else if id == 7 {
        } else if id == 8 {
        } else {
        }
    }
}

/// Every planned fact fits its geography predicate.
pub open spec fn plan_fits(plans: Seq<FactPlan>) -> bool {
    forall|i: int| 0 <= i < plans.len() ==> fits_geography((#[trigger] plans[i]).0, plans[i].1)
}

/// Every relation fits its geography predicate.
pub open spec fn facts_fit(rels: Seq<Relation>) -> bool {
    forall|i: int| 0 <= i < rels.len() ==> fits_geography((#[trigger] rels[i]).predicate.0, rels[i].value)
}

/// The relations of planned facts fit as the plans do.
pub proof fn lemma_numbered_facts_fit(plans: Seq<FactPlan>, first: u64, subject: EntityId, source: SourceRef, now: i64)
    requires
        plan_fits(plans),
    ensures
        facts_fit(numbered_facts(plans, first, subject, source, now)),
{
    let rels = numbered_facts(plans, first, subject, source, now);
    assert forall|i: int| 0 <= i < rels.len() implies fits_geography((#[trigger] rels[i]).predicate.0, rels[i].value) by {
        assert(fits_geography(plans[i].0, plans[i].1));
    }
}

/// Plans that fit, one after the other, fit.
pub proof fn lemma_plan_fits_concat(a: Seq<FactPlan>, b: Seq<FactPlan>)
    requires
        plan_fits(a),
        plan_fits(b),
    ensures
        plan_fits(a + b),
{
    assert forall|i: int| 0 <= i < (a + b).len() implies fits_geography((#[trigger] (a + b)[i]).0, (a + b)[i].1) by {
        if i < a.len() {
            assert((a + b)[i] == a[i]);
        } else {
            assert((a + b)[i] == b[i - a.len()]);
        }
    }
}

/// What a geography fact means does not depend on its place: a number in
/// square kilometers is an area, and a population is a count of people.
pub proof fn lemma_geography_units(id: u32, v: Value)
    requires
        fits_geography(id, v),
    ensures
        (v matches Value::Number { unit: Unit::SquareKilometer, .. }) ==> geography_schema(id).0 == "area"@,
        (v matches Value::Number { unit: Unit::Count, .. }) ==> geography_schema(id).0 == "population"@,
        geography_schema(id).0 == "population"@ ==> (v matches Value::Number { unit: Unit::Count, .. }),
        geography_schema(id).0 == "area"@ ==> (v matches Value::Number { unit: Unit::SquareKilometer, .. }),
        v is Entity <==> geography_schema(id).2 == ValueType::Entity,
{
}

/// The texts of `v`.
pub open spec fn texts_of(v: Seq<String>) -> Seq<Seq<char>> {
    v.map_values(|a: String| a@)
}

/// `p` is the geography predicate `id`: its schema, in the geography
/// domain; population counts people and has a 5% tolerance, area is in
/// square kilometers.
pub open spec fn geography_predicate(p: Predicate, id: u32) -> bool {
    let (name, kind, value_type, aliases) = geography_schema(id);
    &&& p.id == PredicateId(id)
    &&& p.name@ == name
    &&& p.kind == kind
    &&& p.expected_value_type == value_type
    &&& texts_of(p.aliases@) == aliases
    &&& p.domain == DomainId(1)
    &&& p.expected_unit == if id == 2 {
        Some(Unit::Count)
    } else if id == 3 {
        Some(Unit::SquareKilometer)
    } else {
        None
    }
    &&& p.verification_threshold == if id == 2 {
        Some(
            VerificationThreshold {
                numeric_tolerance: Some(FloatBits(FLOAT_FIVE_HUNDREDTHS)),
                date_tolerance_days: None,
                coordinate_tolerance_km: None,
            },
        )
    } else {
        None
    }
}

fn push_text(v: &mut Vec<String>, t: &str)
    ensures
        texts_of(final(v)@) == texts_of(old(v)@).push(t@),
{
    v.push(String::from_str(t));
    assert(texts_of(v@) =~= texts_of(old(v)@).push(t@));
}

/// The geography predicate `id`.
pub(crate) fn make_geography_predicate(id: u32) -> (p: Predicate)
    requires
        1 <= id <= 9,
    ensures
        geography_predicate(p, id),
{
    let mut aliases: Vec<String> = Vec::new();
    assert(texts_of(aliases@) =~= Seq::<Seq<char>>::empty());
    let name: &str;
    let kind: PredicateKind;
    let value_type: ValueType;
    if id == 1 {
        name = "capital";
        kind = PredicateKind::Relation;
        value_type = ValueType::Entity;
        push_text(&mut aliases, "capital_city");
        push_text(&mut aliases, "seat_of_government");
        assert(texts_of(aliases@) =~= geography_schema(id).3);
    } else if id == 2 {
        name = "population";
        kind = PredicateKind::Attribute;
        value_type = ValueType::Number;
        push_text(&mut aliases, "inhabitants");
        push_text(&mut aliases, "pop");
        assert(texts_of(aliases@) =~= geography_schema(id).3);
    } else if id == 3 {
        name = "area";
        kind = PredicateKind::Attribute;
        value_type = ValueType::Number;
        push_text(&mut aliases, "size");
        push_text(&mut aliases, "surface_area");
        assert(texts_of(aliases@) =~= geography_schema(id).3);
    } else if id == 4 {
        name = "continent";
        kind = PredicateKind::Relation;
        value_type = ValueType::Entity;
        push_text(&mut aliases, "part_of_continent");
        assert(texts_of(aliases@) =~= geography_schema(id).3);
    } else if id == 5 {
        name = "official_language";
        kind = PredicateKind::Relation;
        value_type = ValueType::Entity;
        push_text(&mut aliases, "language");
        push_text(&mut aliases, "official_lang");
        assert(texts_of(aliases@) =~= geography_schema(id).3);
    } else if id == 6 {
        name = "currency";
        kind = PredicateKind::Relation;
        value_type = ValueType::Entity;
        push_text(&mut aliases, "money");
        push_text(&mut aliases, "official_currency");
        assert(texts_of(aliases@) =~= geography_schema(id).3);
    } else if id == 7 {
        name = "coordinates";
        kind = PredicateKind::Attribute;
        value_type = ValueType::Coordinate;
        push_text(&mut aliases, "location");
        push_text(&mut aliases, "coords");
        push_text(&mut aliases, "geo");
        assert(texts_of(aliases@) =~= geography_schema(id).3);
    } else if id == 8 {
        name = "borders";
        kind = PredicateKind::Relation;
        value_type = ValueType::Entity;
        push_text(&mut aliases, "shares_border_with");
        push_text(&mut aliases, "adjacent_to");
        push_text(&mut aliases, "neighbor");
        assert(texts_of(aliases@) =~= geography_schema(id).3);
    } else {
        name = "country";
        kind = PredicateKind::Relation;
        value_type = ValueType::Entity;
        push_text(&mut aliases, "country_of");
        push_text(&mut aliases, "nation");
        assert(texts_of(aliases@) =~= geography_schema(id).3);
    }
    let expected_unit = if id == 2 {
        Some(Unit::Count)
    } else if id == 3 {
        Some(Unit::SquareKilometer)
    } else {
        None
    };
    let verification_threshold = if id == 2 {
        Some(
            VerificationThreshold {
                numeric_tolerance: Some(FloatBits(FLOAT_FIVE_HUNDREDTHS)),
                date_tolerance_days: None,
                coordinate_tolerance_km: None,
            },
        )
    } else {
        None
    };
    Predicate {
        id: PredicateId(id),
        name: String::from_str(name),
        kind,
        expected_value_type: value_type,
        expected_unit,
        aliases,
        domain: DomainId(1),
        verification_threshold,
    }
}

/// The predicate-name index after the predicates `1..=n` of `preds` were
/// added, in order, to `m`.
pub open spec fn names_after(m: Map<Seq<char>, PredicateId>, preds: Map<u32, Predicate>, n: nat) -> Map<Seq<char>, PredicateId>
    decreases n,
{
    if n == 0 {
        m
    } else {
        index_predicate(names_after(m, preds, (n - 1) as nat), preds[n as u32])
    }
}

/// Adds the nine geography predicates, identifiers 1 to 9.
#[verifier::spinoff_prover]
pub fn add_predicates(vault: &mut Vault)
    requires
        old(vault).graph.wf(),
    ensures
        final(vault).graph.wf(),
        forall|id: u32| 1 <= id <= 9 ==> #[trigger] final(vault).graph@.predicates.contains_key(id)
            && geography_predicate(final(vault).graph@.predicates[id], id),
        forall|k: u32| !(1 <= k <= 9) ==> (#[trigger] final(vault).graph@.predicates.contains_key(k)
            == old(vault).graph@.predicates.contains_key(k)) && (old(vault).graph@.predicates.contains_key(k)
            ==> final(vault).graph@.predicates[k] == old(vault).graph@.predicates[k]),
        final(vault).graph@.predicate_names == names_after(
            old(vault).graph@.predicate_names,
            final(vault).graph@.predicates,
            9,
        ),
        final(vault).graph@.entities == old(vault).graph@.entities,
        final(vault).graph@.relations == old(vault).graph@.relations,
        final(vault).graph@.labels == old(vault).graph@.labels,
        final(vault).version == old(vault).version,
        final(vault).domain == old(vault).domain,
{
    let mut id: u32 = 1;
    while id <= 9
        invariant
            1 <= id <= 10,
            vault.graph.wf(),
            forall|j: u32| 1 <= j < id ==> #[trigger] vault.graph@.predicates.contains_key(j)
                && geography_predicate(vault.graph@.predicates[j], j),
            forall|k: u32| !(1 <= k < id) ==> (#[trigger] vault.graph@.predicates.contains_key(k)
                == old(vault).graph@.predicates.contains_key(k)) && (old(vault).graph@.predicates.contains_key(k)
                ==> vault.graph@.predicates[k] == old(vault).graph@.predicates[k]),
            vault.graph@.predicate_names == names_after(
                old(vault).graph@.predicate_names,
                vault.graph@.predicates,
                (id - 1) as nat,
            ),
            vault.graph@.entities == old(vault).graph@.entities,
            vault.graph@.relations == old(vault).graph@.relations,
            vault.graph@.labels == old(vault).graph@.labels,
            vault.version == old(vault).version,
            vault.domain == old(vault).domain,
        decreases 10 - id,
    {
        let ghost before = vault.graph@.predicates;
        let p = make_geography_predicate(id);
        vault.add_predicate(p);
        proof {
            lemma_names_after_frame(
                old(vault).graph@.predicate_names,
                before,
                vault.graph@.predicates,
                (id - 1) as nat,
            );
        }
        let ghost added = id;
        id = id + 1;
        assert forall|k: u32| !(1 <= k < id) implies (#[trigger] vault.graph@.predicates.contains_key(k)
            == old(vault).graph@.predicates.contains_key(k)) && (old(vault).graph@.predicates.contains_key(k)
            ==> vault.graph@.predicates[k] == old(vault).graph@.predicates[k]) by {
            assert(k != added);
            assert(!(1 <= k < added));
            assert(before.contains_key(k) == old(vault).graph@.predicates.contains_key(k));
            if old(vault).graph@.predicates.contains_key(k) {
                assert(before[k] == old(vault).graph@.predicates[k]);
            }
        }
    }
    assert forall|j: u32| 1 <= j <= 9 implies #[trigger] vault.graph@.predicates.contains_key(j)
        && geography_predicate(vault.graph@.predicates[j], j) by {
        assert(1 <= j < id);
    }
}

proof fn lemma_names_after_frame(
    m: Map<Seq<char>, PredicateId>,
    a: Map<u32, Predicate>,
    b: Map<u32, Predicate>,
    n: nat,
)
    requires
        n < 0x1_0000_0000,
        forall|k: u32| 1 <= k <= n ==> a[k] == b[k],
    ensures
        names_after(m, a, n) == names_after(m, b, n),
    decreases n,
{
    if n > 0 {
        lemma_names_after_frame(m, a, b, (n - 1) as nat);
        assert(a[n as u32] == b[n as u32]);
    }
}

/// `d` is the geography domain: identifier 1, no parent, 180 days of cache,
/// 5% numeric tolerance, exact dates, 1 km for coordinates.
pub open spec fn geography_domain(d: Domain) -> bool {
    &&& d.id == DomainId(1)
    &&& d.name@ == "geography"@
    &&& d.parent is None
    &&& d.config.cache_ttl_secs == 180 * 24 * 3600
    &&& d.config.numeric_tolerance == FloatBits(FLOAT_FIVE_HUNDREDTHS)
    &&& d.config.date_tolerance_days == 0
    &&& d.config.coordinate_tolerance_km == FloatBits(FLOAT_ONE)
}

/// The vault that the import fills: the geography domain, version
/// "geography-v2026Q2", the nine geography predicates, no entity and no
/// relation yet.
pub fn geography_vault() -> (v: Vault)
    ensures
        v.graph.wf(),
        geography_domain(v.domain),
        v.version@ == "geography-v2026Q2"@,
        v.graph@.entities == Map::<u64, Entity>::empty(),
        v.graph@.relations == Seq::<Relation>::empty(),
        v.graph@.labels == Map::<Seq<char>, EntityId>::empty(),
        v.graph@.predicates.dom() == Set::new(|k: u32| 1 <= k <= 9),
        forall|id: u32| 1 <= id <= 9 ==> #[trigger] geography_predicate(v.graph@.predicates[id], id),
        v.graph@.predicate_names == names_after(
            Map::<Seq<char>, PredicateId>::empty(),
            v.graph@.predicates,
            9,
        ),
{
    let domain = Domain {
        id: DomainId(1),
        name: String::from_str("geography"),
        parent: None,
        config: DomainConfig {
            cache_ttl_secs: 180 * 24 * 3600,
            numeric_tolerance: FloatBits(FLOAT_FIVE_HUNDREDTHS),
            date_tolerance_days: 0,
            coordinate_tolerance_km: FloatBits(FLOAT_ONE),
        },
    };
    let mut vault = Vault::new(domain, String::from_str("geography-v2026Q2"));
    add_predicates(&mut vault);
    assert forall|id: u32| 1 <= id <= 9 implies #[trigger] geography_predicate(vault.graph@.predicates[id], id) by {
        assert(vault.graph@.predicates.contains_key(id));
    }
    assert(vault.graph@.predicates.dom() =~= Set::new(|k: u32| 1 <= k <= 9)) by {
        assert forall|k: u32| vault.graph@.predicates.contains_key(k) <==> 1 <= k <= 9 by {
            if 1 <= k <= 9 {
                assert(vault.graph@.predicates.contains_key(k));
            }
        }
    }
    vault
}

} // verus!
