//! The vault: a knowledge graph with its version and domain, and the
//! structured query against it.

use vstd::prelude::*;
use crate::error::Result;
use crate::graph::{derefs, index_labels, index_predicate, same_option, GraphView, KnowledgeGraph};
use crate::types::{Domain, Entity, EntityId, Predicate, PredicateId, Relation};

verus! {

/// The vault: the source of truth.
pub struct Vault {
    pub graph: KnowledgeGraph,
    pub version: String,
    pub domain: Domain,
}

/// A structured query: the label of a subject and the name of a predicate.
#[derive(Debug)]
pub struct VaultQuery {
    pub subject_label: String,
    pub predicate_name: String,
}

/// The answer to a query: the entity, the predicate, and the relations
/// that state the predicate of the entity.
#[derive(Debug)]
pub struct VaultQueryResult<'a> {
    pub entity: &'a Entity,
    pub predicate: &'a Predicate,
    pub relations: Vec<&'a Relation>,
}

impl Vault {
    /// An empty vault for a domain.
    pub fn new(domain: Domain, version: String) -> (r: Self)
        ensures
            r.graph.wf(),
            r.graph@.entities == Map::<u64, Entity>::empty(),
            r.graph@.relations == Seq::<Relation>::empty(),
            r.graph@.predicates == Map::<u32, Predicate>::empty(),
            r.graph@.labels == Map::<Seq<char>, EntityId>::empty(),
            r.graph@.predicate_names == Map::<Seq<char>, PredicateId>::empty(),
            r.version == version,
            r.domain == domain,
    {
        Vault { graph: KnowledgeGraph::new(), version, domain }
    }

    /// Adds an entity (see `KnowledgeGraph::add_entity`).
    pub fn add_entity(&mut self, entity: Entity)
        requires
            old(self).graph.wf(),
        ensures
            final(self).graph.wf(),
            final(self).graph@.entities == old(self).graph@.entities.insert(entity.id.0, entity),
            final(self).graph@.labels == index_labels(
                old(self).graph@.labels,
                entity.labels@,
                entity.id,
            ),
            final(self).graph@.relations == old(self).graph@.relations,
            final(self).graph@.predicates == old(self).graph@.predicates,
            final(self).graph@.predicate_names == old(self).graph@.predicate_names,
            final(self).version == old(self).version,
            final(self).domain == old(self).domain,
    {
        self.graph.add_entity(entity);
    }

    /// Adds a relation (see `KnowledgeGraph::add_relation`).
    pub fn add_relation(&mut self, relation: Relation)
        requires
            old(self).graph.wf(),
            old(self).graph@.relations.len() < usize::MAX,
        ensures
            final(self).graph.wf(),
            final(self).graph@.relations == old(self).graph@.relations.push(relation),
            final(self).graph@.entities == old(self).graph@.entities,
            final(self).graph@.predicates == old(self).graph@.predicates,
            final(self).graph@.labels == old(self).graph@.labels,
            final(self).graph@.predicate_names == old(self).graph@.predicate_names,
            final(self).version == old(self).version,
            final(self).domain == old(self).domain,
    {
        self.graph.add_relation(relation);
    }

    /// Adds a predicate definition (see `KnowledgeGraph::add_predicate`).
    pub fn add_predicate(&mut self, predicate: Predicate)
        requires
            old(self).graph.wf(),
        ensures
            final(self).graph.wf(),
            final(self).graph@.predicates == old(self).graph@.predicates.insert(
                predicate.id.0,
                predicate,
            ),
            final(self).graph@.predicate_names == index_predicate(
                old(self).graph@.predicate_names,
                predicate,
            ),
            final(self).graph@.entities == old(self).graph@.entities,
            final(self).graph@.relations == old(self).graph@.relations,
            final(self).graph@.labels == old(self).graph@.labels,
            final(self).version == old(self).version,
            final(self).domain == old(self).domain,
    {
        self.graph.add_predicate(predicate);
    }

    /// The relations stating `predicate` of `subject`.
    pub fn lookup(&self, subject: EntityId, predicate: PredicateId) -> (r: Vec<&Relation>)
        requires
            self.graph.wf(),
        ensures
            derefs(r@) == self.graph@.lookup(subject, predicate),
    {
        self.graph.lookup(subject, predicate)
    }

    /// The entity that `label` names, in any language, case aside.
    pub fn find_entity_by_label(&self, label: &str) -> (r: Option<&Entity>)
        requires
            self.graph.wf(),
        ensures
            same_option(r, self.graph@.entity_by_label(label@)),
    {
        self.graph.find_entity_by_label(label)
    }

    /// The predicate that `name` names (its name or an alias), case aside.
    pub fn find_predicate(&self, name: &str) -> (r: Option<&Predicate>)
        requires
            self.graph.wf(),
        ensures
            same_option(r, self.graph@.predicate_by_name(name@)),
    {
        self.graph.find_predicate(name)
    }

    /// The entity with identifier `id`.
    pub fn get_entity(&self, id: EntityId) -> (r: Option<&Entity>)
        ensures
            same_option(r, self.graph@.entity(id)),
    {
        self.graph.get_entity(id)
    }

    /// The relations whose subject is `subject` (outgoing).
    pub fn relations_from(&self, subject: EntityId) -> (r: Vec<&Relation>)
        requires
            self.graph.wf(),
        ensures
            derefs(r@) == self.graph@.relations_from(subject),
    {
        self.graph.relations_from(subject)
    }

    /// The relations whose value refers to `target` (incoming).
    pub fn relations_to(&self, target: EntityId) -> (r: Vec<&Relation>)
        requires
            self.graph.wf(),
        ensures
            derefs(r@) == self.graph@.relations_to(target),
    {
        self.graph.relations_to(target)
    }

    /// The number of entities.
    pub fn entity_count(&self) -> (r: usize)
        ensures
            r == self.graph@.entities.len(),
    {
        self.graph.entity_count()
    }

    /// The number of relations.
    pub fn relation_count(&self) -> (r: usize)
        ensures
            r == self.graph@.relations.len(),
    {
        self.graph.relation_count()
    }

    /// A structured query: the entity that the subject label names, the
    /// predicate that the name names, and the relations between them; `None`
    /// when either is unknown or no relation states the predicate.
    pub fn query(&self, q: &VaultQuery) -> (r: Result<Option<VaultQueryResult<'_>>>)
        requires
            self.graph.wf(),
        ensures
            r is Ok,
            r matches Ok(found) ==> query_answers(self.graph@, q.subject_label@, q.predicate_name@, found),
    {
        let entity = match self.find_entity_by_label(q.subject_label.as_str()) {
            Some(e) => e,
            None => return Ok(None),
        };
        let predicate = match self.find_predicate(q.predicate_name.as_str()) {
            Some(p) => p,
            None => return Ok(None),
        };
        let relations = self.lookup(entity.id, predicate.id);
        if relations.len() == 0 {
            return Ok(None);
        }
        Ok(Some(VaultQueryResult { entity, predicate, relations }))
    }
}

/// `found` is the answer of `g` to a query for `label` and `name`.
pub open spec fn query_answers(
    g: GraphView,
    label: Seq<char>,
    name: Seq<char>,
    found: Option<VaultQueryResult>,
) -> bool {
    match (g.entity_by_label(label), g.predicate_by_name(name)) {
        (Some(e), Some(p)) => {
            let rels = g.lookup(e.id, p.id);
            if rels.len() == 0 {
                found is None
            } else {
                found matches Some(res) && *res.entity == e && *res.predicate == p && derefs(
                    res.relations@,
                ) == rels
            }
        },
        _ => found is None,
    }
}

/// The entities `es` added one after the other to `m`, each under its
/// identifier (a later one replaces an earlier one with the same).
pub open spec fn entity_map(m: Map<u64, Entity>, es: Seq<Entity>) -> Map<u64, Entity>
    decreases es.len(),
{
    if es.len() == 0 {
        m
    } else {
        entity_map(m, es.drop_last()).insert(es.last().id.0, es.last())
    }
}

/// The label index after the labels of the entities `es` are indexed, one
/// entity after the other.
pub open spec fn label_map(m: Map<Seq<char>, EntityId>, es: Seq<Entity>) -> Map<Seq<char>, EntityId>
    decreases es.len(),
{
    if es.len() == 0 {
        m
    } else {
        index_labels(label_map(m, es.drop_last()), es.last().labels@, es.last().id)
    }
}

/// The predicates `ps` added one after the other to `m`, each under its
/// identifier.
pub open spec fn predicate_map(m: Map<u32, Predicate>, ps: Seq<Predicate>) -> Map<u32, Predicate>
    decreases ps.len(),
{
    if ps.len() == 0 {
        m
    } else {
        predicate_map(m, ps.drop_last()).insert(ps.last().id.0, ps.last())
    }
}

/// The name index after the names and aliases of the predicates `ps` are
/// indexed, one predicate after the other.
pub open spec fn name_map(m: Map<Seq<char>, PredicateId>, ps: Seq<Predicate>) -> Map<Seq<char>, PredicateId>
    decreases ps.len(),
{
    if ps.len() == 0 {
        m
    } else {
        index_predicate(name_map(m, ps.drop_last()), ps.last())
    }
}

/// A vault rebuilt from its parts: the predicates first, then the entities,
/// then the relations, each in the given order.
pub fn vault_from_data(
    domain: Domain,
    version: String,
    predicates: Vec<Predicate>,
    entities: Vec<Entity>,
    relations: Vec<Relation>,
) -> (r: Vault)
    requires
        relations@.len() < usize::MAX,
    ensures
        r.graph.wf(),
        r.version == version,
        r.domain == domain,
        r.graph@.predicates == predicate_map(Map::empty(), predicates@),
        r.graph@.predicate_names == name_map(Map::empty(), predicates@),
        r.graph@.entities == entity_map(Map::empty(), entities@),
        r.graph@.labels == label_map(Map::empty(), entities@),
        r.graph@.relations == relations@,
{
    let mut vault = Vault::new(domain, version);
    let ghost ps = predicates@;
    let ghost es = entities@;
    for p in it: predicates
        invariant
            vault.graph.wf(),
            vault.version == version,
            vault.domain == domain,
            it.seq() == ps,
            vault.graph@.relations.len() == 0,
            vault.graph@.entities == Map::<u64, Entity>::empty(),
            vault.graph@.labels == Map::<Seq<char>, EntityId>::empty(),
            vault.graph@.predicates == predicate_map(Map::empty(), ps.take(it.index() as int)),
            vault.graph@.predicate_names == name_map(Map::empty(), ps.take(it.index() as int)),
    {
        proof {
            assert(ps.take(it.index() + 1).drop_last() =~= ps.take(it.index() as int));
        }
        vault.add_predicate(p);
    }
    proof {
        assert(ps.take(ps.len() as int) =~= ps);
    }
    for e in it: entities
        invariant
            vault.graph.wf(),
            vault.version == version,
            vault.domain == domain,
            it.seq() == es,
            vault.graph@.relations.len() == 0,
            vault.graph@.predicates == predicate_map(Map::empty(), ps),
            vault.graph@.predicate_names == name_map(Map::empty(), ps),
            vault.graph@.entities == entity_map(Map::empty(), es.take(it.index() as int)),
            vault.graph@.labels == label_map(Map::empty(), es.take(it.index() as int)),
    {
        proof {
            assert(es.take(it.index() + 1).drop_last() =~= es.take(it.index() as int));
        }
        vault.add_entity(e);
    }
    proof {
        assert(es.take(es.len() as int) =~= es);
    }
    for rel in it: relations
        invariant
            vault.graph.wf(),
            vault.version == version,
            vault.domain == domain,
            it.seq() == relations@,
            relations@.len() < usize::MAX,
            vault.graph@.predicates == predicate_map(Map::empty(), ps),
            vault.graph@.predicate_names == name_map(Map::empty(), ps),
            vault.graph@.entities == entity_map(Map::empty(), es),
            vault.graph@.labels == label_map(Map::empty(), es),
            vault.graph@.relations == relations@.take(it.index() as int),
    {
        vault.add_relation(rel);
        assert(vault.graph@.relations =~= relations@.take(it.index() + 1));
    }
    assert(relations@.take(relations@.len() as int) =~= relations@);
    vault
}

proof fn lemma_entity_map_from(m: Map<u64, Entity>, es: Seq<Entity>)
    requires
        forall|i: int| 0 <= i < es.len() ==> m.contains_key(#[trigger] es[i].id.0) && m[es[i].id.0] == es[i],
    ensures
        forall|k: u64| #[trigger]
            entity_map(Map::empty(), es).contains_key(k) <==> exists|i: int| 0 <= i < es.len() && es[i].id.0 == k,
        forall|k: u64| #[trigger]
            entity_map(Map::empty(), es).contains_key(k) ==> entity_map(Map::empty(), es)[k] == m[k],
    decreases es.len(),
{
    if es.len() > 0 {
        let prev = es.drop_last();
        assert forall|i: int| 0 <= i < prev.len() implies m.contains_key(#[trigger] prev[i].id.0) && m[prev[i].id.0]
            == prev[i] by {
            assert(prev[i] == es[i]);
        }
        lemma_entity_map_from(m, prev);
        assert forall|k: u64| #[trigger]
            entity_map(Map::empty(), es).contains_key(k) <==> exists|i: int| 0 <= i < es.len() && es[i].id.0 == k by {
            if exists|i: int| 0 <= i < es.len() && es[i].id.0 == k {
                let i = choose|i: int| 0 <= i < es.len() && es[i].id.0 == k;
                if i < es.len() - 1 {
                    assert(prev[i] == es[i]);
                }
            }
            if entity_map(Map::empty(), prev).contains_key(k) {
                let i = choose|i: int| 0 <= i < prev.len() && prev[i].id.0 == k;
                assert(es[i] == prev[i]);
            }
        }
        let last = es[es.len() - 1];
        assert(last == es.last());
        assert(m.contains_key(last.id.0) && m[last.id.0] == last);
        assert forall|k: u64| #[trigger] entity_map(Map::empty(), es).contains_key(k) implies entity_map(Map::empty(), es)[k]
            == m[k] by {
            if k != last.id.0 {
                assert(entity_map(Map::empty(), prev).contains_key(k));
            }
        }
    }
}

proof fn lemma_predicate_map_from(m: Map<u32, Predicate>, ps: Seq<Predicate>)
    requires
        forall|i: int| 0 <= i < ps.len() ==> m.contains_key(#[trigger] ps[i].id.0) && m[ps[i].id.0] == ps[i],
    ensures
        forall|k: u32| #[trigger]
            predicate_map(Map::empty(), ps).contains_key(k) <==> exists|i: int| 0 <= i < ps.len() && ps[i].id.0 == k,
        forall|k: u32| #[trigger]
            predicate_map(Map::empty(), ps).contains_key(k) ==> predicate_map(Map::empty(), ps)[k] == m[k],
    decreases ps.len(),
{
    if ps.len() > 0 {
        let prev = ps.drop_last();
        assert forall|i: int| 0 <= i < prev.len() implies m.contains_key(#[trigger] prev[i].id.0) && m[prev[i].id.0]
            == prev[i] by {
            assert(prev[i] == ps[i]);
        }
        lemma_predicate_map_from(m, prev);
        assert forall|k: u32| #[trigger]
            predicate_map(Map::empty(), ps).contains_key(k) <==> exists|i: int| 0 <= i < ps.len() && ps[i].id.0 == k by {
            if exists|i: int| 0 <= i < ps.len() && ps[i].id.0 == k {
                let i = choose|i: int| 0 <= i < ps.len() && ps[i].id.0 == k;
                if i < ps.len() - 1 {
                    assert(prev[i] == ps[i]);
                }
            }
            if predicate_map(Map::empty(), prev).contains_key(k) {
                let i = choose|i: int| 0 <= i < prev.len() && prev[i].id.0 == k;
                assert(ps[i] == prev[i]);
            }
        }
        let last = ps[ps.len() - 1];
        assert(last == ps.last());
        assert(m.contains_key(last.id.0) && m[last.id.0] == last);
        assert forall|k: u32| #[trigger] predicate_map(Map::empty(), ps).contains_key(k) implies predicate_map(Map::empty(), ps)[k]
            == m[k] by {
            if k != last.id.0 {
                assert(predicate_map(Map::empty(), prev).contains_key(k));
            }
        }
    }
}

/// A vault rebuilt from the entities and predicates that a vault lists (in
/// any order, as `all_entities` and `all_predicates` give them) has the
/// same entities and predicates, each under its own identifier.
pub proof fn lemma_rebuild_from_lists(g: GraphView, es: Seq<Entity>, ps: Seq<Predicate>)
    requires
        forall|k: u64| #[trigger] g.entities.contains_key(k) ==> g.entities[k].id.0 == k,
        forall|k: u32| #[trigger] g.predicates.contains_key(k) ==> g.predicates[k].id.0 == k,
        forall|e: Entity| g.entities.values().contains(e) <==> es.contains(e),
        forall|p: Predicate| g.predicates.values().contains(p) <==> ps.contains(p),
    ensures
        entity_map(Map::empty(), es) == g.entities,
        predicate_map(Map::empty(), ps) == g.predicates,
{
    assert forall|i: int| 0 <= i < es.len() implies g.entities.contains_key(#[trigger] es[i].id.0)
        && g.entities[es[i].id.0] == es[i] by {
        assert(es.contains(es[i]));
        let k = choose|k: u64| #[trigger] g.entities.contains_key(k) && g.entities[k] == es[i];
        assert(g.entities[k].id.0 == k);
    }
    lemma_entity_map_from(g.entities, es);
    assert forall|k: u64| #[trigger] g.entities.contains_key(k) implies entity_map(Map::empty(), es).contains_key(k) by {
        assert(g.entities.values().contains(g.entities[k]));
        assert(es.contains(g.entities[k]));
        let i = choose|i: int| 0 <= i < es.len() && es[i] == g.entities[k];
        assert(es[i].id.0 == k);
    }
    assert(entity_map(Map::empty(), es) =~= g.entities);
    assert forall|i: int| 0 <= i < ps.len() implies g.predicates.contains_key(#[trigger] ps[i].id.0)
        && g.predicates[ps[i].id.0] == ps[i] by {
        assert(ps.contains(ps[i]));
        let k = choose|k: u32| #[trigger] g.predicates.contains_key(k) && g.predicates[k] == ps[i];
        assert(g.predicates[k].id.0 == k);
    }
    lemma_predicate_map_from(g.predicates, ps);
    assert forall|k: u32| #[trigger] g.predicates.contains_key(k) implies predicate_map(Map::empty(), ps).contains_key(k) by {
        assert(g.predicates.values().contains(g.predicates[k]));
        assert(ps.contains(g.predicates[k]));
        let i = choose|i: int| 0 <= i < ps.len() && ps[i] == g.predicates[k];
        assert(ps[i].id.0 == k);
    }
    assert(predicate_map(Map::empty(), ps) =~= g.predicates);
}

} // verus!
