//! In-memory knowledge graph with indexed access.

use std::collections::HashMap;
use std::hash::Hash;
use vstd::prelude::*;
use vstd::std_specs::hash::obeys_key_model;
use crate::types::{Entity, EntityId, Label, Predicate, PredicateId, Relation, Value};
use crate::text::{lowercase_of, owned, text_eq, to_lowercase};
use crate::text_index::TextIndex;

verus! {

broadcast use vstd::std_specs::hash::group_hash_axioms;

/// What a knowledge graph holds.
pub struct GraphView {
    /// Entities by the number of their identifier.
    pub entities: Map<u64, Entity>,
    /// Relations in the order they were added.
    pub relations: Seq<Relation>,
    /// Predicates by the number of their identifier.
    pub predicates: Map<u32, Predicate>,
    /// Lower-case label to entity.
    pub labels: Map<Seq<char>, EntityId>,
    /// Lower-case predicate name or alias to predicate.
    pub predicate_names: Map<Seq<char>, PredicateId>,
}

/// The positions, in increasing order, of the relations that `keep` selects.
pub open spec fn positions(rels: Seq<Relation>, keep: spec_fn(Relation) -> bool) -> Seq<usize>
    decreases rels.len(),
{
    if rels.len() == 0 {
        Seq::empty()
    } else {
        let prev = positions(rels.drop_last(), keep);
        if keep(rels.last()) {
            prev.push((rels.len() - 1) as usize)
        } else {
            prev
        }
    }
}

/// Selects the relations whose subject is `s`.
pub open spec fn has_subject(s: EntityId) -> spec_fn(Relation) -> bool {
    |r: Relation| r.subject == s
}

/// Selects the relations whose subject is `s` and whose predicate is `p`.
pub open spec fn has_subject_predicate(s: EntityId, p: PredicateId) -> spec_fn(Relation) -> bool {
    |r: Relation| r.subject == s && r.predicate == p
}

/// Selects the relations whose value is a reference to `t`.
pub open spec fn has_target(t: EntityId) -> spec_fn(Relation) -> bool {
    |r: Relation| r.value matches Value::Entity(x) && x == t
}

/// The relations at `idx`, in that order.
pub open spec fn at_positions(rels: Seq<Relation>, idx: Seq<usize>) -> Seq<Relation> {
    idx.map_values(|i: usize| rels[i as int])
}

/// The relations that `keep` selects, in the order they were added.
pub open spec fn select(rels: Seq<Relation>, keep: spec_fn(Relation) -> bool) -> Seq<Relation> {
    at_positions(rels, positions(rels, keep))
}

/// The relations that `r` refers to, in order.
pub open spec fn derefs(r: Seq<&Relation>) -> Seq<Relation> {
    r.map_values(|x: &Relation| *x)
}

/// `labels`, lower-cased, each mapped to `id`, in order.
pub open spec fn index_labels(
    m: Map<Seq<char>, EntityId>,
    labels: Seq<Label>,
    id: EntityId,
) -> Map<Seq<char>, EntityId>
    decreases labels.len(),
{
    if labels.len() == 0 {
        m
    } else {
        index_labels(m, labels.drop_last(), id).insert(lowercase_of(labels.last().text@), id)
    }
}

/// `names`, lower-cased, each mapped to `id`, in order.
pub open spec fn index_names(
    m: Map<Seq<char>, PredicateId>,
    names: Seq<String>,
    id: PredicateId,
) -> Map<Seq<char>, PredicateId>
    decreases names.len(),
{
    if names.len() == 0 {
        m
    } else {
        index_names(m, names.drop_last(), id).insert(lowercase_of(names.last()@), id)
    }
}

/// The names of predicate `p` in the name index: its name, then its
/// aliases, lower-cased.
pub open spec fn index_predicate(
    m: Map<Seq<char>, PredicateId>,
    p: Predicate,
) -> Map<Seq<char>, PredicateId> {
    index_names(m.insert(lowercase_of(p.name@), p.id), p.aliases@, p.id)
}

impl GraphView {
    /// The entity with identifier `id`.
    pub open spec fn entity(self, id: EntityId) -> Option<Entity> {
        if self.entities.contains_key(id.0) {
            Some(self.entities[id.0])
        } else {
            None
        }
    }

    /// The predicate with identifier `id`.
    pub open spec fn predicate(self, id: PredicateId) -> Option<Predicate> {
        if self.predicates.contains_key(id.0) {
            Some(self.predicates[id.0])
        } else {
            None
        }
    }

    /// The entity that `label` names, case aside.
    pub open spec fn entity_by_label(self, label: Seq<char>) -> Option<Entity> {
        let key = lowercase_of(label);
        if self.labels.contains_key(key) {
            self.entity(self.labels[key])
        } else {
            None
        }
    }

    /// The predicate that `name` names (name or alias), case aside.
    pub open spec fn predicate_by_name(self, name: Seq<char>) -> Option<Predicate> {
        let key = lowercase_of(name);
        if self.predicate_names.contains_key(key) {
            self.predicate(self.predicate_names[key])
        } else {
            None
        }
    }

    /// The relations stating `predicate` of `subject`.
    pub open spec fn lookup(self, subject: EntityId, predicate: PredicateId) -> Seq<Relation> {
        select(self.relations, has_subject_predicate(subject, predicate))
    }

    /// The relations whose subject is `subject`.
    pub open spec fn relations_from(self, subject: EntityId) -> Seq<Relation> {
        select(self.relations, has_subject(subject))
    }

    /// The relations whose value refers to `target`.
    pub open spec fn relations_to(self, target: EntityId) -> Seq<Relation> {
        select(self.relations, has_target(target))
    }
}

/// `a` refers to the value `b` holds, if any.
pub open spec fn same_option<T>(a: Option<&T>, b: Option<T>) -> bool {
    match a {
        Some(x) => b == Some(*x),
        None => b is None,
    }
}

/// The key that combines a subject and a predicate number.
pub open spec fn pair_key(s: u64, p: u32) -> u128 {
    ((s as int) * 0x1_0000_0000 + (p as int)) as u128
}

proof fn lemma_pair_key_injective(s1: u64, p1: u32, s2: u64, p2: u32)
    requires
        pair_key(s1, p1) == pair_key(s2, p2),
    ensures
        s1 == s2,
        p1 == p2,
{
    assert(s1 == s2 && p1 == p2) by (nonlinear_arith)
        requires
            (s1 as int) * 0x1_0000_0000 + (p1 as int) == (s2 as int) * 0x1_0000_0000 + (p2 as int),
            (s1 as int) * 0x1_0000_0000 + (p1 as int) < 0x1_0000_0000_0000_0000_0000_0000,
            0 <= p1 < 0x1_0000_0000,
            0 <= p2 < 0x1_0000_0000,
            0 <= s1,
            0 <= s2,
    ;
}

fn pair_key_of(s: u64, p: u32) -> (r: u128)
    ensures
        r == pair_key(s, p),
{
    assert((s as int) * 0x1_0000_0000 + (p as int) < 0x1_0000_0000_0000_0000_0000_0000) by (nonlinear_arith)
        requires
            s < 0x1_0000_0000_0000_0000,
            p < 0x1_0000_0000,
    ;
    (s as u128) * 0x1_0000_0000u128 + (p as u128)
}

/// The positions stored under `k`, or none.
pub open spec fn entry<K>(m: Map<K, Vec<usize>>, k: K) -> Seq<usize> {
    if m.contains_key(k) {
        m[k]@
    } else {
        Seq::empty()
    }
}

proof fn lemma_positions_push(rels: Seq<Relation>, r: Relation, keep: spec_fn(Relation) -> bool)
    ensures
        positions(rels.push(r), keep) == if keep(r) {
            positions(rels, keep).push(rels.len() as usize)
        } else {
            positions(rels, keep)
        },
{
    assert(rels.push(r).drop_last() =~= rels);
}

proof fn lemma_positions_bound(rels: Seq<Relation>, keep: spec_fn(Relation) -> bool)
    requires
        rels.len() <= usize::MAX,
    ensures
        forall|i: int|
            0 <= i < positions(rels, keep).len() ==> #[trigger] positions(rels, keep)[i]
                < rels.len(),
        forall|i: int|
            0 <= i < positions(rels, keep).len() ==> keep(rels[positions(rels, keep)[i] as int]),
    decreases rels.len(),
{
    if rels.len() > 0 {
        let prev = rels.drop_last();
        lemma_positions_bound(prev, keep);
        let pp = positions(prev, keep);
        let ps = positions(rels, keep);
        assert forall|i: int| 0 <= i < ps.len() implies #[trigger] ps[i] < rels.len() && keep(
            rels[ps[i] as int],
        ) by {
            if i < pp.len() {
                assert(ps[i] == pp[i]);
                assert(pp[i] < prev.len());
                assert(keep(prev[pp[i] as int]));
                assert(prev[pp[i] as int] == rels[pp[i] as int]);
            }
        }
    }
}

/// Adds `i` to the positions stored under `k`.
fn append_position<K: Eq + Hash + Copy>(m: &mut HashMap<K, Vec<usize>>, k: K, i: usize)
    requires
        obeys_key_model::<K>(),
    ensures
        entry(final(m)@, k) == entry(old(m)@, k).push(i),
        forall|k2: K| k2 != k ==> entry(final(m)@, k2) == entry(old(m)@, k2),
{
    let mut v = match m.remove(&k) {
        Some(v) => v,
        None => Vec::new(),
    };
    v.push(i);
    m.insert(k, v);
}

/// The knowledge graph: entities, relations, predicates, and the indexes
/// that find them.
pub struct KnowledgeGraph {
    entities: HashMap<u64, Entity>,
    relations: Vec<Relation>,
    predicates: HashMap<u32, Predicate>,
    /// Lower-case label to entity.
    label_index: TextIndex<EntityId>,
    /// (subject, predicate) to relation positions.
    subject_predicate_index: HashMap<u128, Vec<usize>>,
    /// Subject to relation positions.
    subject_index: HashMap<u64, Vec<usize>>,
    /// Lower-case predicate name or alias to predicate.
    predicate_name_index: TextIndex<PredicateId>,
    /// Target entity (for entity values) to relation positions.
    target_index: HashMap<u64, Vec<usize>>,
}

impl View for KnowledgeGraph {
    type V = GraphView;

    closed spec fn view(&self) -> GraphView {
        GraphView {
            entities: self.entities@,
            relations: self.relations@,
            predicates: self.predicates@,
            labels: self.label_index.view(),
            predicate_names: self.predicate_name_index.view(),
        }
    }
}

impl KnowledgeGraph {
    /// The indexes agree with the relations, and entities and predicates are
    /// stored under their own identifiers.
    pub closed spec fn wf(&self) -> bool {
        &&& self.label_index.wf()
        &&& self.predicate_name_index.wf()
        &&& self.relations@.len() <= usize::MAX
        &&& forall|k: u64| #[trigger]
            self.entities@.contains_key(k) ==> self.entities@[k].id.0 == k
        &&& forall|k: u32| #[trigger]
            self.predicates@.contains_key(k) ==> self.predicates@[k].id.0 == k
        &&& forall|s: u64| #[trigger]
            entry(self.subject_index@, s) == positions(self.relations@, has_subject(EntityId(s)))
        &&& forall|t: u64| #[trigger]
            entry(self.target_index@, t) == positions(self.relations@, has_target(EntityId(t)))
        &&& forall|s: u64, p: u32| #[trigger]
            entry(self.subject_predicate_index@, pair_key(s, p)) == positions(
                self.relations@,
                has_subject_predicate(EntityId(s), PredicateId(p)),
            )
    }

    /// An empty graph.
    pub fn new() -> (r: Self)
        ensures
            r.wf(),
            r@.entities == Map::<u64, Entity>::empty(),
            r@.relations == Seq::<Relation>::empty(),
            r@.predicates == Map::<u32, Predicate>::empty(),
            r@.labels == Map::<Seq<char>, EntityId>::empty(),
            r@.predicate_names == Map::<Seq<char>, PredicateId>::empty(),
    {
        KnowledgeGraph {
            entities: HashMap::new(),
            relations: Vec::new(),
            predicates: HashMap::new(),
            label_index: TextIndex::new(),
            subject_predicate_index: HashMap::new(),
            subject_index: HashMap::new(),
            predicate_name_index: TextIndex::new(),
            target_index: HashMap::new(),
        }
    }

    /// Adds an entity and indexes each of its labels, lower-cased. An
    /// entity with the same identifier is replaced; a label that named
    /// another entity now names this one.
    pub fn add_entity(&mut self, entity: Entity)
        requires
            old(self).wf(),
        ensures
            final(self).wf(),
            final(self)@.entities == old(self)@.entities.insert(entity.id.0, entity),
            final(self)@.labels == index_labels(old(self)@.labels, entity.labels@, entity.id),
            final(self)@.relations == old(self)@.relations,
            final(self)@.predicates == old(self)@.predicates,
            final(self)@.predicate_names == old(self)@.predicate_names,
    {
        let n = entity.labels.len();
        let mut i: usize = 0;
        while i < n
            invariant
                n == entity.labels@.len(),
                i <= n,
                self.label_index.wf(),
                self.label_index.view() == index_labels(
                    old(self).label_index.view(),
                    entity.labels@.take(i as int),
                    entity.id,
                ),
                self.entities == old(self).entities,
                self.relations == old(self).relations,
                self.predicates == old(self).predicates,
                self.subject_index == old(self).subject_index,
                self.target_index == old(self).target_index,
                self.subject_predicate_index == old(self).subject_predicate_index,
                self.predicate_name_index == old(self).predicate_name_index,
            decreases n - i,
        {
            let key = to_lowercase(entity.labels[i].text.as_str());
            self.label_index.insert(key, entity.id);
            assert(entity.labels@.take(i + 1).drop_last() =~= entity.labels@.take(i as int));
            i = i + 1;
        }
        assert(entity.labels@.take(n as int) =~= entity.labels@);
        let id = entity.id.0;
        self.entities.insert(id, entity);
    }

    /// Appends a relation and indexes it by subject, by subject and
    /// predicate, and (for entity values) by target.
    pub fn add_relation(&mut self, relation: Relation)
        requires
            old(self).wf(),
            old(self)@.relations.len() < usize::MAX,
        ensures
            final(self).wf(),
            final(self)@.relations == old(self)@.relations.push(relation),
            final(self)@.entities == old(self)@.entities,
            final(self)@.predicates == old(self)@.predicates,
            final(self)@.labels == old(self)@.labels,
            final(self)@.predicate_names == old(self)@.predicate_names,
    {
        let idx = self.relations.len();
        let ghost rels = self.relations@;
        let s = relation.subject.0;
        let p = relation.predicate.0;
        append_position(&mut self.subject_predicate_index, pair_key_of(s, p), idx);
        append_position(&mut self.subject_index, s, idx);
        let target = match &relation.value {
            Value::Entity(t) => Some(t.0),
            _ => None,
        };
        match target {
            Some(t) => append_position(&mut self.target_index, t, idx),
            None => {},
        }
        self.relations.push(relation);
        proof {
            let new_rels = self.relations@;
            assert forall|s2: u64| #[trigger]
                entry(self.subject_index@, s2) == positions(new_rels, has_subject(EntityId(s2))) by {
                lemma_positions_push(rels, relation, has_subject(EntityId(s2)));
            }
            assert forall|t2: u64| #[trigger]
                entry(self.target_index@, t2) == positions(new_rels, has_target(EntityId(t2))) by {
                lemma_positions_push(rels, relation, has_target(EntityId(t2)));
            }
            assert forall|s2: u64, p2: u32| #[trigger]
                entry(self.subject_predicate_index@, pair_key(s2, p2)) == positions(
                    new_rels,
                    has_subject_predicate(EntityId(s2), PredicateId(p2)),
                ) by {
                lemma_positions_push(
                    rels,
                    relation,
                    has_subject_predicate(EntityId(s2), PredicateId(p2)),
                );
                if pair_key(s2, p2) == pair_key(s, p) {
                    lemma_pair_key_injective(s2, p2, s, p);
                }
            }
        }
    }

    /// Adds a predicate and indexes its name and each alias, lower-cased.
    pub fn add_predicate(&mut self, predicate: Predicate)
        requires
            old(self).wf(),
        ensures
            final(self).wf(),
            final(self)@.predicates == old(self)@.predicates.insert(predicate.id.0, predicate),
            final(self)@.predicate_names == index_predicate(
                old(self)@.predicate_names,
                predicate,
            ),
            final(self)@.entities == old(self)@.entities,
            final(self)@.relations == old(self)@.relations,
            final(self)@.labels == old(self)@.labels,
    {
        let name_key = to_lowercase(predicate.name.as_str());
        self.predicate_name_index.insert(name_key, predicate.id);
        let ghost start = self.predicate_name_index.view();
        let n = predicate.aliases.len();
        let mut i: usize = 0;
        while i < n
            invariant
                n == predicate.aliases@.len(),
                i <= n,
                self.predicate_name_index.wf(),
                self.predicate_name_index.view() == index_names(
                    start,
                    predicate.aliases@.take(i as int),
                    predicate.id,
                ),
                self.entities == old(self).entities,
                self.relations == old(self).relations,
                self.predicates == old(self).predicates,
                self.subject_index == old(self).subject_index,
                self.target_index == old(self).target_index,
                self.subject_predicate_index == old(self).subject_predicate_index,
                self.label_index == old(self).label_index,
            decreases n - i,
        {
            let key = to_lowercase(predicate.aliases[i].as_str());
            self.predicate_name_index.insert(key, predicate.id);
            assert(predicate.aliases@.take(i + 1).drop_last() =~= predicate.aliases@.take(
                i as int,
            ));
            i = i + 1;
        }
        assert(predicate.aliases@.take(n as int) =~= predicate.aliases@);
        let id = predicate.id.0;
        self.predicates.insert(id, predicate);
    }

    /// The relations at the positions `idx`.
    fn gather<'a>(&'a self, idx: &Vec<usize>) -> (r: Vec<&'a Relation>)
        requires
            forall|i: int| 0 <= i < idx@.len() ==> #[trigger] idx@[i] < self.relations@.len(),
        ensures
            derefs(r@) == at_positions(self.relations@, idx@),
    {
        let mut r: Vec<&'a Relation> = Vec::new();
        let mut i: usize = 0;
        while i < idx.len()
            invariant
                i <= idx@.len(),
                forall|j: int| 0 <= j < idx@.len() ==> #[trigger] idx@[j] < self.relations@.len(),
                derefs(r@) == at_positions(self.relations@, idx@.take(i as int)),
            decreases idx@.len() - i,
        {
            let ghost before = r@;
            r.push(&self.relations[idx[i]]);
            assert(idx@.take(i + 1) =~= idx@.take(i as int).push(idx@[i as int]));
            assert(derefs(r@) =~= derefs(before).push(self.relations@[idx@[i as int] as int]));
            i = i + 1;
            assert(derefs(r@) =~= at_positions(self.relations@, idx@.take(i as int)));
        }
        assert(idx@.take(idx@.len() as int) =~= idx@);
        r
    }

    /// The relations stored under `k` in `index`.
    fn gather_entry<'a, K: Eq + Hash>(
        &'a self,
        index: &HashMap<K, Vec<usize>>,
        k: &K,
        keep: Ghost<spec_fn(Relation) -> bool>,
    ) -> (r: Vec<&'a Relation>)
        requires
            obeys_key_model::<K>(),
            entry(index@, *k) == positions(self.relations@, keep@),
            self.relations@.len() <= usize::MAX,
        ensures
            derefs(r@) == select(self.relations@, keep@),
    {
        proof {
            lemma_positions_bound(self.relations@, keep@);
        }
        match index.get(k) {
            Some(v) => self.gather(v),
            None => {
                let r: Vec<&'a Relation> = Vec::new();
                assert(derefs(r@) =~= select(self.relations@, keep@));
                r
            },
        }
    }

    /// Direct lookup: the relations stating `predicate` of `subject`, in the
    /// order they were added.
    pub fn lookup(&self, subject: EntityId, predicate: PredicateId) -> (r: Vec<&Relation>)
        requires
            self.wf(),
        ensures
            derefs(r@) == self@.lookup(subject, predicate),
    {
        let k = pair_key_of(subject.0, predicate.0);
        proof {
            assert(entry(self.subject_predicate_index@, pair_key(subject.0, predicate.0))
                == positions(self.relations@, has_subject_predicate(subject, predicate)));
        }
        self.gather_entry(
            &self.subject_predicate_index,
            &k,
            Ghost(has_subject_predicate(subject, predicate)),
        )
    }

    /// All relations whose subject is `subject`, in the order they were added.
    pub fn relations_from(&self, subject: EntityId) -> (r: Vec<&Relation>)
        requires
            self.wf(),
        ensures
            derefs(r@) == self@.relations_from(subject),
    {
        proof {
            assert(entry(self.subject_index@, subject.0) == positions(
                self.relations@,
                has_subject(EntityId(subject.0)),
            ));
        }
        self.gather_entry(&self.subject_index, &subject.0, Ghost(has_subject(subject)))
    }

    /// All relations whose value refers to `target`, in the order they were
    /// added.
    pub fn relations_to(&self, target: EntityId) -> (r: Vec<&Relation>)
        requires
            self.wf(),
        ensures
            derefs(r@) == self@.relations_to(target),
    {
        proof {
            assert(entry(self.target_index@, target.0) == positions(
                self.relations@,
                has_target(EntityId(target.0)),
            ));
        }
        self.gather_entry(&self.target_index, &target.0, Ghost(has_target(target)))
    }

    /// The entity with identifier `id`.
    pub fn get_entity(&self, id: EntityId) -> (r: Option<&Entity>)
        ensures
            same_option(r, self@.entity(id)),
    {
        self.entities.get(&id.0)
    }

    /// The predicate with identifier `id`.
    pub fn get_predicate(&self, id: PredicateId) -> (r: Option<&Predicate>)
        ensures
            same_option(r, self@.predicate(id)),
    {
        self.predicates.get(&id.0)
    }

    /// The entity that `label` names, case aside.
    pub fn find_entity_by_label(&self, label: &str) -> (r: Option<&Entity>)
        requires
            self.wf(),
        ensures
            same_option(r, self@.entity_by_label(label@)),
    {
        let key = to_lowercase(label);
        match self.label_index.get(key.as_str()) {
            Some(id) => self.get_entity(id),
            None => None,
        }
    }

    /// The predicate that `name` names (its name or an alias), case aside.
    pub fn find_predicate(&self, name: &str) -> (r: Option<&Predicate>)
        requires
            self.wf(),
        ensures
            same_option(r, self@.predicate_by_name(name@)),
    {
        let key = to_lowercase(name);
        match self.predicate_name_index.get(key.as_str()) {
            Some(id) => self.get_predicate(id),
            None => None,
        }
    }

    /// The number of entities.
    pub fn entity_count(&self) -> (r: usize)
        ensures
            r == self@.entities.len(),
    {
        self.entities.len()
    }

    /// The number of relations.
    pub fn relation_count(&self) -> (r: usize)
        ensures
            r == self@.relations.len(),
    {
        self.relations.len()
    }

    /// All relations, in the order they were added.
    pub fn all_relations(&self) -> (r: &[Relation])
        ensures
            r@ == self@.relations,
    {
        self.relations.as_slice()
    }
}

impl KnowledgeGraph {
    /// Every entity is stored under the number of its own identifier.
    pub proof fn lemma_entities_keyed(&self)
        requires
            self.wf(),
        ensures
            forall|k: u64| #[trigger] self@.entities.contains_key(k) ==> self@.entities[k].id.0 == k,
    {
    }
}

/// Whether one of `labels` reads `key` once lower-cased.
pub open spec fn has_label_key(labels: Seq<Label>, key: Seq<char>) -> bool {
    exists|i: int| 0 <= i < labels.len() && lowercase_of(#[trigger] labels[i].text@) == key
}

/// What mapping `label` (in `language`) to an entity does to it: identity,
/// kind and domain stay; a label that reads the same once lower-cased
/// keeps the labels as they were, else `label` is appended as primary.
pub open spec fn relabelled(before: Entity, after: Entity, label: Seq<char>, language: Seq<char>) -> bool {
    &&& after.id == before.id
    &&& after.kind == before.kind
    &&& after.domain == before.domain
    &&& if has_label_key(before.labels@, lowercase_of(label)) {
        after.labels@ == before.labels@
    } else {
        &&& after.labels@.len() == before.labels@.len() + 1
        &&& after.labels@.take(before.labels@.len() as int) == before.labels@
        &&& after.labels@.last().text@ == label
        &&& after.labels@.last().language@ == language
        &&& after.labels@.last().primary
    }
}

/// `after` is `before` with at most some labels appended.
pub open spec fn extends_labels(before: Entity, after: Entity) -> bool {
    &&& after.id == before.id
    &&& after.kind == before.kind
    &&& after.domain == before.domain
    &&& before.labels@.len() <= after.labels@.len()
    &&& after.labels@.take(before.labels@.len() as int) == before.labels@
}

/// Mapping a label to an entity only appends to its labels.
pub proof fn lemma_relabelled_extends(before: Entity, after: Entity, label: Seq<char>, language: Seq<char>)
    requires
        relabelled(before, after, label, language),
    ensures
        extends_labels(before, after),
{
    if has_label_key(before.labels@, lowercase_of(label)) {
        assert(after.labels@.take(before.labels@.len() as int) =~= before.labels@);
    }
}

/// Appending labels twice is appending labels.
pub proof fn lemma_extends_labels_trans(a: Entity, b: Entity, c: Entity)
    requires
        extends_labels(a, b),
        extends_labels(b, c),
    ensures
        extends_labels(a, c),
{
    let n = a.labels@.len() as int;
    assert(c.labels@.take(n) =~= c.labels@.take(b.labels@.len() as int).take(n));
}

/// Every entity extends itself.
pub proof fn lemma_extends_labels_refl(a: Entity)
    ensures
        extends_labels(a, a),
{
    assert(a.labels@.take(a.labels@.len() as int) =~= a.labels@);
}

impl KnowledgeGraph {
    /// Maps `label` (lower-cased) to `entity_id` in the label index and, when
    /// that entity exists and has no label that reads the same once
    /// lower-cased, adds `label` to its labels as a primary label in
    /// `language`.
    pub fn add_label_mapping(&mut self, label: &str, language: &str, entity_id: EntityId)
        requires
            old(self).wf(),
        ensures
            final(self).wf(),
            final(self)@.labels == old(self)@.labels.insert(lowercase_of(label@), entity_id),
            final(self)@.relations == old(self)@.relations,
            final(self)@.predicates == old(self)@.predicates,
            final(self)@.predicate_names == old(self)@.predicate_names,
            final(self)@.entities.dom() == old(self)@.entities.dom(),
            forall|k: u64|
                k != entity_id.0 && #[trigger] old(self)@.entities.contains_key(k)
                    ==> final(self)@.entities[k] == old(self)@.entities[k],
            old(self)@.entities.contains_key(entity_id.0) ==> relabelled(
                old(self)@.entities[entity_id.0],
                final(self)@.entities[entity_id.0],
                label@,
                language@,
            ),
    {
        let key = to_lowercase(label);
        self.label_index.insert(key, entity_id);
        let ghost old_entities = self.entities@;
        match self.entities.remove(&entity_id.0) {
            Some(mut entity) => {
                let wanted = to_lowercase(label);
                let mut already_has = false;
                let mut i: usize = 0;
                while i < entity.labels.len()
                    invariant
                        i <= entity.labels@.len(),
                        wanted@ == lowercase_of(label@),
                        already_has == exists|j: int|
                            0 <= j < i && lowercase_of(#[trigger] entity.labels@[j].text@)
                                == wanted@,
                    decreases entity.labels@.len() - i,
                {
                    let lowered = to_lowercase(entity.labels[i].text.as_str());
                    if text_eq(lowered.as_str(), wanted.as_str()) {
                        already_has = true;
                    }
                    i = i + 1;
                }
                let ghost before = entity;
                if !already_has {
                    entity.labels.push(
                        Label { text: owned(label), language: owned(language), primary: true },
                    );
                    assert(entity.labels@.take(before.labels@.len() as int) =~= before.labels@);
                }
                self.entities.insert(entity_id.0, entity);
                assert(self.entities@.dom() =~= old_entities.dom());
            },
            None => {},
        }
    }

    /// All entities, each once, in no particular order.
    pub fn all_entities(&self) -> (r: Vec<&Entity>)
        ensures
            r@.len() == self@.entities.len(),
            forall|e: Entity| self@.entities.values().contains(e) <==> r@.contains(&e),
    {
        let mut r: Vec<&Entity> = Vec::new();
        for e in it: self.entities.values()
            invariant
                r@ == it.seq().take(it.index() as int),
                it.seq().unref().to_set() == self.entities@.values(),
                it.seq().len() == self.entities@.dom().len(),
                it.index() == it.seq().len() ==> r@.unref().to_set() == self.entities@.values()
                    && r@.len() == self.entities@.dom().len(),
        {
            r.push(e);
            assert(it.index() + 1 == it.seq().len() ==> r@ =~= it.seq());
        }
        proof {
            assert forall|e: Entity| self@.entities.values().contains(e) <==> r@.contains(&e) by {
                if r@.contains(&e) {
                    let j = choose|j: int| 0 <= j < r@.len() && r@[j] == &e;
                    assert(r@.unref()[j] == e);
                }
                if self@.entities.values().contains(e) {
                    assert(r@.unref().to_set().contains(e));
                    let j = choose|j: int| 0 <= j < r@.unref().len() && r@.unref()[j] == e;
                    assert(r@[j] == &e);
                }
            }
            assert(self@.entities.len() == self@.entities.dom().len());
        }
        r
    }

    /// All predicates, each once, in no particular order.
    pub fn all_predicates(&self) -> (r: Vec<&Predicate>)
        ensures
            r@.len() == self@.predicates.len(),
            forall|p: Predicate| self@.predicates.values().contains(p) <==> r@.contains(&p),
    {
        let mut r: Vec<&Predicate> = Vec::new();
        for p in it: self.predicates.values()
            invariant
                r@ == it.seq().take(it.index() as int),
                it.seq().unref().to_set() == self.predicates@.values(),
                it.seq().len() == self.predicates@.dom().len(),
                it.index() == it.seq().len() ==> r@.unref().to_set() == self.predicates@.values()
                    && r@.len() == self.predicates@.dom().len(),
        {
            r.push(p);
            assert(it.index() + 1 == it.seq().len() ==> r@ =~= it.seq());
        }
        proof {
            assert forall|p: Predicate| self@.predicates.values().contains(p) <==> r@.contains(&p) by {
                if r@.contains(&p) {
                    let j = choose|j: int| 0 <= j < r@.len() && r@[j] == &p;
                    assert(r@.unref()[j] == p);
                }
                if self@.predicates.values().contains(p) {
                    assert(r@.unref().to_set().contains(p));
                    let j = choose|j: int| 0 <= j < r@.unref().len() && r@.unref()[j] == p;
                    assert(r@[j] == &p);
                }
            }
            assert(self@.predicates.len() == self@.predicates.dom().len());
        }
        r
    }
}

impl Default for KnowledgeGraph {
    fn default() -> (r: Self)
        ensures
            r.wf(),
            r@.entities == Map::<u64, Entity>::empty(),
            r@.relations == Seq::<Relation>::empty(),
            r@.predicates == Map::<u32, Predicate>::empty(),
            r@.labels == Map::<Seq<char>, EntityId>::empty(),
            r@.predicate_names == Map::<Seq<char>, PredicateId>::empty(),
    {
        Self::new()
    }
}

/// Appending a relation extends the selection of every filter that keeps it
/// and leaves the others as they were.
pub proof fn lemma_select_push(rels: Seq<Relation>, r: Relation, keep: spec_fn(Relation) -> bool)
    requires
        rels.len() < usize::MAX,
    ensures
        select(rels.push(r), keep) == if keep(r) {
            select(rels, keep).push(r)
        } else {
            select(rels, keep)
        },
{
    lemma_positions_push(rels, r, keep);
    lemma_positions_bound(rels, keep);
    let before = positions(rels, keep);
    let ext = rels.push(r);
    assert forall|i: int| 0 <= i < before.len() implies ext[before[i] as int] == rels[before[i] as int] by {
        assert(before[i] < rels.len());
    }
    if keep(r) {
        assert(positions(ext, keep) == before.push(rels.len() as usize));
        assert(ext[rels.len() as int] == r);
        assert(select(ext, keep) =~= select(rels, keep).push(r));
    } else {
        assert(select(ext, keep) =~= select(rels, keep));
    }
}

/// A relation added to the graph is found by a lookup of its subject and
/// predicate, after the relations found before; every other lookup, and
/// the outgoing and incoming relations of other entities, stay as they were.
pub proof fn lemma_lookup_after_add_relation(
    before: GraphView,
    after: GraphView,
    r: Relation,
    subject: EntityId,
    predicate: PredicateId,
)
    requires
        after.relations == before.relations.push(r),
        before.relations.len() < usize::MAX,
    ensures
        after.lookup(subject, predicate) == if r.subject == subject && r.predicate == predicate {
            before.lookup(subject, predicate).push(r)
        } else {
            before.lookup(subject, predicate)
        },
        after.relations_from(subject) == if r.subject == subject {
            before.relations_from(subject).push(r)
        } else {
            before.relations_from(subject)
        },
        after.relations_to(subject) == if r.value matches Value::Entity(t) && t == subject {
            before.relations_to(subject).push(r)
        } else {
            before.relations_to(subject)
        },
{
    lemma_select_push(before.relations, r, has_subject_predicate(subject, predicate));
    lemma_select_push(before.relations, r, has_subject(subject));
    lemma_select_push(before.relations, r, has_target(subject));
}

proof fn lemma_index_labels_maps(
    m: Map<Seq<char>, EntityId>,
    labels: Seq<Label>,
    id: EntityId,
    i: int,
)
    requires
        0 <= i < labels.len(),
    ensures
        index_labels(m, labels, id).contains_key(lowercase_of(labels[i].text@)),
        index_labels(m, labels, id)[lowercase_of(labels[i].text@)] == id,
    decreases labels.len(),
{
    if i < labels.len() - 1 {
        lemma_index_labels_maps(m, labels.drop_last(), id, i);
    }
}

/// After an entity is added, each of its labels (in any text that reads the
/// same once lower-cased) finds that entity.
pub proof fn lemma_label_finds_added_entity(
    before: GraphView,
    after: GraphView,
    e: Entity,
    i: int,
    query: Seq<char>,
)
    requires
        after.entities == before.entities.insert(e.id.0, e),
        after.labels == index_labels(before.labels, e.labels@, e.id),
        0 <= i < e.labels@.len(),
        lowercase_of(query) == lowercase_of(e.labels@[i].text@),
    ensures
        after.entity_by_label(query) == Some(e),
{
    lemma_index_labels_maps(before.labels, e.labels@, e.id, i);
}

proof fn lemma_index_names_keeps(
    m: Map<Seq<char>, PredicateId>,
    names: Seq<String>,
    id: PredicateId,
    key: Seq<char>,
)
    requires
        m.contains_key(key),
        m[key] == id,
    ensures
        index_names(m, names, id).contains_key(key),
        index_names(m, names, id)[key] == id,
    decreases names.len(),
{
    if names.len() > 0 {
        lemma_index_names_keeps(m, names.drop_last(), id, key);
    }
}

proof fn lemma_index_names_maps(
    m: Map<Seq<char>, PredicateId>,
    names: Seq<String>,
    id: PredicateId,
    i: int,
)
    requires
        0 <= i < names.len(),
    ensures
        index_names(m, names, id).contains_key(lowercase_of(names[i]@)),
        index_names(m, names, id)[lowercase_of(names[i]@)] == id,
    decreases names.len(),
{
    if i < names.len() - 1 {
        lemma_index_names_maps(m, names.drop_last(), id, i);
    }
}

/// After a predicate is added, its name and each of its aliases (in any
/// text that reads the same once lower-cased) find that predicate.
pub proof fn lemma_name_finds_added_predicate(
    before: GraphView,
    after: GraphView,
    p: Predicate,
    query: Seq<char>,
)
    requires
        after.predicates == before.predicates.insert(p.id.0, p),
        after.predicate_names == index_predicate(before.predicate_names, p),
        lowercase_of(query) == lowercase_of(p.name@) || exists|i: int|
            0 <= i < p.aliases@.len() && lowercase_of(query) == lowercase_of(
                #[trigger] p.aliases@[i]@,
            ),
    ensures
        after.predicate_by_name(query) == Some(p),
{
    let start = before.predicate_names.insert(lowercase_of(p.name@), p.id);
    if lowercase_of(query) == lowercase_of(p.name@) {
        lemma_index_names_keeps(start, p.aliases@, p.id, lowercase_of(p.name@));
    } else {
        let i = choose|i: int|
            0 <= i < p.aliases@.len() && lowercase_of(query) == lowercase_of(
                #[trigger] p.aliases@[i]@,
            );
        lemma_index_names_maps(start, p.aliases@, p.id, i);
    }
}

/// Every relation that a selection returns is a relation of the graph that
/// the filter keeps.
pub proof fn lemma_select_members(rels: Seq<Relation>, keep: spec_fn(Relation) -> bool)
    requires
        rels.len() <= usize::MAX,
    ensures
        forall|i: int|
            0 <= i < select(rels, keep).len() ==> rels.contains(#[trigger] select(rels, keep)[i])
                && keep(select(rels, keep)[i]),
{
    lemma_positions_bound(rels, keep);
    assert forall|i: int| 0 <= i < select(rels, keep).len() implies rels.contains(
        #[trigger] select(rels, keep)[i],
    ) && keep(select(rels, keep)[i]) by {
        let j = positions(rels, keep)[i] as int;
        assert(positions(rels, keep)[i] < rels.len());
        assert(rels[j] == select(rels, keep)[i]);
    }
}

/// Every relation of the graph that the filter keeps is in the selection.
pub proof fn lemma_select_complete(rels: Seq<Relation>, keep: spec_fn(Relation) -> bool, r: Relation)
    requires
        rels.len() <= usize::MAX,
        rels.contains(r),
        keep(r),
    ensures
        select(rels, keep).contains(r),
    decreases rels.len(),
{
    let prev = rels.drop_last();
    assert(prev.push(rels.last()) =~= rels);
    lemma_select_push(prev, rels.last(), keep);
    if rels.last() == r {
        assert(select(rels, keep).last() == r);
    } else {
        let i = choose|i: int| 0 <= i < rels.len() && rels[i] == r;
        assert(prev[i] == r);
        lemma_select_complete(prev, keep, r);
        let j = choose|j: int| 0 <= j < select(prev, keep).len() && select(prev, keep)[j] == r;
        assert(select(rels, keep)[j] == r);
    }
}

impl KnowledgeGraph {
    /// A well-formed graph holds at most `usize::MAX` relations.
    pub proof fn lemma_wf_relation_bound(&self)
        requires
            self.wf(),
        ensures
            self@.relations.len() <= usize::MAX,
    {
    }
}

} // verus!
