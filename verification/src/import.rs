//! Building the geography vault from rows of a knowledge base: entity and
//! relation identifiers, the facts and entities that a row adds, and the
//! rows about countries. The rows are fetched and parsed outside; here they
//! are plain values.

use vstd::prelude::*;
use vstd::string::StringExecFns;
use crate::graph::{index_labels, GraphView};
use crate::geography::{
    facts_fit, fits_geography, geography_schema, lemma_numbered_facts_fit, lemma_plan_fits_concat,
    lemma_schema_names, plan_fits,
};
use crate::text::{lowercase_of, chars_of, rfind_char, rfind_char_seq, string_of, sub_chars, trim_chars, trim_seq, starts_with_chars, is_white_space, char_is_white_space};
use crate::text_index::TextIndex;
use crate::types::{
    Confidence, DomainId, Entity, EntityId, EntityKind, FloatBits, Label, PredicateId, Relation,
    RelationId, SourceKind, SourceRef, Unit, Value,
};
use crate::vault::Vault;

verus! {

/// Maps knowledge-base identifiers (QIDs) to entity identifiers, handing
/// out new ones in order from 1.
pub struct IdMap {
    map: TextIndex<EntityId>,
    next_id: u64,
}

impl IdMap {
    /// The identifiers handed out so far.
    pub closed spec fn view(&self) -> Map<Seq<char>, EntityId> {
        self.map.view()
    }

    /// The next identifier to hand out.
    pub closed spec fn next(&self) -> u64 {
        self.next_id
    }

    /// Identifiers handed out are below the next one and distinct.
    pub closed spec fn wf(&self) -> bool {
        &&& self.map.wf()
        &&& forall|k: Seq<char>| #[trigger] self.map.view().contains_key(k) ==> self.map.view()[k].0 < self.next_id
        &&& forall|a: Seq<char>, b: Seq<char>|
            #[trigger] self.map.view().contains_key(a) && #[trigger] self.map.view().contains_key(b) && a != b
                ==> self.map.view()[a] != self.map.view()[b]
    }

    /// Distinct knowledge-base identifiers have distinct entity
    /// identifiers, each below the next one to hand out.
    pub proof fn lemma_ids_distinct(&self)
        requires
            self.wf(),
        ensures
            forall|a: Seq<char>, b: Seq<char>|
                #[trigger] self@.contains_key(a) && #[trigger] self@.contains_key(b) && a != b ==> self@[a]
                    != self@[b],
            forall|k: Seq<char>| #[trigger] self@.contains_key(k) ==> self@[k].0 < self.next(),
    {
    }

    /// An empty map; the first identifier is 1.
    pub fn new() -> (r: Self)
        ensures
            r.wf(),
            r@ == Map::<Seq<char>, EntityId>::empty(),
            r.next() == 1,
    {
        IdMap { map: TextIndex::new(), next_id: 1 }
    }

    /// The identifier of `qid`: the one handed out before, or the next one.
    pub fn get_or_create(&mut self, qid: &str) -> (r: EntityId)
        requires
            old(self).wf(),
            old(self).next() < u64::MAX,
        ensures
            final(self).wf(),
            old(self)@.contains_key(qid@) ==> r == old(self)@[qid@] && final(self)@ == old(self)@
                && final(self).next() == old(self).next(),
            !old(self)@.contains_key(qid@) ==> r == EntityId(old(self).next()) && final(self)@
                == old(self)@.insert(qid@, r) && final(self).next() == old(self).next() + 1,
    {
        if let Some(id) = self.map.get(qid) {
            return id;
        }
        let id = EntityId(self.next_id);
        self.next_id = self.next_id + 1;
        self.map.insert(String::from_str(qid), id);
        id
    }
}

/// Hands out relation identifiers in order.
pub struct RelationIds {
    pub next: u64,
}

impl RelationIds {
    /// Identifiers from 1.
    pub fn new() -> (r: Self)
        ensures
            r.next == 1,
    {
        RelationIds { next: 1 }
    }

    /// The next relation identifier.
    pub fn next_relation_id(&mut self) -> (r: RelationId)
        requires
            old(self).next < u64::MAX,
        ensures
            r == RelationId(old(self).next),
            final(self).next == old(self).next + 1,
    {
        let id = RelationId(self.next);
        self.next = self.next + 1;
        id
    }
}

/// The part of a URI after its last '/', or the whole URI.
pub open spec fn qid_of(uri: Seq<char>) -> Seq<char> {
    match rfind_char_seq(uri, '/') {
        Some(i) => uri.skip(i + 1),
        None => uri,
    }
}

proof fn lemma_rfind(s: Seq<char>, c: char)
    ensures
        rfind_char_seq(s, c) matches Some(i) ==> 0 <= i < s.len(),
    decreases s.len(),
{
    if s.len() > 0 && s.last() != c {
        lemma_rfind(s.drop_last(), c);
    }
}

/// The knowledge-base identifier at the end of a URI.
pub fn extract_qid(uri: &str) -> (r: Option<String>)
    ensures
        r matches Some(q) && q@ == qid_of(uri@),
{
    let v = chars_of(uri);
    proof {
        lemma_rfind(v@, '/');
    }
    match rfind_char(v.as_slice(), '/') {
        Some(i) => {
            let vl = v.len();
            assert(i < vl);
            let rest = sub_chars(v.as_slice(), i + 1, v.len());
            assert(rest@ == v@.skip(i + 1));
            Some(string_of(rest.as_slice()))
        },
        None => Some(String::from_str(uri)),
    }
}

/// The first position at or after `k` that does not hold white space.
pub open spec fn space_end(s: Seq<char>, k: int) -> int
    decreases s.len() - k,
{
    if k < 0 || k >= s.len() || !is_white_space(s[k]) {
        k
    } else {
        space_end(s, k + 1)
    }
}

/// The first position at or after `k` that holds white space.
pub open spec fn word_end(s: Seq<char>, k: int) -> int
    decreases s.len() - k,
{
    if k < 0 || k >= s.len() || is_white_space(s[k]) {
        k
    } else {
        word_end(s, k + 1)
    }
}

/// The first two whitespace-separated words of `s`.
pub open spec fn two_words(s: Seq<char>) -> Option<(Seq<char>, Seq<char>)> {
    let a = space_end(s, 0);
    let b = word_end(s, a);
    let c = space_end(s, b);
    let d = word_end(s, c);
    if a >= s.len() || c >= s.len() {
        None
    } else {
        Some((s.subrange(a, b), s.subrange(c, d)))
    }
}

/// The two coordinates of a WKT point "Point(lon lat)", as written: the
/// first two whitespace-separated words inside the parentheses of the
/// trimmed text.
pub open spec fn wkt_fields(s: Seq<char>) -> Option<(Seq<char>, Seq<char>)> {
    let t = trim_seq(s);
    let head = "Point("@;
    if head.len() < t.len() && t.take(head.len() as int) == head && t.last() == ')' {
        two_words(t.subrange(head.len() as int, t.len() - 1))
    } else {
        None
    }
}

proof fn lemma_space_end(s: Seq<char>, k: int)
    requires
        0 <= k <= s.len(),
    ensures
        k <= space_end(s, k) <= s.len(),
    decreases s.len() - k,
{
    if k < s.len() && is_white_space(s[k]) {
        lemma_space_end(s, k + 1);
    }
}

proof fn lemma_word_end(s: Seq<char>, k: int)
    requires
        0 <= k <= s.len(),
    ensures
        k <= word_end(s, k) <= s.len(),
    decreases s.len() - k,
{
    if k < s.len() && !is_white_space(s[k]) {
        lemma_word_end(s, k + 1);
    }
}

fn skip_spaces(v: &[char], k: usize) -> (r: usize)
    requires
        k <= v@.len(),
    ensures
        r == space_end(v@, k as int),
{
    let n = v.len();
    let mut i = k;
    while i < n && char_is_white_space(v[i])
        invariant
            n == v@.len(),
            k <= i <= n,
            space_end(v@, k as int) == space_end(v@, i as int),
        decreases n - i,
    {
        i = i + 1;
    }
    i
}

fn skip_word(v: &[char], k: usize) -> (r: usize)
    requires
        k <= v@.len(),
    ensures
        r == word_end(v@, k as int),
{
    let n = v.len();
    let mut i = k;
    while i < n && !char_is_white_space(v[i])
        invariant
            n == v@.len(),
            k <= i <= n,
            word_end(v@, k as int) == word_end(v@, i as int),
        decreases n - i,
    {
        i = i + 1;
    }
    i
}

/// The two coordinates of a WKT point "Point(lon lat)", as written.
pub fn wkt_point_fields(s: &str) -> (r: Option<(String, String)>)
    ensures
        match wkt_fields(s@) {
            Some((a, b)) => r matches Some((x, y)) && x@ == a && y@ == b,
            None => r is None,
        },
{
    let all = chars_of(s);
    let t = trim_chars(all.as_slice());
    let head = chars_of("Point(");
    let tl = t.len();
    if !(head.len() < tl && starts_with_chars(t.as_slice(), head.as_slice()) && t[tl - 1] == ')') {
        return None;
    }
    let inner = sub_chars(t.as_slice(), head.len(), tl - 1);
    let n = inner.len();
    proof {
        lemma_space_end(inner@, 0);
    }
    let a = skip_spaces(inner.as_slice(), 0);
    proof {
        lemma_word_end(inner@, a as int);
    }
    let b = skip_word(inner.as_slice(), a);
    proof {
        lemma_space_end(inner@, b as int);
    }
    let c = skip_spaces(inner.as_slice(), b);
    proof {
        lemma_word_end(inner@, c as int);
    }
    let d = skip_word(inner.as_slice(), c);
    if a >= n || c >= n {
        return None;
    }
    let x = sub_chars(inner.as_slice(), a, b);
    let y = sub_chars(inner.as_slice(), c, d);
    Some((string_of(x.as_slice()), string_of(y.as_slice())))
}

/// The source of every imported fact: the knowledge base, dated `now`.
pub open spec fn wikidata_source_at(s: SourceRef, now: i64) -> bool {
    &&& s.kind == SourceKind::KnowledgeBase
    &&& s.name@ == "Wikidata"@
    &&& s.locator@ == "https://www.wikidata.org"@
    &&& s.date == Some(now)
}

/// The source of imported facts, dated `now`.
pub fn wikidata_source(now: i64) -> (r: SourceRef)
    ensures
        wikidata_source_at(r, now),
{
    SourceRef {
        kind: SourceKind::KnowledgeBase,
        name: String::from_str("Wikidata"),
        locator: String::from_str("https://www.wikidata.org"),
        date: Some(now),
    }
}

/// An imported fact: relation `id` stating `predicate` of `subject` with
/// `value`, from `source`, recorded at `now`, in the geography domain.
pub open spec fn fact(
    id: u64,
    subject: EntityId,
    predicate: u32,
    value: Value,
    confidence: Confidence,
    source: SourceRef,
    now: i64,
) -> Relation {
    Relation {
        id: RelationId(id),
        subject,
        predicate: PredicateId(predicate),
        value,
        confidence,
        source,
        domain: DomainId(1),
        valid_from: None,
        valid_until: None,
        timestamp: now,
    }
}

/// A fact to be stated: its predicate, value and confidence.
pub type FactPlan = (u32, Value, Confidence);

/// The relations stating the planned facts of `subject`, numbered from
/// `first`.
pub open spec fn numbered_facts(
    plans: Seq<FactPlan>,
    first: u64,
    subject: EntityId,
    source: SourceRef,
    now: i64,
) -> Seq<Relation> {
    Seq::new(
        plans.len(),
        |i: int| fact((first + i) as u64, subject, plans[i].0, plans[i].1, plans[i].2, source, now),
    )
}

/// The vault keeps its invariant and room for `k` more relations.
pub open spec fn has_room(v: Vault, ids: RelationIds, k: int) -> bool {
    &&& v.graph.wf()
    &&& v.graph@.relations.len() + k < usize::MAX
    &&& ids.next + k < u64::MAX
}

/// What the import leaves alone: version, domain and predicates.
pub open spec fn keeps_schema(before: Vault, after: Vault) -> bool {
    &&& after.version == before.version
    &&& after.domain == before.domain
    &&& after.graph@.predicates == before.graph@.predicates
    &&& after.graph@.predicate_names == before.graph@.predicate_names
}

/// Adds the fact `fact(ids.next, ...)` to the vault.
pub(crate) fn add_fact(
    vault: &mut Vault,
    ids: &mut RelationIds,
    subject: EntityId,
    predicate: u32,
    value: Value,
    confidence: Confidence,
    source: &SourceRef,
    now: i64,
)
    requires
        has_room(*old(vault), *old(ids), 1),
    ensures
        final(vault).graph.wf(),
        final(vault).graph@.relations == old(vault).graph@.relations.push(
            fact(old(ids).next, subject, predicate, value, confidence, *source, now),
        ),
        final(vault).graph@.entities == old(vault).graph@.entities,
        final(vault).graph@.labels == old(vault).graph@.labels,
        keeps_schema(*old(vault), *final(vault)),
        final(ids).next == old(ids).next + 1,
{
    let id = ids.next_relation_id();
    vault.add_relation(
        Relation {
            id,
            subject,
            predicate: PredicateId(predicate),
            value,
            confidence,
            source: source.clone(),
            domain: DomainId(1),
            valid_from: None,
            valid_until: None,
            timestamp: now,
        },
    );
}

/// `e` is the entity that the import creates: one primary English label.
pub open spec fn imported_entity(e: Entity, id: EntityId, label: Seq<char>, kind_id: u32, kind_name: Seq<char>) -> bool {
    &&& e.id == id
    &&& e.kind.id == kind_id
    &&& e.kind.name@ == kind_name
    &&& e.kind.parent is None
    &&& e.labels@.len() == 1
    &&& e.labels@[0].text@ == label
    &&& e.labels@[0].language@ == "en"@
    &&& e.labels@[0].primary
    &&& e.domain == DomainId(1)
}

/// The imported entity with identifier `id`, one English label, and kind
/// `kind_id` named `kind_name`.
fn new_entity(id: EntityId, label: &str, kind_id: u32, kind_name: &str) -> (e: Entity)
    ensures
        imported_entity(e, id, label@, kind_id, kind_name@),
{
    let mut labels: Vec<Label> = Vec::new();
    labels.push(
        Label { text: String::from_str(label), language: String::from_str("en"), primary: true },
    );
    Entity {
        id,
        kind: EntityKind { id: kind_id, name: String::from_str(kind_name), parent: None },
        labels,
        domain: DomainId(1),
    }
}

/// Every entity of `a` is in `b`, unchanged.
pub open spec fn extends(a: Map<u64, Entity>, b: Map<u64, Entity>) -> bool {
    forall|k: u64| #[trigger] a.contains_key(k) ==> b.contains_key(k) && b[k] == a[k]
}

/// `g` with the entity that `fin` has under `id` added (and its labels
/// indexed) when `g` has none under `id`.
pub open spec fn ensured_in(g: GraphView, id: EntityId, fin: GraphView) -> GraphView {
    if g.entities.contains_key(id.0) {
        g
    } else {
        GraphView {
            entities: g.entities.insert(id.0, fin.entities[id.0]),
            labels: index_labels(g.labels, fin.entities[id.0].labels@, id),
            ..g
        }
    }
}

/// Adds the entity `id` when the vault has none with that identifier.
fn ensure_entity(vault: &mut Vault, id: EntityId, label: &str, kind_id: u32, kind_name: &str)
    requires
        old(vault).graph.wf(),
    ensures
        final(vault).graph.wf(),
        final(vault).graph@.entities == ensured_in(old(vault).graph@, id, final(vault).graph@).entities,
        final(vault).graph@.labels == ensured_in(old(vault).graph@, id, final(vault).graph@).labels,
        !old(vault).graph@.entities.contains_key(id.0) ==> imported_entity(
            final(vault).graph@.entities[id.0],
            id,
            label@,
            kind_id,
            kind_name@,
        ),
        final(vault).graph@.relations == old(vault).graph@.relations,
        keeps_schema(*old(vault), *final(vault)),
{
    if vault.get_entity(id).is_none() {
        let e = new_entity(id, label, kind_id, kind_name);
        let ghost ev = e;
        vault.add_entity(e);
        assert(vault.graph@.entities[id.0] == ev);
    }
}

/// The label given when none is known.
pub open spec fn label_or_unknown(label: Option<String>) -> Seq<char> {
    match label {
        Some(l) => l@,
        None => "Unknown"@,
    }
}

pub(crate) fn label_text(label: &Option<String>) -> (r: String)
    ensures
        r@ == label_or_unknown(*label),
{
    match label {
        Some(l) => l.clone(),
        None => String::from_str("Unknown"),
    }
}

/// A row about a country.
#[derive(Debug)]
pub struct CountryRow {
    pub country: Option<String>,
    pub country_label: Option<String>,
    pub capital: Option<String>,
    pub capital_label: Option<String>,
    /// The population, when present and a number.
    pub population: Option<FloatBits>,
    /// The area in square kilometers, when present and a number.
    pub area: Option<FloatBits>,
    pub continent: Option<String>,
    pub continent_label: Option<String>,
    pub language: Option<String>,
    pub language_label: Option<String>,
    pub currency: Option<String>,
    pub currency_label: Option<String>,
    /// (latitude, longitude), when present and well formed.
    pub coordinates: Option<(FloatBits, FloatBits)>,
}

/// The fact linking to the entity that `uri` names, when there is one.
pub open spec fn link_plan(uri: Option<String>, predicate: u32, confidence: Confidence, ids: Map<Seq<char>, EntityId>) -> Seq<FactPlan> {
    match uri {
        Some(u) => seq![(predicate, Value::Entity(ids[qid_of(u@)]), confidence)],
        None => Seq::empty(),
    }
}

/// The knowledge-base identifiers and the next identifier after `qid` is
/// looked up: unchanged when `qid` is known, else `qid` gets `next`.
pub open spec fn with_qid(ids: Map<Seq<char>, EntityId>, next: u64, qid: Seq<char>) -> (Map<Seq<char>, EntityId>, u64) {
    if ids.contains_key(qid) {
        (ids, next)
    } else {
        (ids.insert(qid, EntityId(next)), (next + 1) as u64)
    }
}

/// The identifiers after the entity that `uri` names (if any) is looked up.
pub open spec fn with_uri(ids: Map<Seq<char>, EntityId>, next: u64, uri: Option<String>) -> (Map<Seq<char>, EntityId>, u64) {
    match uri {
        Some(u) => with_qid(ids, next, qid_of(u@)),
        None => (ids, next),
    }
}

/// `g` with the entity that `uri` names (under its identifier in `ids`)
/// taken from `fin` when `g` lacks it.
#[verifier::opaque]
pub open spec fn link_graph(g: GraphView, uri: Option<String>, ids: Map<Seq<char>, EntityId>, fin: GraphView) -> GraphView {
    match uri {
        Some(u) => ensured_in(g, ids[qid_of(u@)], fin),
        None => g,
    }
}

/// When the entity that `uri` names is new to `g`, `fin` has it as the
/// import creates it: one English label (`label`, or "Unknown") and the
/// kind `kind_id` named `kind_name`.
#[verifier::opaque]
pub open spec fn link_shape(
    g: GraphView,
    uri: Option<String>,
    label: Option<String>,
    kind_id: u32,
    kind_name: Seq<char>,
    ids: Map<Seq<char>, EntityId>,
    fin: GraphView,
) -> bool {
    match uri {
        Some(u) => {
            let id = ids[qid_of(u@)];
            !g.entities.contains_key(id.0) ==> imported_entity(
                fin.entities[id.0],
                id,
                label_or_unknown(label),
                kind_id,
                kind_name,
            )
        },
        None => true,
    }
}

/// Adds the entity that `uri` names (when absent) and the fact linking
/// `subject` to it.
fn link_entity(
    vault: &mut Vault,
    id_map: &mut IdMap,
    rel_ids: &mut RelationIds,
    subject: EntityId,
    uri: &Option<String>,
    label: &Option<String>,
    kind_id: u32,
    kind_name: &str,
    predicate: u32,
    confidence: Confidence,
    source: &SourceRef,
    now: i64,
)
    requires
        has_room(*old(vault), *old(rel_ids), 1),
        old(id_map).wf(),
        old(id_map).next() < u64::MAX,
    ensures
        final(vault).graph.wf(),
        final(id_map).wf(),
        (final(id_map)@, final(id_map).next()) == with_uri(old(id_map)@, old(id_map).next(), *uri),
        final(vault).graph@.relations == old(vault).graph@.relations + numbered_facts(
            link_plan(*uri, predicate, confidence, final(id_map)@),
            old(rel_ids).next,
            subject,
            *source,
            now,
        ),
        final(rel_ids).next == old(rel_ids).next + link_plan(*uri, predicate, confidence, final(id_map)@).len(),
        final(vault).graph@.entities == link_graph(old(vault).graph@, *uri, final(id_map)@, final(vault).graph@).entities,
        final(vault).graph@.labels == link_graph(old(vault).graph@, *uri, final(id_map)@, final(vault).graph@).labels,
        link_shape(old(vault).graph@, *uri, *label, kind_id, kind_name@, final(id_map)@, final(vault).graph@),
        keeps_schema(*old(vault), *final(vault)),
{
    reveal(link_graph);
    reveal(link_shape);
    match uri {
        Some(u) => {
            let qid = match extract_qid(u.as_str()) {
                Some(q) => q,
                None => return,
            };
            let target = id_map.get_or_create(qid.as_str());
            let name = label_text(label);
            ensure_entity(vault, target, name.as_str(), kind_id, kind_name);
            let ghost mid = vault.graph@;
            add_fact(vault, rel_ids, subject, predicate, Value::Entity(target), confidence, source, now);
            assert(vault.graph@.relations =~= old(vault).graph@.relations + numbered_facts(
                link_plan(*uri, predicate, confidence, id_map@),
                old(rel_ids).next,
                subject,
                *source,
                now,
            ));
            assert(ensured_in(old(vault).graph@, target, mid) == ensured_in(old(vault).graph@, target, vault.graph@));
        },
        None => {
            assert(vault.graph@.relations =~= old(vault).graph@.relations + numbered_facts(
                link_plan(*uri, predicate, confidence, id_map@),
                old(rel_ids).next,
                subject,
                *source,
                now,
            ));
        },
    }
}

/// Numbering two lists of facts one after the other numbers their
/// concatenation.
pub proof fn lemma_numbered_concat(
    p1: Seq<FactPlan>,
    p2: Seq<FactPlan>,
    first: u64,
    subject: EntityId,
    source: SourceRef,
    now: i64,
)
    requires
        first + p1.len() + p2.len() <= u64::MAX,
    ensures
        numbered_facts(p1, first, subject, source, now) + numbered_facts(
            p2,
            (first + p1.len()) as u64,
            subject,
            source,
            now,
        ) == numbered_facts(p1 + p2, first, subject, source, now),
{
    assert(numbered_facts(p1, first, subject, source, now) + numbered_facts(
        p2,
        (first + p1.len()) as u64,
        subject,
        source,
        now,
    ) =~= numbered_facts(p1 + p2, first, subject, source, now));
}

/// Every identifier of `a` is in `b`, the same.
pub open spec fn agrees(a: Map<Seq<char>, EntityId>, b: Map<Seq<char>, EntityId>) -> bool {
    forall|k: Seq<char>| #[trigger] a.contains_key(k) ==> b.contains_key(k) && b[k] == a[k]
}

proof fn lemma_with_qid_agrees(ids: Map<Seq<char>, EntityId>, next: u64, qid: Seq<char>)
    ensures
        agrees(ids, with_qid(ids, next, qid).0),
        with_qid(ids, next, qid).0.contains_key(qid),
{
}

proof fn lemma_link_stable(
    g: GraphView,
    uri: Option<String>,
    label: Option<String>,
    kind_id: u32,
    kind_name: Seq<char>,
    predicate: u32,
    confidence: Confidence,
    mid: Map<Seq<char>, EntityId>,
    last: Map<Seq<char>, EntityId>,
    step: GraphView,
    fin: GraphView,
)
    requires
        uri matches Some(u) ==> mid.contains_key(qid_of(u@)) && step.entities.contains_key(
            mid[qid_of(u@)].0,
        ),
        agrees(mid, last),
        extends(step.entities, fin.entities),
    ensures
        link_plan(uri, predicate, confidence, mid) == link_plan(uri, predicate, confidence, last),
        link_graph(g, uri, mid, step) == link_graph(g, uri, last, fin),
        link_shape(g, uri, label, kind_id, kind_name, mid, step) == link_shape(
            g,
            uri,
            label,
            kind_id,
            kind_name,
            last,
            fin,
        ),
{
    reveal(link_graph);
    reveal(link_shape);
}

/// Appending the relations of one more plan to those of the plans so far.
pub(crate) proof fn lemma_extend(
    base: Seq<Relation>,
    acc: Seq<FactPlan>,
    p: Seq<FactPlan>,
    first: u64,
    subject: EntityId,
    source: SourceRef,
    now: i64,
)
    requires
        first + acc.len() + p.len() <= u64::MAX,
    ensures
        base + numbered_facts(acc, first, subject, source, now) + numbered_facts(
            p,
            (first + acc.len()) as u64,
            subject,
            source,
            now,
        ) == base + numbered_facts(acc + p, first, subject, source, now),
{
    lemma_numbered_concat(acc, p, first, subject, source, now);
    assert(base + numbered_facts(acc, first, subject, source, now) + numbered_facts(
        p,
        (first + acc.len()) as u64,
        subject,
        source,
        now,
    ) =~= base + (numbered_facts(acc, first, subject, source, now) + numbered_facts(
        p,
        (first + acc.len()) as u64,
        subject,
        source,
        now,
    )));
}

/// The fact `(predicate, value, confidence)` when there is a value.
pub open spec fn optional_plan(predicate: u32, value: Option<Value>, confidence: Confidence) -> Seq<FactPlan> {
    match value {
        Some(v) => seq![(predicate, v, confidence)],
        None => Seq::empty(),
    }
}

/// Adds the fact when there is a value.
pub(crate) fn add_optional_fact(
    vault: &mut Vault,
    ids: &mut RelationIds,
    subject: EntityId,
    predicate: u32,
    value: Option<Value>,
    confidence: Confidence,
    source: &SourceRef,
    now: i64,
)
    requires
        has_room(*old(vault), *old(ids), 1),
    ensures
        final(vault).graph.wf(),
        final(vault).graph@.relations == old(vault).graph@.relations + numbered_facts(
            optional_plan(predicate, value, confidence),
            old(ids).next,
            subject,
            *source,
            now,
        ),
        final(ids).next == old(ids).next + optional_plan(predicate, value, confidence).len(),
        final(vault).graph@.entities == old(vault).graph@.entities,
        final(vault).graph@.labels == old(vault).graph@.labels,
        keeps_schema(*old(vault), *final(vault)),
{
    match value {
        Some(v) => add_fact(vault, ids, subject, predicate, v, confidence, source, now),
        None => {},
    }
    assert(vault.graph@.relations =~= old(vault).graph@.relations + numbered_facts(
        optional_plan(predicate, value, confidence),
        old(ids).next,
        subject,
        *source,
        now,
    ));
}

/// The population value of a row.
pub open spec fn population_value(row: CountryRow) -> Option<Value> {
    match row.population {
        Some(p) => Some(Value::Number { value: p, unit: Unit::Count }),
        None => None,
    }
}

/// The area value of a row.
pub open spec fn area_value(row: CountryRow) -> Option<Value> {
    match row.area {
        Some(a) => Some(Value::Number { value: a, unit: Unit::SquareKilometer }),
        None => None,
    }
}

/// The coordinates value of a row.
pub open spec fn coordinates_value(row: CountryRow) -> Option<Value> {
    match row.coordinates {
        Some((lat, lon)) => Some(Value::Coordinate { lat, lon }),
        None => None,
    }
}

/// The facts that a country row states, in order: capital, population,
/// area, continent, official language, currency, coordinates.
pub open spec fn country_plan(row: CountryRow, ids: Map<Seq<char>, EntityId>) -> Seq<FactPlan> {
    link_plan(row.capital, 1, Confidence::Verified, ids) + optional_plan(
        2,
        population_value(row),
        Confidence::Attested,
    ) + optional_plan(3, area_value(row), Confidence::Attested) + link_plan(
        row.continent,
        4,
        Confidence::Verified,
        ids,
    ) + link_plan(row.language, 5, Confidence::Attested, ids) + link_plan(
        row.currency,
        6,
        Confidence::Attested,
        ids,
    ) + optional_plan(7, coordinates_value(row), Confidence::Attested)
}

/// Every fact that a country row adds fits its geography predicate: the
/// capital, continent, language and currency are entities, the population
/// a count of people, the area in square kilometers, the coordinates
/// coordinates.
pub proof fn lemma_country_facts_fit(
    row: CountryRow,
    ids: Map<Seq<char>, EntityId>,
    first: u64,
    country: EntityId,
    source: SourceRef,
    now: i64,
)
    ensures
        facts_fit(numbered_facts(country_plan(row, ids), first, country, source, now)),
{
    lemma_schema_names();
    assert(geography_schema(2).0 == "population"@);
    assert(geography_schema(3).0 == "area"@);
    let a = link_plan(row.capital, 1, Confidence::Verified, ids);
    let b = optional_plan(2, population_value(row), Confidence::Attested);
    let c = optional_plan(3, area_value(row), Confidence::Attested);
    let d = link_plan(row.continent, 4, Confidence::Verified, ids);
    let e = link_plan(row.language, 5, Confidence::Attested, ids);
    let f = link_plan(row.currency, 6, Confidence::Attested, ids);
    let h = optional_plan(7, coordinates_value(row), Confidence::Attested);
    assert(geography_schema(1).0 != "population"@ && geography_schema(1).0 != "area"@);
    assert(geography_schema(4).0 != "population"@ && geography_schema(4).0 != "area"@);
    assert(geography_schema(5).0 != "population"@ && geography_schema(5).0 != "area"@);
    assert(geography_schema(6).0 != "population"@ && geography_schema(6).0 != "area"@);
    assert(geography_schema(7).0 != "population"@ && geography_schema(7).0 != "area"@);
    assert(plan_fits(a));
    assert(plan_fits(b));
    assert(plan_fits(c));
    assert(plan_fits(d));
    assert(plan_fits(e));
    assert(plan_fits(f));
    assert(plan_fits(h));
    lemma_plan_fits_concat(a, b);
    lemma_plan_fits_concat(a + b, c);
    lemma_plan_fits_concat(a + b + c, d);
    lemma_plan_fits_concat(a + b + c + d, e);
    lemma_plan_fits_concat(a + b + c + d + e, f);
    lemma_plan_fits_concat(a + b + c + d + e + f, h);
    assert(country_plan(row, ids) == a + b + c + d + e + f + h);
    lemma_numbered_facts_fit(country_plan(row, ids), first, country, source, now);
}

/// The country of a row: its identifier, and its entity the first time its
/// knowledge-base identifier is seen.
fn import_country_entity(
    vault: &mut Vault,
    id_map: &mut IdMap,
    seen: &mut TextIndex<bool>,
    row: &CountryRow,
) -> (r: Option<EntityId>)
    requires
        old(vault).graph.wf(),
        old(id_map).wf(),
        old(id_map).next() < u64::MAX,
        old(seen).wf(),
    ensures
        final(vault).graph.wf(),
        final(seen).wf(),
        final(id_map).wf(),
        keeps_schema(*old(vault), *final(vault)),
        final(vault).graph@.relations == old(vault).graph@.relations,
        match row.country {
            None => {
                &&& r is None
                &&& final(vault).graph@ == old(vault).graph@
                &&& final(seen).view() == old(seen).view()
                &&& final(id_map)@ == old(id_map)@
                &&& final(id_map).next() == old(id_map).next()
            },
            Some(uri) => {
                let qid = qid_of(uri@);
                let fin = final(vault).graph@;
                &&& (final(id_map)@, final(id_map).next()) == with_qid(old(id_map)@, old(id_map).next(), qid)
                &&& r == Some(final(id_map)@[qid])
                &&& if old(seen).view().contains_key(qid) {
                    final(seen).view() == old(seen).view() && fin == old(vault).graph@
                } else {
                    let c = r->0;
                    &&& final(seen).view() == old(seen).view().insert(qid, true)
                    &&& fin.entities == with_entity(old(vault).graph@, fin.entities[c.0]).entities
                    &&& fin.labels == with_entity(old(vault).graph@, fin.entities[c.0]).labels
                    &&& imported_entity(fin.entities[c.0], c, label_or_unknown(row.country_label), 1, "country"@)
                }
            },
        },
{
    let uri = match &row.country {
        Some(u) => u,
        None => return None,
    };
    let qid = match extract_qid(uri.as_str()) {
        Some(q) => q,
        None => return None,
    };
    let label = label_text(&row.country_label);
    let country = id_map.get_or_create(qid.as_str());
    if seen.get(qid.as_str()).is_none() {
        let e = new_entity(country, label.as_str(), 1, "country");
        let ghost ev = e;
        vault.add_entity(e);
        assert(vault.graph@.entities[country.0] == ev);
        seen.insert(String::from_str(qid.as_str()), true);
    }
    Some(country)
}

/// The knowledge-base identifiers that a country row looks up, in order:
/// the country's, then those of its capital, continent, official language
/// and currency; none when the row names no country.
pub open spec fn row_qids(row: CountryRow) -> Seq<Seq<char>> {
    match row.country {
        Some(c) => seq![qid_of(c@)] + uri_qid(row.capital) + uri_qid(row.continent) + uri_qid(row.language)
            + uri_qid(row.currency),
        None => Seq::empty(),
    }
}

/// The knowledge-base identifier of `uri`, if any.
pub open spec fn uri_qid(uri: Option<String>) -> Seq<Seq<char>> {
    match uri {
        Some(u) => seq![qid_of(u@)],
        None => Seq::empty(),
    }
}

/// The identifiers after the knowledge-base identifiers `qids` are looked
/// up, in order.
pub open spec fn with_qids(ids: Map<Seq<char>, EntityId>, next: u64, qids: Seq<Seq<char>>) -> (Map<Seq<char>, EntityId>, u64)
    decreases qids.len(),
{
    if qids.len() == 0 {
        (ids, next)
    } else {
        let prev = with_qids(ids, next, qids.drop_last());
        with_qid(prev.0, prev.1, qids.last())
    }
}

proof fn lemma_with_qids_push(ids: Map<Seq<char>, EntityId>, next: u64, qids: Seq<Seq<char>>, q: Seq<char>)
    ensures
        with_qids(ids, next, qids.push(q)) == with_qid(with_qids(ids, next, qids).0, with_qids(ids, next, qids).1, q),
{
    assert(qids.push(q).drop_last() =~= qids);
}

proof fn lemma_with_qids_uri(ids: Map<Seq<char>, EntityId>, next: u64, qids: Seq<Seq<char>>, uri: Option<String>)
    ensures
        with_qids(ids, next, qids + uri_qid(uri)) == with_uri(
            with_qids(ids, next, qids).0,
            with_qids(ids, next, qids).1,
            uri,
        ),
{
    match uri {
        Some(u) => {
            assert(qids + uri_qid(uri) =~= qids.push(qid_of(u@)));
            lemma_with_qids_push(ids, next, qids, qid_of(u@));
        },
        None => {
            assert(qids + uri_qid(uri) =~= qids);
        },
    }
}

/// `g` with the entities that a country row links to taken from `fin`
/// (under their identifiers in `ids`) where `g` lacks them, in order:
/// capital, continent, official language, currency.
pub open spec fn links_graph(g: GraphView, row: CountryRow, ids: Map<Seq<char>, EntityId>, fin: GraphView) -> GraphView {
    let g1 = link_graph(g, row.capital, ids, fin);
    let g2 = link_graph(g1, row.continent, ids, fin);
    let g3 = link_graph(g2, row.language, ids, fin);
    link_graph(g3, row.currency, ids, fin)
}

/// The entities that a country row links to and creates have the shape
/// that the import gives them: a city, a continent, a language, a currency.
pub open spec fn links_shapes(g: GraphView, row: CountryRow, ids: Map<Seq<char>, EntityId>, fin: GraphView) -> bool {
    let g1 = link_graph(g, row.capital, ids, fin);
    let g2 = link_graph(g1, row.continent, ids, fin);
    let g3 = link_graph(g2, row.language, ids, fin);
    &&& link_shape(g, row.capital, row.capital_label, 2, "city"@, ids, fin)
    &&& link_shape(g1, row.continent, row.continent_label, 3, "continent"@, ids, fin)
    &&& link_shape(g2, row.language, row.language_label, 4, "language"@, ids, fin)
    &&& link_shape(g3, row.currency, row.currency_label, 5, "currency"@, ids, fin)
}

/// `old` with the country of a row (when it is new, taken from `fin`).
pub open spec fn country_graph(old: GraphView, row: CountryRow, new_country: bool, ids: Map<Seq<char>, EntityId>, fin: GraphView) -> GraphView {
    if new_country {
        with_entity(old, fin.entities[ids[qid_of(row.country->0@)].0])
    } else {
        old
    }
}

/// The knowledge-base identifiers that a country row looks up after its
/// country's: its capital, continent, official language and currency.
pub open spec fn link_qids(row: CountryRow) -> Seq<Seq<char>> {
    uri_qid(row.capital) + uri_qid(row.continent) + uri_qid(row.language) + uri_qid(row.currency)
}

/// `a` and `b` have the same entities and labels.
pub open spec fn same_index(a: GraphView, b: GraphView) -> bool {
    &&& a.entities == b.entities
    &&& a.labels == b.labels
}

proof fn lemma_link_same(
    a: GraphView,
    b: GraphView,
    uri: Option<String>,
    label: Option<String>,
    kind_id: u32,
    kind_name: Seq<char>,
    ids: Map<Seq<char>, EntityId>,
    f: GraphView,
)
    requires
        same_index(a, b),
    ensures
        same_index(link_graph(a, uri, ids, f), link_graph(b, uri, ids, f)),
        link_shape(a, uri, label, kind_id, kind_name, ids, f) == link_shape(b, uri, label, kind_id, kind_name, ids, f),
{
    reveal(link_graph);
    reveal(link_shape);
}

proof fn lemma_link_extends(a: GraphView, uri: Option<String>, ids: Map<Seq<char>, EntityId>, f: GraphView)
    ensures
        extends(a.entities, link_graph(a, uri, ids, f).entities),
        uri matches Some(u) ==> link_graph(a, uri, ids, f).entities.contains_key(ids[qid_of(u@)].0),
{
    reveal(link_graph);
    reveal(link_shape);
    match uri {
        Some(u) => {
            let id = ids[qid_of(u@)];
            if !a.entities.contains_key(id.0) {
                let after = a.entities.insert(id.0, f.entities[id.0]);
                assert forall|k: u64| #[trigger] a.entities.contains_key(k) implies after.contains_key(k)
                    && after[k] == a.entities[k] by {
                    assert(k != id.0);
                }
            }
        },
        None => {},
    }
}

proof fn lemma_extends_trans(a: Map<u64, Entity>, b: Map<u64, Entity>, c: Map<u64, Entity>)
    requires
        extends(a, b),
        extends(b, c),
    ensures
        extends(a, c),
{
}

proof fn lemma_agrees_trans(a: Map<Seq<char>, EntityId>, b: Map<Seq<char>, EntityId>, c: Map<Seq<char>, EntityId>)
    requires
        agrees(a, b),
        agrees(b, c),
    ensures
        agrees(a, c),
{
}

proof fn lemma_with_qids_concat(ids: Map<Seq<char>, EntityId>, next: u64, a: Seq<Seq<char>>, b: Seq<Seq<char>>)
    ensures
        with_qids(ids, next, a + b) == with_qids(with_qids(ids, next, a).0, with_qids(ids, next, a).1, b),
    decreases b.len(),
{
    if b.len() > 0 {
        lemma_with_qids_concat(ids, next, a, b.drop_last());
        assert((a + b).drop_last() =~= a + b.drop_last());
    } else {
        assert(a + b =~= a);
    }
}

proof fn lemma_with_qids_grow(ids: Map<Seq<char>, EntityId>, next: u64, qids: Seq<Seq<char>>)
    requires
        next + qids.len() <= u64::MAX,
    ensures
        agrees(ids, with_qids(ids, next, qids).0),
        next <= with_qids(ids, next, qids).1 <= next + qids.len(),
        forall|k: int| 0 <= k < qids.len() ==> with_qids(ids, next, qids).0.contains_key(#[trigger] qids[k]),
    decreases qids.len(),
{
    if qids.len() > 0 {
        let prev = with_qids(ids, next, qids.drop_last());
        lemma_with_qids_grow(ids, next, qids.drop_last());
        lemma_with_qid_agrees(prev.0, prev.1, qids.last());
        lemma_agrees_trans(ids, prev.0, with_qids(ids, next, qids).0);
        assert forall|k: int| 0 <= k < qids.len() implies with_qids(ids, next, qids).0.contains_key(#[trigger] qids[k]) by {
            if k < qids.len() - 1 {
                assert(qids.drop_last()[k] == qids[k]);
            }
        }
    }
}

/// The facts of a country row after its country (`country`), each linked
/// entity being created when absent.
#[verifier::spinoff_prover]
#[verifier::rlimit(100)]
fn import_country_links(
    vault: &mut Vault,
    id_map: &mut IdMap,
    rel_ids: &mut RelationIds,
    row: &CountryRow,
    country: EntityId,
    source: &SourceRef,
    now: i64,
)
    requires
        has_room(*old(vault), *old(rel_ids), 7),
        old(id_map).wf(),
        old(id_map).next() + 4 < u64::MAX,
    ensures
        final(vault).graph.wf(),
        final(id_map).wf(),
        keeps_schema(*old(vault), *final(vault)),
        (final(id_map)@, final(id_map).next()) == with_qids(old(id_map)@, old(id_map).next(), link_qids(*row)),
        final(vault).graph@.relations == old(vault).graph@.relations + numbered_facts(
            country_plan(*row, final(id_map)@),
            old(rel_ids).next,
            country,
            *source,
            now,
        ),
        final(rel_ids).next == old(rel_ids).next + country_plan(*row, final(id_map)@).len(),
        same_index(final(vault).graph@, links_graph(old(vault).graph@, *row, final(id_map)@, final(vault).graph@)),
        links_shapes(old(vault).graph@, *row, final(id_map)@, final(vault).graph@),
{
    let ghost s0 = vault.graph@;
    let ghost m0 = *id_map;
    let ghost base = vault.graph@.relations;
    let ghost n0 = rel_ids.next;
    let ghost mut acc: Seq<FactPlan> = Seq::empty();
    proof {
        assert(base + numbered_facts(acc, n0, country, *source, now) =~= base);
    }
    link_entity(vault, id_map, rel_ids, country, &row.capital, &row.capital_label, 2, "city", 1, Confidence::Verified, source, now);
    let ghost m1 = *id_map;
    let ghost s1 = vault.graph@;
    proof {
        let p = link_plan(row.capital, 1, Confidence::Verified, m1@);
        lemma_extend(base, acc, p, n0, country, *source, now);
        acc = acc + p;
    }
    add_optional_fact(vault, rel_ids, country, 2, match row.population {
        Some(p) => Some(Value::Number { value: p, unit: Unit::Count }),
        None => None,
    }, Confidence::Attested, source, now);
    proof {
        let p = optional_plan(2, population_value(*row), Confidence::Attested);
        lemma_extend(base, acc, p, n0, country, *source, now);
        acc = acc + p;
    }
    add_optional_fact(vault, rel_ids, country, 3, match row.area {
        Some(a) => Some(Value::Number { value: a, unit: Unit::SquareKilometer }),
        None => None,
    }, Confidence::Attested, source, now);
    proof {
        let p = optional_plan(3, area_value(*row), Confidence::Attested);
        lemma_extend(base, acc, p, n0, country, *source, now);
        acc = acc + p;
    }
    let ghost s3 = vault.graph@;
    link_entity(vault, id_map, rel_ids, country, &row.continent, &row.continent_label, 3, "continent", 4, Confidence::Verified, source, now);
    let ghost m4 = *id_map;
    let ghost s4 = vault.graph@;
    proof {
        let p = link_plan(row.continent, 4, Confidence::Verified, m4@);
        lemma_extend(base, acc, p, n0, country, *source, now);
        acc = acc + p;
    }
    link_entity(vault, id_map, rel_ids, country, &row.language, &row.language_label, 4, "language", 5, Confidence::Attested, source, now);
    let ghost m5 = *id_map;
    let ghost s5 = vault.graph@;
    proof {
        let p = link_plan(row.language, 5, Confidence::Attested, m5@);
        lemma_extend(base, acc, p, n0, country, *source, now);
        acc = acc + p;
    }
    link_entity(vault, id_map, rel_ids, country, &row.currency, &row.currency_label, 5, "currency", 6, Confidence::Attested, source, now);
    let ghost m6 = *id_map;
    let ghost s6 = vault.graph@;
    proof {
        let p = link_plan(row.currency, 6, Confidence::Attested, m6@);
        lemma_extend(base, acc, p, n0, country, *source, now);
        acc = acc + p;
    }
    add_optional_fact(vault, rel_ids, country, 7, match row.coordinates {
        Some((lat, lon)) => Some(Value::Coordinate { lat, lon }),
        None => None,
    }, Confidence::Attested, source, now);
    proof {
        let p = optional_plan(7, coordinates_value(*row), Confidence::Attested);
        lemma_extend(base, acc, p, n0, country, *source, now);
        acc = acc + p;
        lemma_links(*row, m0@, m0.next(), m1@, m1.next(), m4@, m4.next(), m5@, m5.next(), m6@, m6.next(), s0, s1, s3, s4, s5, s6, vault.graph@);
        assert(acc == country_plan(*row, m6@));
    }
}

/// Each step of a country row's links, taken one by one, adds up to what
/// `links_graph`, `links_shapes` and `with_qids` say with the final
/// identifiers and graph.
proof fn lemma_links(
    row: CountryRow,
    m0: Map<Seq<char>, EntityId>,
    n0: u64,
    m1: Map<Seq<char>, EntityId>,
    n1: u64,
    m4: Map<Seq<char>, EntityId>,
    n4: u64,
    m5: Map<Seq<char>, EntityId>,
    n5: u64,
    m6: Map<Seq<char>, EntityId>,
    n6: u64,
    s0: GraphView,
    s1: GraphView,
    s3: GraphView,
    s4: GraphView,
    s5: GraphView,
    s6: GraphView,
    fin: GraphView,
)
    requires
        (m1, n1) == with_uri(m0, n0, row.capital),
        (m4, n4) == with_uri(m1, n1, row.continent),
        (m5, n5) == with_uri(m4, n4, row.language),
        (m6, n6) == with_uri(m5, n5, row.currency),
        same_index(s1, link_graph(s0, row.capital, m1, s1)),
        same_index(s3, s1),
        same_index(s4, link_graph(s3, row.continent, m4, s4)),
        same_index(s5, link_graph(s4, row.language, m5, s5)),
        same_index(s6, link_graph(s5, row.currency, m6, s6)),
        same_index(fin, s6),
        link_shape(s0, row.capital, row.capital_label, 2, "city"@, m1, s1),
        link_shape(s3, row.continent, row.continent_label, 3, "continent"@, m4, s4),
        link_shape(s4, row.language, row.language_label, 4, "language"@, m5, s5),
        link_shape(s5, row.currency, row.currency_label, 5, "currency"@, m6, s6),
    ensures
        (m6, n6) == with_qids(m0, n0, link_qids(row)),
        link_plan(row.capital, 1, Confidence::Verified, m1) == link_plan(row.capital, 1, Confidence::Verified, m6),
        link_plan(row.continent, 4, Confidence::Verified, m4) == link_plan(row.continent, 4, Confidence::Verified, m6),
        link_plan(row.language, 5, Confidence::Attested, m5) == link_plan(row.language, 5, Confidence::Attested, m6),
        agrees(m0, m6),
        extends(s0.entities, fin.entities),
        same_index(fin, links_graph(s0, row, m6, fin)),
        links_shapes(s0, row, m6, fin),
{
    let q = Seq::<Seq<char>>::empty();
    assert(q + uri_qid(row.capital) + uri_qid(row.continent) + uri_qid(row.language) + uri_qid(row.currency)
        =~= link_qids(row));
    lemma_with_qids_uri(m0, n0, q, row.capital);
    lemma_with_qids_uri(m0, n0, q + uri_qid(row.capital), row.continent);
    lemma_with_qids_uri(m0, n0, q + uri_qid(row.capital) + uri_qid(row.continent), row.language);
    lemma_with_qids_uri(m0, n0, q + uri_qid(row.capital) + uri_qid(row.continent) + uri_qid(row.language), row.currency);
    assert(q + uri_qid(row.capital) =~= uri_qid(row.capital));
    match row.capital { Some(u) => lemma_with_qid_agrees(m0, n0, qid_of(u@)), None => {} }
    match row.continent { Some(u) => lemma_with_qid_agrees(m1, n1, qid_of(u@)), None => {} }
    match row.language { Some(u) => lemma_with_qid_agrees(m4, n4, qid_of(u@)), None => {} }
    match row.currency { Some(u) => lemma_with_qid_agrees(m5, n5, qid_of(u@)), None => {} }
    lemma_agrees_trans(m4, m5, m6);
    lemma_agrees_trans(m1, m4, m6);
    lemma_agrees_trans(m0, m1, m6);
    lemma_link_extends(s0, row.capital, m1, s1);
    lemma_link_extends(s3, row.continent, m4, s4);
    lemma_link_extends(s4, row.language, m5, s5);
    lemma_link_extends(s5, row.currency, m6, s6);
    lemma_extends_trans(s5.entities, s6.entities, fin.entities);
    lemma_extends_trans(s4.entities, s5.entities, fin.entities);
    lemma_extends_trans(s3.entities, s4.entities, fin.entities);
    lemma_extends_trans(s1.entities, s3.entities, fin.entities);
    lemma_extends_trans(s0.entities, s1.entities, fin.entities);
    lemma_link_stable(s0, row.capital, row.capital_label, 2, "city"@, 1, Confidence::Verified, m1, m6, s1, fin);
    let g1 = link_graph(s0, row.capital, m6, fin);
    assert(same_index(g1, s3));
    lemma_link_stable(s3, row.continent, row.continent_label, 3, "continent"@, 4, Confidence::Verified, m4, m6, s4, fin);
    lemma_link_same(g1, s3, row.continent, row.continent_label, 3, "continent"@, m6, fin);
    let g2 = link_graph(g1, row.continent, m6, fin);
    assert(same_index(g2, s4));
    lemma_link_stable(s4, row.language, row.language_label, 4, "language"@, 5, Confidence::Attested, m5, m6, s5, fin);
    lemma_link_same(g2, s4, row.language, row.language_label, 4, "language"@, m6, fin);
    let g3 = link_graph(g2, row.language, m6, fin);
    assert(same_index(g3, s5));
    lemma_link_stable(s5, row.currency, row.currency_label, 5, "currency"@, 6, Confidence::Attested, m6, m6, s6, fin);
    lemma_link_same(g3, s5, row.currency, row.currency_label, 5, "currency"@, m6, fin);
}

proof fn lemma_links_same(a: GraphView, b: GraphView, row: CountryRow, ids: Map<Seq<char>, EntityId>, f: GraphView)
    requires
        same_index(a, b),
    ensures
        same_index(links_graph(a, row, ids, f), links_graph(b, row, ids, f)),
        links_shapes(a, row, ids, f) == links_shapes(b, row, ids, f),
{
    lemma_link_same(a, b, row.capital, row.capital_label, 2, "city"@, ids, f);
    let a1 = link_graph(a, row.capital, ids, f);
    let b1 = link_graph(b, row.capital, ids, f);
    lemma_link_same(a1, b1, row.continent, row.continent_label, 3, "continent"@, ids, f);
    let a2 = link_graph(a1, row.continent, ids, f);
    let b2 = link_graph(b1, row.continent, ids, f);
    lemma_link_same(a2, b2, row.language, row.language_label, 4, "language"@, ids, f);
    let a3 = link_graph(a2, row.language, ids, f);
    let b3 = link_graph(b2, row.language, ids, f);
    lemma_link_same(a3, b3, row.currency, row.currency_label, 5, "currency"@, ids, f);
}

/// Imports one country row: the country (the first time its identifier is
/// seen), then its capital, population, area, continent, official
/// language, currency and coordinates, each linked entity being created
/// when absent.
pub fn import_country_row(
    vault: &mut Vault,
    id_map: &mut IdMap,
    rel_ids: &mut RelationIds,
    seen: &mut TextIndex<bool>,
    row: &CountryRow,
    source: &SourceRef,
    now: i64,
)
    requires
        has_room(*old(vault), *old(rel_ids), 7),
        old(id_map).wf(),
        old(id_map).next() + 5 < u64::MAX,
        old(seen).wf(),
    ensures
        final(vault).graph.wf(),
        final(seen).wf(),
        final(id_map).wf(),
        keeps_schema(*old(vault), *final(vault)),
        (final(id_map)@, final(id_map).next()) == with_qids(old(id_map)@, old(id_map).next(), row_qids(*row)),
        match row.country {
            None => {
                &&& final(vault).graph@ == old(vault).graph@
                &&& final(rel_ids).next == old(rel_ids).next
                &&& final(seen).view() == old(seen).view()
            },
            Some(uri) => {
                let qid = qid_of(uri@);
                let ids = final(id_map)@;
                let fin = final(vault).graph@;
                let new_country = !old(seen).view().contains_key(qid);
                let c = ids[qid];
                let g0 = country_graph(old(vault).graph@, *row, new_country, ids, fin);
                let plan = country_plan(*row, ids);
                &&& fin.relations == old(vault).graph@.relations + numbered_facts(plan, old(rel_ids).next, c, *source, now)
                &&& final(rel_ids).next == old(rel_ids).next + plan.len()
                &&& final(seen).view() == if new_country {
                    old(seen).view().insert(qid, true)
                } else {
                    old(seen).view()
                }
                &&& new_country ==> imported_entity(fin.entities[c.0], c, label_or_unknown(row.country_label), 1, "country"@)
                &&& same_index(fin, links_graph(g0, *row, ids, fin))
                &&& links_shapes(g0, *row, ids, fin)
            },
        },
{
    let ghost g_old = vault.graph@;
    let ghost m_old = *id_map;
    let country = match import_country_entity(vault, id_map, seen, row) {
        Some(c) => c,
        None => {
            assert(row_qids(*row) =~= Seq::<Seq<char>>::empty());
            return;
        },
    };
    let ghost qid = qid_of(row.country->0@);
    let ghost s0 = vault.graph@;
    let ghost m0 = *id_map;
    import_country_links(vault, id_map, rel_ids, row, country, source, now);
    proof {
        let fin = vault.graph@;
        let ids = id_map@;
        lemma_with_qids_grow(m0@, m0.next(), link_qids(*row));
        assert(seq![qid] =~= Seq::<Seq<char>>::empty().push(qid));
        lemma_with_qids_push(m_old@, m_old.next(), Seq::empty(), qid);
        assert(row_qids(*row) =~= seq![qid] + link_qids(*row));
        lemma_with_qids_concat(m_old@, m_old.next(), seq![qid], link_qids(*row));
        lemma_with_qid_agrees(m_old@, m_old.next(), qid);
        assert(ids[qid] == country);
        lemma_links_extend(s0, *row, ids, fin);
        let new_country = !old(seen).view().contains_key(qid);
        let g0 = country_graph(g_old, *row, new_country, ids, fin);
        if new_country {
            assert(s0.entities.contains_key(country.0));
            assert(fin.entities[country.0] == s0.entities[country.0]);
        }
        assert(same_index(g0, s0));
        lemma_links_same(g0, s0, *row, ids, fin);
    }
}

proof fn lemma_links_extend(g: GraphView, row: CountryRow, ids: Map<Seq<char>, EntityId>, f: GraphView)
    ensures
        extends(g.entities, links_graph(g, row, ids, f).entities),
{
    let g1 = link_graph(g, row.capital, ids, f);
    let g2 = link_graph(g1, row.continent, ids, f);
    let g3 = link_graph(g2, row.language, ids, f);
    lemma_link_extends(g, row.capital, ids, f);
    lemma_link_extends(g1, row.continent, ids, f);
    lemma_link_extends(g2, row.language, ids, f);
    lemma_link_extends(g3, row.currency, ids, f);
    lemma_extends_trans(g.entities, g1.entities, g2.entities);
    lemma_extends_trans(g.entities, g2.entities, g3.entities);
    lemma_extends_trans(g.entities, g3.entities, links_graph(g, row, ids, f).entities);
}

/// What importing country rows has built so far: the label index, the
/// identifiers of the entities, the countries seen, the English label of
/// each (from the first row that names it), the entity identifiers of the
/// countries, the entities created for what the countries link to (their
/// label, kind and kind's name), the knowledge-base identifiers handed out
/// and the next one, and the facts added.
pub struct CountriesSoFar {
    pub labels: Map<Seq<char>, EntityId>,
    pub ids: Set<u64>,
    pub seen: Map<Seq<char>, bool>,
    pub names: Map<Seq<char>, Seq<char>>,
    pub countries: Set<u64>,
    pub links: Map<u64, (Seq<char>, u32, Seq<char>)>,
    pub qids: Map<Seq<char>, EntityId>,
    pub next: u64,
    pub facts: Seq<Relation>,
}

/// A label index and the identifiers of the entities, with the entity `id`
/// added under the one label `label`.
pub open spec fn index_with(ix: (Map<Seq<char>, EntityId>, Set<u64>), label: Seq<char>, id: EntityId) -> (Map<Seq<char>, EntityId>, Set<u64>) {
    (ix.0.insert(lowercase_of(label), id), ix.1.insert(id.0))
}

/// `ix` with the entity that `uri` names added under its label when it is
/// not there yet.
pub open spec fn link_index(
    ix: (Map<Seq<char>, EntityId>, Set<u64>),
    uri: Option<String>,
    label: Option<String>,
    qids: Map<Seq<char>, EntityId>,
) -> (Map<Seq<char>, EntityId>, Set<u64>) {
    match uri {
        Some(u) => {
            let id = qids[qid_of(u@)];
            if ix.1.contains(id.0) {
                ix
            } else {
                index_with(ix, label_or_unknown(label), id)
            }
        },
        None => ix,
    }
}

/// `links` with the entity that `uri` names, when `ids` lacks it, recorded
/// with its label (or "Unknown"), kind and kind's name.
pub open spec fn with_link(
    links: Map<u64, (Seq<char>, u32, Seq<char>)>,
    ids: Set<u64>,
    uri: Option<String>,
    label: Option<String>,
    kind_id: u32,
    kind_name: Seq<char>,
    qids: Map<Seq<char>, EntityId>,
) -> Map<u64, (Seq<char>, u32, Seq<char>)> {
    match uri {
        Some(u) => {
            let id = qids[qid_of(u@)];
            if ids.contains(id.0) {
                links
            } else {
                links.insert(id.0, (label_or_unknown(label), kind_id, kind_name))
            }
        },
        None => links,
    }
}

/// What one more country row adds, its facts numbered on from `first` plus
/// those so far.
pub open spec fn country_step(st: CountriesSoFar, row: CountryRow, first: u64, source: SourceRef, now: i64) -> CountriesSoFar {
    match row.country {
        Some(uri) => {
            let qid = qid_of(uri@);
            let looked = with_qids(st.qids, st.next, row_qids(row));
            let qids = looked.0;
            let c = qids[qid];
            let new_country = !st.seen.contains_key(qid);
            let ix0 = if new_country {
                index_with((st.labels, st.ids), label_or_unknown(row.country_label), c)
            } else {
                (st.labels, st.ids)
            };
            let ix1 = link_index(ix0, row.capital, row.capital_label, qids);
            let ix2 = link_index(ix1, row.continent, row.continent_label, qids);
            let ix3 = link_index(ix2, row.language, row.language_label, qids);
            let ix4 = link_index(ix3, row.currency, row.currency_label, qids);
            CountriesSoFar {
                labels: ix4.0,
                ids: ix4.1,
                seen: if new_country {
                    st.seen.insert(qid, true)
                } else {
                    st.seen
                },
                names: if new_country {
                    st.names.insert(qid, label_or_unknown(row.country_label))
                } else {
                    st.names
                },
                countries: if new_country {
                    st.countries.insert(c.0)
                } else {
                    st.countries
                },
                links: with_link(
                    with_link(
                        with_link(
                            with_link(st.links, ix0.1, row.capital, row.capital_label, 2, "city"@, qids),
                            ix1.1,
                            row.continent,
                            row.continent_label,
                            3,
                            "continent"@,
                            qids,
                        ),
                        ix2.1,
                        row.language,
                        row.language_label,
                        4,
                        "language"@,
                        qids,
                    ),
                    ix3.1,
                    row.currency,
                    row.currency_label,
                    5,
                    "currency"@,
                    qids,
                ),
                qids,
                next: looked.1,
                facts: st.facts + numbered_facts(country_plan(row, qids), (first + st.facts.len()) as u64, c, source, now),
            }
        },
        None => st,
    }
}

/// What importing the country rows `rows`, one after the other, builds
/// from `st`.
pub open spec fn countries_after(st: CountriesSoFar, rows: Seq<CountryRow>, first: u64, source: SourceRef, now: i64) -> CountriesSoFar
    decreases rows.len(),
{
    if rows.len() == 0 {
        st
    } else {
        country_step(countries_after(st, rows.drop_last(), first, source, now), rows.last(), first, source, now)
    }
}

proof fn lemma_row_qids_len(row: CountryRow)
    ensures
        row_qids(row).len() <= 5,
{
}

proof fn lemma_country_plan_len(row: CountryRow, ids: Map<Seq<char>, EntityId>)
    ensures
        country_plan(row, ids).len() <= 7,
{
}

proof fn lemma_index_one(m: Map<Seq<char>, EntityId>, e: Entity, id: EntityId, label: Seq<char>, kind_id: u32, kind_name: Seq<char>)
    requires
        imported_entity(e, id, label, kind_id, kind_name),
    ensures
        index_labels(m, e.labels@, id) == m.insert(lowercase_of(label), id),
{
    reveal_with_fuel(index_labels, 2);
    assert(e.labels@.drop_last() =~= Seq::<Label>::empty());
}

proof fn lemma_link_index(
    g: GraphView,
    uri: Option<String>,
    label: Option<String>,
    kind_id: u32,
    kind_name: Seq<char>,
    qids: Map<Seq<char>, EntityId>,
    fin: GraphView,
)
    requires
        link_shape(g, uri, label, kind_id, kind_name, qids, fin),
    ensures
        link_graph(g, uri, qids, fin).labels == link_index((g.labels, g.entities.dom()), uri, label, qids).0,
        link_graph(g, uri, qids, fin).entities.dom() == link_index((g.labels, g.entities.dom()), uri, label, qids).1,
{
    reveal(link_graph);
    reveal(link_shape);
    match uri {
        Some(u) => {
            let id = qids[qid_of(u@)];
            if !g.entities.contains_key(id.0) {
                lemma_index_one(g.labels, fin.entities[id.0], id, label_or_unknown(label), kind_id, kind_name);
                assert(g.entities.insert(id.0, fin.entities[id.0]).dom() =~= g.entities.dom().insert(id.0));
            }
        },
        None => {},
    }
}

/// A country row, as `import_country_row` leaves the graph, is the step that
/// `country_step` describes, as far as labels and entity identifiers go.
proof fn lemma_country_index(g: GraphView, fin: GraphView, st: CountriesSoFar, row: CountryRow, first: u64, source: SourceRef, now: i64)
    requires
        g.labels == st.labels,
        g.entities.dom() == st.ids,
        row.country is Some,
        ({
            let qid = qid_of(row.country->0@);
            let qids = with_qids(st.qids, st.next, row_qids(row)).0;
            let new_country = !st.seen.contains_key(qid);
            let c = qids[qid];
            let g0 = country_graph(g, row, new_country, qids, fin);
            &&& new_country ==> imported_entity(fin.entities[c.0], c, label_or_unknown(row.country_label), 1, "country"@)
            &&& same_index(fin, links_graph(g0, row, qids, fin))
            &&& links_shapes(g0, row, qids, fin)
        }),
    ensures
        fin.labels == country_step(st, row, first, source, now).labels,
        fin.entities.dom() == country_step(st, row, first, source, now).ids,
{
    let qid = qid_of(row.country->0@);
    let qids = with_qids(st.qids, st.next, row_qids(row)).0;
    let new_country = !st.seen.contains_key(qid);
    let c = qids[qid];
    let g0 = country_graph(g, row, new_country, qids, fin);
    if new_country {
        lemma_index_one(g.labels, fin.entities[c.0], c, label_or_unknown(row.country_label), 1, "country"@);
        assert(g0.entities.dom() =~= g.entities.dom().insert(c.0));
    }
    let g1 = link_graph(g0, row.capital, qids, fin);
    let g2 = link_graph(g1, row.continent, qids, fin);
    let g3 = link_graph(g2, row.language, qids, fin);
    lemma_link_index(g0, row.capital, row.capital_label, 2, "city"@, qids, fin);
    lemma_link_index(g1, row.continent, row.continent_label, 3, "continent"@, qids, fin);
    lemma_link_index(g2, row.language, row.language_label, 4, "language"@, qids, fin);
    lemma_link_index(g3, row.currency, row.currency_label, 5, "currency"@, qids, fin);
}

/// What the country rows so far have built in `entities`: each country as
/// the import creates it (one primary English label, the kind "country");
/// each entity created for a link, unless a country later took its
/// identifier, as recorded in `st.links`; every entity of `before` that no
/// country replaced, as it was; and nothing else.
pub open spec fn countries_built(before: Map<u64, Entity>, st: CountriesSoFar, entities: Map<u64, Entity>) -> bool {
    &&& st.ids == before.dom().union(st.countries).union(st.links.dom())
    &&& links_built(st.links, st.countries, entities)
    &&& forall|q: Seq<char>|
        #[trigger] st.names.contains_key(q) ==> st.qids.contains_key(q) && entities.contains_key(st.qids[q].0)
            && imported_entity(entities[st.qids[q].0], st.qids[q], st.names[q], 1, "country"@)
    &&& forall|x: u64|
        #[trigger] before.contains_key(x) && !st.countries.contains(x) ==> entities.contains_key(x)
            && entities[x] == before[x]
}

/// The entities recorded in `links`, but for those under the identifier of
/// a country, are in `entities` as the import creates them.
pub open spec fn links_built(
    links: Map<u64, (Seq<char>, u32, Seq<char>)>,
    countries: Set<u64>,
    entities: Map<u64, Entity>,
) -> bool {
    forall|x: u64|
        #[trigger] links.contains_key(x) && !countries.contains(x) ==> entities.contains_key(x) && imported_entity(
            entities[x],
            EntityId(x),
            links[x].0,
            links[x].1,
            links[x].2,
        )
}

/// One link step keeps `links_built` and the account of the identifiers.
proof fn lemma_with_link_built(
    links: Map<u64, (Seq<char>, u32, Seq<char>)>,
    countries: Set<u64>,
    base: Set<u64>,
    g: GraphView,
    uri: Option<String>,
    label: Option<String>,
    kind_id: u32,
    kind_name: Seq<char>,
    qids: Map<Seq<char>, EntityId>,
    fin: GraphView,
)
    requires
        links_built(links, countries, fin.entities),
        g.entities.dom() == base.union(links.dom()),
        link_shape(g, uri, label, kind_id, kind_name, qids, fin),
        extends(link_graph(g, uri, qids, fin).entities, fin.entities),
    ensures
        links_built(with_link(links, g.entities.dom(), uri, label, kind_id, kind_name, qids), countries, fin.entities),
        link_graph(g, uri, qids, fin).entities.dom() == base.union(
            with_link(links, g.entities.dom(), uri, label, kind_id, kind_name, qids).dom(),
        ),
{
    reveal(link_graph);
    reveal(link_shape);
    if let Some(u) = uri {
        let id = qids[qid_of(u@)];
        if !g.entities.contains_key(id.0) {
            let after = g.entities.insert(id.0, fin.entities[id.0]);
            assert(after.contains_key(id.0));
            assert(EntityId(id.0) == id);
            assert(after.dom() =~= base.union(links.insert(id.0, (label_or_unknown(label), kind_id, kind_name)).dom()));
        }
    }
}

/// The links that a country row records, from `links`, as the steps of
/// `links_graph` from `g0` see them.
pub open spec fn country_links(
    links: Map<u64, (Seq<char>, u32, Seq<char>)>,
    g0: GraphView,
    row: CountryRow,
    qids: Map<Seq<char>, EntityId>,
    fin: GraphView,
) -> Map<u64, (Seq<char>, u32, Seq<char>)> {
    let g1 = link_graph(g0, row.capital, qids, fin);
    let g2 = link_graph(g1, row.continent, qids, fin);
    let g3 = link_graph(g2, row.language, qids, fin);
    let l1 = with_link(links, g0.entities.dom(), row.capital, row.capital_label, 2, "city"@, qids);
    let l2 = with_link(l1, g1.entities.dom(), row.continent, row.continent_label, 3, "continent"@, qids);
    let l3 = with_link(l2, g2.entities.dom(), row.language, row.language_label, 4, "language"@, qids);
    with_link(l3, g3.entities.dom(), row.currency, row.currency_label, 5, "currency"@, qids)
}

proof fn lemma_country_links_built(
    before: Map<u64, Entity>,
    g: GraphView,
    g0: GraphView,
    fin: GraphView,
    st: CountriesSoFar,
    row: CountryRow,
    qids: Map<Seq<char>, EntityId>,
    c: EntityId,
    new_country: bool,
    countries: Set<u64>,
)
    requires
        countries_built(before, st, g.entities),
        g.entities.dom() == st.ids,
        g0 == country_graph(g, row, new_country, qids, fin),
        c == qids[qid_of(row.country->0@)],
        row.country is Some,
        new_country ==> fin.entities[c.0].id == c,
        countries == if new_country {
            st.countries.insert(c.0)
        } else {
            st.countries
        },
        !new_country ==> st.countries.contains(c.0) || g.entities.contains_key(c.0),
        same_index(fin, links_graph(g0, row, qids, fin)),
        links_shapes(g0, row, qids, fin),
    ensures
        links_built(country_links(st.links, g0, row, qids, fin), countries, fin.entities),
        fin.entities.dom() == before.dom().union(countries).union(country_links(st.links, g0, row, qids, fin).dom()),
{
    let b = before.dom().union(countries);
    let g1 = link_graph(g0, row.capital, qids, fin);
    let g2 = link_graph(g1, row.continent, qids, fin);
    let g3 = link_graph(g2, row.language, qids, fin);
    let g4 = link_graph(g3, row.currency, qids, fin);
    lemma_link_extends(g0, row.capital, qids, fin);
    lemma_link_extends(g1, row.continent, qids, fin);
    lemma_link_extends(g2, row.language, qids, fin);
    lemma_link_extends(g3, row.currency, qids, fin);
    assert(fin.entities == g4.entities);
    lemma_extends_trans(g3.entities, g4.entities, fin.entities);
    lemma_extends_trans(g2.entities, g3.entities, fin.entities);
    lemma_extends_trans(g1.entities, g2.entities, fin.entities);
    lemma_extends_trans(g0.entities, g1.entities, fin.entities);
    if new_country {
        assert(g0.entities.dom() =~= b.union(st.links.dom()));
    } else {
        assert(g0.entities.dom() =~= b.union(st.links.dom()));
    }
    assert forall|x: u64| #[trigger] st.links.contains_key(x) && !countries.contains(x) implies fin.entities.contains_key(x)
        && imported_entity(fin.entities[x], EntityId(x), st.links[x].0, st.links[x].1, st.links[x].2) by {
        assert(g.entities.contains_key(x));
        assert(g0.entities.contains_key(x));
        assert(g0.entities[x] == g.entities[x]);
    }
    let l1 = with_link(st.links, g0.entities.dom(), row.capital, row.capital_label, 2, "city"@, qids);
    let l2 = with_link(l1, g1.entities.dom(), row.continent, row.continent_label, 3, "continent"@, qids);
    let l3 = with_link(l2, g2.entities.dom(), row.language, row.language_label, 4, "language"@, qids);
    lemma_with_link_built(st.links, countries, b, g0, row.capital, row.capital_label, 2, "city"@, qids, fin);
    lemma_with_link_built(l1, countries, b, g1, row.continent, row.continent_label, 3, "continent"@, qids, fin);
    lemma_with_link_built(l2, countries, b, g2, row.language, row.language_label, 4, "language"@, qids, fin);
    lemma_with_link_built(l3, countries, b, g3, row.currency, row.currency_label, 5, "currency"@, qids, fin);
}

/// A country row keeps what `countries_built` says of the rows before it.
proof fn lemma_country_built(
    before: Map<u64, Entity>,
    g: GraphView,
    fin: GraphView,
    st: CountriesSoFar,
    row: CountryRow,
    first: u64,
    source: SourceRef,
    now: i64,
)
    requires
        countries_built(before, st, g.entities),
        st.names.dom() == st.seen.dom(),
        agrees(st.qids, with_qids(st.qids, st.next, row_qids(row)).0),
        forall|a: Seq<char>, b: Seq<char>|
            #[trigger] with_qids(st.qids, st.next, row_qids(row)).0.contains_key(a)
                && #[trigger] with_qids(st.qids, st.next, row_qids(row)).0.contains_key(b) && a != b
                ==> with_qids(st.qids, st.next, row_qids(row)).0[a] != with_qids(st.qids, st.next, row_qids(row)).0[b],
        row.country is Some ==> with_qids(st.qids, st.next, row_qids(row)).0.contains_key(qid_of(row.country->0@)),
        row.country is None ==> fin == g,
        row.country is Some ==> ({
            let qid = qid_of(row.country->0@);
            let qids = with_qids(st.qids, st.next, row_qids(row)).0;
            let new_country = !st.seen.contains_key(qid);
            let c = qids[qid];
            let g0 = country_graph(g, row, new_country, qids, fin);
            &&& new_country ==> imported_entity(fin.entities[c.0], c, label_or_unknown(row.country_label), 1, "country"@)
            &&& same_index(fin, links_graph(g0, row, qids, fin))
            &&& links_shapes(g0, row, qids, fin)
        }),
        g.entities.dom() == st.ids,
    ensures
        countries_built(before, country_step(st, row, first, source, now), fin.entities),
        country_step(st, row, first, source, now).names.dom() == country_step(st, row, first, source, now).seen.dom(),
{
    let next = country_step(st, row, first, source, now);
    if let Some(u) = row.country {
        let qid = qid_of(u@);
        let qids = with_qids(st.qids, st.next, row_qids(row)).0;
        let new_country = !st.seen.contains_key(qid);
        let c = qids[qid];
        let g0 = country_graph(g, row, new_country, qids, fin);
        lemma_links_extend(g0, row, qids, fin);
        assert(extends(g0.entities, fin.entities));
        if !new_country {
            assert(st.names.contains_key(qid));
            assert(st.qids[qid] == qids[qid]);
        } else {
            assert(fin.entities[c.0].id == c);
        }
        lemma_country_links_built(before, g, g0, fin, st, row, qids, c, new_country, next.countries);
        let ix0 = if new_country {
            index_with((st.labels, st.ids), label_or_unknown(row.country_label), c)
        } else {
            (st.labels, st.ids)
        };
        assert(ix0.1 =~= g0.entities.dom());
        let g1 = link_graph(g0, row.capital, qids, fin);
        let g2 = link_graph(g1, row.continent, qids, fin);
        let g3 = link_graph(g2, row.language, qids, fin);
        let ix1 = link_index(ix0, row.capital, row.capital_label, qids);
        let ix2 = link_index(ix1, row.continent, row.continent_label, qids);
        let ix3 = link_index(ix2, row.language, row.language_label, qids);
        lemma_link_index(g0, row.capital, row.capital_label, 2, "city"@, qids, fin);
        assert(ix1.1 == link_index((g0.labels, g0.entities.dom()), row.capital, row.capital_label, qids).1);
        lemma_link_index(g1, row.continent, row.continent_label, 3, "continent"@, qids, fin);
        assert(ix2.1 == link_index((g1.labels, g1.entities.dom()), row.continent, row.continent_label, qids).1);
        lemma_link_index(g2, row.language, row.language_label, 4, "language"@, qids, fin);
        assert(ix3.1 == link_index((g2.labels, g2.entities.dom()), row.language, row.language_label, qids).1);
        assert(next.links == country_links(st.links, g0, row, qids, fin));
        lemma_link_index(g3, row.currency, row.currency_label, 5, "currency"@, qids, fin);
        assert(next.ids == link_index((g3.labels, g3.entities.dom()), row.currency, row.currency_label, qids).1);
        assert(next.ids == fin.entities.dom());
        if new_country {
            assert(next.names.dom() =~= next.seen.dom());
            assert forall|q: Seq<char>| #[trigger] next.names.contains_key(q) implies next.qids.contains_key(q)
                && fin.entities.contains_key(next.qids[q].0) && imported_entity(
                fin.entities[next.qids[q].0],
                next.qids[q],
                next.names[q],
                1,
                "country"@,
            ) by {
                if q != qid {
                    assert(st.names.contains_key(q));
                    assert(st.qids.contains_key(q));
                    assert(qids[q] == st.qids[q]);
                    assert(qids.contains_key(q) && qids.contains_key(qid));
                    assert(qids[q] != qids[qid]);
                    assert(g.entities.contains_key(st.qids[q].0));
                    assert(g0.entities[st.qids[q].0] == g.entities[st.qids[q].0]);
                    assert(g0.entities.contains_key(st.qids[q].0));
                } else {
                    assert(fin.entities[c.0].id == c);
                    assert(g0.entities.contains_key(c.0));
                }
            }
            assert forall|x: u64| #[trigger] before.contains_key(x) && !next.countries.contains(x) implies fin.entities.contains_key(
                x,
            ) && fin.entities[x] == before[x] by {
                assert(x != c.0);
                assert(g0.entities.contains_key(x));
            }
        } else {
            assert forall|q: Seq<char>| #[trigger] next.names.contains_key(q) implies next.qids.contains_key(q)
                && fin.entities.contains_key(next.qids[q].0) && imported_entity(
                fin.entities[next.qids[q].0],
                next.qids[q],
                next.names[q],
                1,
                "country"@,
            ) by {
                assert(qids[q] == st.qids[q]);
                assert(g0.entities.contains_key(st.qids[q].0));
            }
            assert forall|x: u64| #[trigger] before.contains_key(x) && !next.countries.contains(x) implies fin.entities.contains_key(
                x,
            ) && fin.entities[x] == before[x] by {
                assert(g0.entities.contains_key(x));
            }
        }
    }
}

/// The knowledge-base identifier of the country of `row`, if it has one.
pub open spec fn country_qid(row: CountryRow) -> Option<Seq<char>> {
    match row.country {
        Some(u) => Some(qid_of(u@)),
        None => None,
    }
}

/// `rows[i]` is the first of `rows` whose country is `q`.
pub open spec fn first_naming(rows: Seq<CountryRow>, q: Seq<char>, i: int) -> bool {
    &&& 0 <= i < rows.len()
    &&& country_qid(rows[i]) == Some(q)
    &&& forall|j: int| 0 <= j < i ==> country_qid(#[trigger] rows[j]) != Some(q)
}

/// After the country rows `rows`, the countries are those that the rows
/// name, one each, labelled from the first row that names it.
pub proof fn lemma_country_names(st0: CountriesSoFar, rows: Seq<CountryRow>, first: u64, source: SourceRef, now: i64)
    requires
        st0.names == Map::<Seq<char>, Seq<char>>::empty(),
        st0.seen == Map::<Seq<char>, bool>::empty(),
    ensures
        ({
            let st = countries_after(st0, rows, first, source, now);
            &&& st.seen.dom() == st.names.dom()
            &&& forall|q: Seq<char>|
                #[trigger] st.names.contains_key(q) <==> exists|i: int|
                    0 <= i < rows.len() && #[trigger] country_qid(rows[i]) == Some(q)
            &&& forall|q: Seq<char>, i: int|
                #[trigger] first_naming(rows, q, i) ==> st.names[q] == label_or_unknown(rows[i].country_label)
        }),
    decreases rows.len(),
{
    let st = countries_after(st0, rows, first, source, now);
    if rows.len() == 0 {
        assert(st.seen.dom() =~= st.names.dom());
    } else {
        let prev = rows.drop_last();
        let last = rows.last();
        let n = rows.len() - 1;
        lemma_country_names(st0, prev, first, source, now);
        let ps = countries_after(st0, prev, first, source, now);
        assert(st == country_step(ps, last, first, source, now));
        assert forall|i: int| 0 <= i < n implies rows[i] == prev[i] by {}
        match last.country {
            None => {
                assert forall|q: Seq<char>| #[trigger] st.names.contains_key(q) <==> exists|i: int|
                    0 <= i < rows.len() && #[trigger] country_qid(rows[i]) == Some(q) by {
                    if st.names.contains_key(q) {
                        let i = choose|i: int| 0 <= i < prev.len() && #[trigger] country_qid(prev[i]) == Some(q);
                        assert(rows[i] == prev[i]);
                    }
                    if exists|i: int| 0 <= i < rows.len() && #[trigger] country_qid(rows[i]) == Some(q) {
                        let i = choose|i: int| 0 <= i < rows.len() && #[trigger] country_qid(rows[i]) == Some(q);
                        assert(i != n);
                        assert(country_qid(prev[i]) == Some(q));
                    }
                }
                assert forall|q: Seq<char>, i: int| #[trigger] first_naming(rows, q, i) implies st.names[q]
                    == label_or_unknown(rows[i].country_label) by {
                    assert(i != n);
                    assert forall|j: int| 0 <= j < i implies country_qid(#[trigger] prev[j]) != Some(q) by {
                        assert(rows[j] == prev[j]);
                    }
                    assert(first_naming(prev, q, i));
                }
            },
            Some(u) => {
                let qn = qid_of(u@);
                let new_country = !ps.seen.contains_key(qn);
                assert(st.seen.dom() =~= st.names.dom());
                assert forall|q: Seq<char>| #[trigger] st.names.contains_key(q) <==> exists|i: int|
                    0 <= i < rows.len() && #[trigger] country_qid(rows[i]) == Some(q) by {
                    if st.names.contains_key(q) && q != qn {
                        let i = choose|i: int| 0 <= i < prev.len() && #[trigger] country_qid(prev[i]) == Some(q);
                        assert(rows[i] == prev[i]);
                    }
                    if st.names.contains_key(q) && q == qn {
                        assert(country_qid(rows[n]) == Some(q));
                    }
                    if exists|i: int| 0 <= i < rows.len() && #[trigger] country_qid(rows[i]) == Some(q) {
                        let i = choose|i: int| 0 <= i < rows.len() && #[trigger] country_qid(rows[i]) == Some(q);
                        if i != n {
                            assert(country_qid(prev[i]) == Some(q));
                        }
                    }
                }
                assert forall|q: Seq<char>, i: int| #[trigger] first_naming(rows, q, i) implies st.names[q]
                    == label_or_unknown(rows[i].country_label) by {
                    if i == n {
                        if !new_country {
                            assert(ps.names.contains_key(qn));
                            let j = choose|j: int| 0 <= j < prev.len() && #[trigger] country_qid(prev[j]) == Some(qn);
                            assert(rows[j] == prev[j]);
                            assert(country_qid(rows[j]) != Some(qn));
                        }
                    } else {
                        assert forall|j: int| 0 <= j < i implies country_qid(#[trigger] prev[j]) != Some(q) by {
                            assert(rows[j] == prev[j]);
                        }
                        assert(first_naming(prev, q, i));
                        assert(country_qid(prev[i]) == Some(q));
                        assert(ps.names.contains_key(q));
                        if new_country {
                            assert(q != qn);
                        }
                    }
                }
            },
        }
    }
}

/// Imports the rows about countries, with fresh identifiers for the
/// knowledge base's entities: each row as `import_country_row` does.
pub fn import_countries(
    vault: &mut Vault,
    rel_ids: &mut RelationIds,
    rows: &Vec<CountryRow>,
    source: &SourceRef,
    now: i64,
)
    requires
        old(vault).graph.wf(),
        old(vault).graph@.relations.len() + 7 * rows@.len() < usize::MAX,
        old(rel_ids).next + 7 * rows@.len() < u64::MAX,
        5 * rows@.len() + 1 < u64::MAX,
    ensures
        final(vault).graph.wf(),
        keeps_schema(*old(vault), *final(vault)),
        ({
            let st = countries_after(
                CountriesSoFar {
                    labels: old(vault).graph@.labels,
                    ids: old(vault).graph@.entities.dom(),
                    seen: Map::empty(),
                    names: Map::empty(),
                    countries: Set::empty(),
                    links: Map::empty(),
                    qids: Map::empty(),
                    next: 1,
                    facts: Seq::empty(),
                },
                rows@,
                old(rel_ids).next,
                *source,
                now,
            );
            &&& final(vault).graph@.relations == old(vault).graph@.relations + st.facts
            &&& final(rel_ids).next == old(rel_ids).next + st.facts.len()
            &&& final(vault).graph@.labels == st.labels
            &&& final(vault).graph@.entities.dom() == st.ids
            &&& countries_built(old(vault).graph@.entities, st, final(vault).graph@.entities)
            &&& forall|q: Seq<char>|
                #[trigger] st.names.contains_key(q) <==> exists|i: int|
                    0 <= i < rows@.len() && #[trigger] country_qid(rows@[i]) == Some(q)
            &&& forall|q: Seq<char>, i: int|
                #[trigger] first_naming(rows@, q, i) ==> st.qids.contains_key(q) && imported_entity(
                    final(vault).graph@.entities[st.qids[q].0],
                    st.qids[q],
                    label_or_unknown(rows@[i].country_label),
                    1,
                    "country"@,
                )
            &&& forall|a: Seq<char>, b: Seq<char>|
                #[trigger] st.names.contains_key(a) && #[trigger] st.names.contains_key(b) && a != b
                    ==> st.qids[a] != st.qids[b]
        }),
{
    let mut id_map = IdMap::new();
    let mut seen: TextIndex<bool> = TextIndex::new();
    let mut i: usize = 0;
    let ghost first = rel_ids.next;
    let ghost st0 = CountriesSoFar {
        labels: old(vault).graph@.labels,
        ids: old(vault).graph@.entities.dom(),
        seen: Map::empty(),
        names: Map::empty(),
        countries: Set::empty(),
        links: Map::empty(),
        qids: Map::empty(),
        next: 1,
        facts: Seq::empty(),
    };
    proof {
        assert(st0.ids =~= old(vault).graph@.entities.dom().union(st0.countries).union(st0.links.dom()));
        assert(rows@.take(0) =~= Seq::<CountryRow>::empty());
        assert(old(vault).graph@.relations + st0.facts =~= old(vault).graph@.relations);
    }
    while i < rows.len()
        invariant
            i <= rows@.len(),
            first == old(rel_ids).next,
            st0 == (CountriesSoFar {
                labels: old(vault).graph@.labels,
                ids: old(vault).graph@.entities.dom(),
                seen: Map::empty(),
                names: Map::empty(),
                countries: Set::empty(),
                links: Map::empty(),
                qids: Map::empty(),
                next: 1,
                facts: Seq::empty(),
            }),
            vault.graph.wf(),
            id_map.wf(),
            seen.wf(),
            ({
                let st = countries_after(st0, rows@.take(i as int), first, *source, now);
                &&& id_map@ == st.qids
                &&& id_map.next() == st.next
                &&& seen.view() == st.seen
                &&& vault.graph@.relations == old(vault).graph@.relations + st.facts
                &&& rel_ids.next == first + st.facts.len()
                &&& vault.graph@.labels == st.labels
                &&& vault.graph@.entities.dom() == st.ids
                &&& st.facts.len() <= 7 * i
                &&& countries_built(old(vault).graph@.entities, st, vault.graph@.entities)
                &&& st.names.dom() == st.seen.dom()
            }),
            id_map.next() <= 1 + 5 * i,
            old(vault).graph@.relations.len() + 7 * rows@.len() < usize::MAX,
            old(rel_ids).next + 7 * rows@.len() < u64::MAX,
            5 * rows@.len() + 1 < u64::MAX,
            keeps_schema(*old(vault), *vault),
        decreases rows@.len() - i,
    {
        let ghost st = countries_after(st0, rows@.take(i as int), first, *source, now);
        let ghost g = vault.graph@;
        let ghost m = id_map@;
        let ghost n = id_map.next();
        import_country_row(vault, &mut id_map, rel_ids, &mut seen, &rows[i], source, now);
        proof {
            let row = rows@[i as int];
            let t = rows@.take(i + 1);
            assert(t.drop_last() =~= rows@.take(i as int));
            assert(t.last() == row);
            lemma_row_qids_len(row);
            lemma_with_qids_grow(m, n, row_qids(row));
            lemma_country_plan_len(row, id_map@);
            let next = country_step(st, row, first, *source, now);
            assert(countries_after(st0, t, first, *source, now) == next);
            id_map.lemma_ids_distinct();
            if let Some(u) = row.country {
                assert(row_qids(row)[0] == qid_of(u@));
            }
            lemma_country_built(old(vault).graph@.entities, g, vault.graph@, st, row, first, *source, now);
            match row.country {
                Some(u) => {
                    lemma_country_index(g, vault.graph@, st, row, first, *source, now);
                    assert(vault.graph@.relations =~= old(vault).graph@.relations + next.facts);
                },
                None => {
                    assert(row_qids(row) =~= Seq::<Seq<char>>::empty());
                },
            }
        }
        i = i + 1;
    }
    assert(rows@.take(rows@.len() as int) =~= rows@);
    proof {
        let st = countries_after(st0, rows@, first, *source, now);
        lemma_country_names(st0, rows@, first, *source, now);
        id_map.lemma_ids_distinct();
        assert forall|q: Seq<char>, i: int| #[trigger] first_naming(rows@, q, i) implies st.qids.contains_key(q)
            && imported_entity(
            vault.graph@.entities[st.qids[q].0],
            st.qids[q],
            label_or_unknown(rows@[i].country_label),
            1,
            "country"@,
        ) by {
            assert(country_qid(rows@[i]) == Some(q));
            assert(st.names.contains_key(q));
        }
    }
}

/// `g` with the entity `e` added and its labels indexed.
pub open spec fn with_entity(g: GraphView, e: Entity) -> GraphView {
    GraphView {
        entities: g.entities.insert(e.id.0, e),
        labels: index_labels(g.labels, e.labels@, e.id),
        ..g
    }
}

/// `l` is a primary label with text `text` in `language`.
pub open spec fn primary_label(l: Label, text: Seq<char>, language: Seq<char>) -> bool {
    &&& l.text@ == text
    &&& l.language@ == language
    &&& l.primary
}

} // verus!
