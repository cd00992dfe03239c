//! Fundamental types: identifiers, entities, relations, values, domains.

use vstd::prelude::*;
use vstd::string::StringExecFns;

verus! {

/// The largest number of entities that a conversation remembers.
pub const ENTITY_STACK_LIMIT: usize = 10;

/// Compact entity identifier.
#[derive(Clone, Copy, Debug, PartialEq, Eq, Hash, Structural)]
pub struct EntityId(pub u64);

/// Predicate identifier.
#[derive(Clone, Copy, Debug, PartialEq, Eq, Hash, Structural)]
pub struct PredicateId(pub u32);

/// Domain identifier.
#[derive(Clone, Copy, Debug, PartialEq, Eq, Hash, Structural)]
pub struct DomainId(pub u32);

/// Relation identifier (position in the vault).
#[derive(Clone, Copy, Debug, PartialEq, Eq, Hash, Structural)]
pub struct RelationId(pub u64);

/// Rule identifier for inference rules.
#[derive(Clone, Copy, Debug, PartialEq, Eq, Hash, Structural)]
pub struct RuleId(pub u32);

/// The IEEE-754 bit pattern of a 64-bit floating-point number.
///
/// The library carries such numbers through its logic without doing
/// arithmetic on them; whatever reads or computes on the number itself
/// works on `f64::from_bits` of this pattern, outside the verified code.
#[derive(Clone, Copy, Debug, PartialEq, Eq, Hash, Structural)]
pub struct FloatBits(pub u64);

/// The bit pattern of the number 1.0.
pub const FLOAT_ONE: u64 = 0x3ff0_0000_0000_0000u64;

/// The bit pattern of the number 0.03, the default numeric tolerance.
pub const FLOAT_THREE_HUNDREDTHS: u64 = 0x3f9e_b851_eb85_1eb8u64;

/// The bit pattern of the number 0.05.
pub const FLOAT_FIVE_HUNDREDTHS: u64 = 0x3fa9_9999_9999_999au64;

/// An exact non-negative fraction `num / den`.
#[derive(Clone, Copy, Debug, PartialEq, Eq, Structural)]
pub struct Ratio {
    pub num: u64,
    pub den: u64,
}

/// A node in the knowledge graph.
#[derive(Debug)]
pub struct Entity {
    pub id: EntityId,
    pub kind: EntityKind,
    pub labels: Vec<Label>,
    pub domain: DomainId,
}

/// Entity type classification.
#[derive(Debug)]
pub struct EntityKind {
    pub id: u32,
    pub name: String,
    pub parent: Option<u32>,
}

/// A label in a specific language (for multilingual aliases).
#[derive(Debug)]
pub struct Label {
    pub text: String,
    /// ISO 639-1 code: "en", "pt", ...
    pub language: String,
    /// Whether this is the primary label for its language.
    pub primary: bool,
}

/// A fact in the knowledge graph: subject, predicate, value, with its
/// source, confidence, temporal bounds and domain.
#[derive(Debug)]
pub struct Relation {
    pub id: RelationId,
    pub subject: EntityId,
    pub predicate: PredicateId,
    pub value: Value,
    pub confidence: Confidence,
    pub source: SourceRef,
    pub domain: DomainId,
    /// Unix time from which this is true.
    pub valid_from: Option<i64>,
    /// Unix time after which this stopped being true (`None`: still true).
    pub valid_until: Option<i64>,
    /// Unix time at which this was recorded in the vault.
    pub timestamp: i64,
}

/// Typed value of a relation's object.
#[derive(Debug)]
pub enum Value {
    /// Free text.
    Text(String),
    /// Numeric value with a unit.
    Number { value: FloatBits, unit: Unit },
    /// Date with variable precision.
    Date { timestamp: i64, precision: DatePrecision },
    /// Boolean fact.
    Boolean(bool),
    /// Reference to another entity.
    Entity(EntityId),
    /// Geographic coordinates.
    Coordinate { lat: FloatBits, lon: FloatBits },
    /// List of values.
    List(Vec<Value>),
}

/// Physical and measurement units (SI-based).
#[derive(Debug)]
pub enum Unit {
    /// Dimensionless.
    Unitless,
    Percent,
    Meter,
    Kilometer,
    Gram,
    Kilogram,
    Kelvin,
    Celsius,
    Fahrenheit,
    Second,
    Year,
    SquareMeter,
    SquareKilometer,
    Count,
    /// ISO 4217 code: "USD", "BRL", "EUR".
    Currency(String),
    MeterPerSecond,
    Pascal,
    Liter,
    CubicMeter,
    Custom(String),
}

/// Date precision levels.
#[derive(Clone, Copy, Debug, PartialEq, Eq, Structural)]
pub enum DatePrecision {
    Year,
    Month,
    Day,
    Hour,
    Minute,
    Second,
}

/// How much a fact is trusted: a verification level, not a probability.
#[derive(Clone, Copy, Debug, PartialEq, Eq, Structural)]
pub enum Confidence {
    /// Fundamental truth (mathematics, definitions).
    Axiom,
    /// Verified by multiple independent sources.
    Verified,
    /// Attested by one reliable source.
    Attested,
    /// Derived by reasoning.
    Inferred,
    /// Exists but not independently verified.
    Uncertain,
    /// In quarantine, not yet accepted.
    Provisional,
}

/// Where a fact came from.
#[derive(Debug)]
pub struct SourceRef {
    pub kind: SourceKind,
    /// "IBGE", "WHO", "PubMed", ...
    pub name: String,
    /// URI, DOI, URL, ...
    pub locator: String,
    /// Unix time at which the source published this.
    pub date: Option<i64>,
}

#[derive(Clone, Copy, Debug, PartialEq, Eq, Structural)]
pub enum SourceKind {
    Official,
    Academic,
    KnowledgeBase,
    Community,
    Derived,
}

/// A knowledge domain, with its verification policy.
#[derive(Debug)]
pub struct Domain {
    pub id: DomainId,
    pub name: String,
    pub parent: Option<DomainId>,
    pub config: DomainConfig,
}

#[derive(Clone, Copy, Debug, PartialEq, Eq, Structural)]
pub struct DomainConfig {
    /// Cache lifetime in seconds for verified claims in this domain.
    pub cache_ttl_secs: u64,
    /// Default relative tolerance for "imprecise" versus "divergent".
    pub numeric_tolerance: FloatBits,
    /// Date tolerance in days.
    pub date_tolerance_days: u32,
    /// Coordinate tolerance in kilometers.
    pub coordinate_tolerance_km: FloatBits,
}

/// A predicate definition: what kind of relationship a relation states.
#[derive(Debug)]
pub struct Predicate {
    pub id: PredicateId,
    /// "capital", "population", ...
    pub name: String,
    pub kind: PredicateKind,
    pub expected_value_type: ValueType,
    pub expected_unit: Option<Unit>,
    /// Other names for the same predicate.
    pub aliases: Vec<String>,
    pub domain: DomainId,
    pub verification_threshold: Option<VerificationThreshold>,
}

#[derive(Clone, Copy, Debug, PartialEq, Eq, Structural)]
pub enum PredicateKind {
    Attribute,
    Relation,
    Causal,
    Temporal,
    Compositional,
}

#[derive(Clone, Copy, Debug, PartialEq, Eq, Structural)]
pub enum ValueType {
    Text,
    Number,
    Date,
    Boolean,
    Entity,
    Coordinate,
    List,
    Any,
}

/// Per-predicate overrides of the domain's tolerances.
#[derive(Clone, Copy, Debug, PartialEq, Eq, Structural)]
pub struct VerificationThreshold {
    pub numeric_tolerance: Option<FloatBits>,
    pub date_tolerance_days: Option<u32>,
    pub coordinate_tolerance_km: Option<FloatBits>,
}

impl DomainConfig {
    /// The default policy: 180 days of cache, 3% numeric tolerance, exact
    /// dates, 1 km for coordinates.
    pub fn default() -> (r: Self)
        ensures
            r.cache_ttl_secs == 180 * 24 * 3600,
            r.numeric_tolerance == FloatBits(FLOAT_THREE_HUNDREDTHS),
            r.date_tolerance_days == 0,
            r.coordinate_tolerance_km == FloatBits(FLOAT_ONE),
    {
        DomainConfig {
            cache_ttl_secs: 180 * 24 * 3600,
            numeric_tolerance: FloatBits(FLOAT_THREE_HUNDREDTHS),
            date_tolerance_days: 0,
            coordinate_tolerance_km: FloatBits(FLOAT_ONE),
        }
    }
}

/// Minimal conversation context: a bounded stack of recently referenced
/// entities, the active domain and the ambiguities resolved so far.
#[derive(Debug)]
pub struct ConversationState {
    /// Last referenced entities, most recent first (at most ten).
    pub entity_stack: Vec<EntityId>,
    /// Active domain for this conversation.
    pub active_domain: Option<DomainId>,
    /// Resolved ambiguities in this session.
    pub resolutions: Vec<(String, EntityId)>,
}

/// The entity stack after `id` is pushed onto `stack`: `id` in front,
/// cut to the stack limit.
pub open spec fn pushed_stack(stack: Seq<EntityId>, id: EntityId) -> Seq<EntityId> {
    let s = seq![id] + stack;
    if s.len() <= ENTITY_STACK_LIMIT {
        s
    } else {
        s.take(ENTITY_STACK_LIMIT as int)
    }
}

/// Pushing an entity puts it first and keeps the stack within its limit;
/// the entities remembered before follow it, in order, the oldest beyond
/// the limit dropped.
pub proof fn lemma_pushed_stack(stack: Seq<EntityId>, id: EntityId)
    ensures
        pushed_stack(stack, id)[0] == id,
        pushed_stack(stack, id).len() == if stack.len() < ENTITY_STACK_LIMIT {
            stack.len() + 1
        } else {
            ENTITY_STACK_LIMIT as nat
        },
        forall|i: int|
            1 <= i < pushed_stack(stack, id).len() ==> #[trigger] pushed_stack(stack, id)[i] == stack[i - 1],
{
}

impl ConversationState {
    /// An empty conversation.
    pub fn new() -> (r: Self)
        ensures
            r.entity_stack@.len() == 0,
            r.active_domain.is_none(),
            r.resolutions@.len() == 0,
    {
        ConversationState { entity_stack: Vec::new(), active_domain: None, resolutions: Vec::new() }
    }

    /// Remember `id` as the most recently referenced entity; the oldest
    /// entries beyond the limit are forgotten.
    pub fn push_entity(&mut self, id: EntityId)
        ensures
            final(self).entity_stack@ == pushed_stack(old(self).entity_stack@, id),
            final(self).active_domain == old(self).active_domain,
            final(self).resolutions@ == old(self).resolutions@,
    {
        self.entity_stack.insert(0, id);
        self.entity_stack.truncate(ENTITY_STACK_LIMIT);
        assert(self.entity_stack@ =~= pushed_stack(old(self).entity_stack@, id));
    }
}

} // verus!

verus! {

/// A copy of the strings `v`.
pub fn clone_strings(v: &Vec<String>) -> (r: Vec<String>)
    ensures
        r@ == v@,
{
    let mut r: Vec<String> = Vec::new();
    let mut i: usize = 0;
    while i < v.len()
        invariant
            i <= v@.len(),
            r@ == v@.take(i as int),
        decreases v@.len() - i,
    {
        r.push(v[i].clone());
        i = i + 1;
        assert(r@ =~= v@.take(i as int));
    }
    assert(v@.take(v@.len() as int) =~= v@);
    r
}

/// `a` and `b` are the same entity.
pub open spec fn entity_same(a: Entity, b: Entity) -> bool {
    &&& a.id == b.id
    &&& a.kind == b.kind
    &&& a.labels@ == b.labels@
    &&& a.domain == b.domain
}

/// `a` and `b` are the same predicate.
pub open spec fn predicate_same(a: Predicate, b: Predicate) -> bool {
    &&& a.id == b.id
    &&& a.name == b.name
    &&& a.kind == b.kind
    &&& a.expected_value_type == b.expected_value_type
    &&& a.expected_unit == b.expected_unit
    &&& a.aliases@ == b.aliases@
    &&& a.domain == b.domain
    &&& a.verification_threshold == b.verification_threshold
}

impl Clone for EntityKind {
    fn clone(&self) -> (r: Self)
        ensures
            r == *self,
    {
        EntityKind { id: self.id, name: self.name.clone(), parent: self.parent }
    }
}

impl Clone for Label {
    fn clone(&self) -> (r: Self)
        ensures
            r == *self,
    {
        Label { text: self.text.clone(), language: self.language.clone(), primary: self.primary }
    }
}

/// A copy of the labels `v`.
pub fn clone_labels(v: &Vec<Label>) -> (r: Vec<Label>)
    ensures
        r@ == v@,
{
    let mut r: Vec<Label> = Vec::new();
    let mut i: usize = 0;
    while i < v.len()
        invariant
            i <= v@.len(),
            r@ == v@.take(i as int),
        decreases v@.len() - i,
    {
        r.push(v[i].clone());
        i = i + 1;
        assert(r@ =~= v@.take(i as int));
    }
    assert(v@.take(v@.len() as int) =~= v@);
    r
}

impl Clone for Entity {
    fn clone(&self) -> (r: Self)
        ensures
            entity_same(*self, r),
    {
        Entity {
            id: self.id,
            kind: self.kind.clone(),
            labels: clone_labels(&self.labels),
            domain: self.domain,
        }
    }
}

impl Clone for SourceRef {
    fn clone(&self) -> (r: Self)
        ensures
            r == *self,
    {
        SourceRef {
            kind: self.kind,
            name: self.name.clone(),
            locator: self.locator.clone(),
            date: self.date,
        }
    }
}

impl Clone for Unit {
    fn clone(&self) -> (r: Self)
        ensures
            r == *self,
    {
        match self {
            Unit::Unitless => Unit::Unitless,
            Unit::Percent => Unit::Percent,
            Unit::Meter => Unit::Meter,
            Unit::Kilometer => Unit::Kilometer,
            Unit::Gram => Unit::Gram,
            Unit::Kilogram => Unit::Kilogram,
            Unit::Kelvin => Unit::Kelvin,
            Unit::Celsius => Unit::Celsius,
            Unit::Fahrenheit => Unit::Fahrenheit,
            Unit::Second => Unit::Second,
            Unit::Year => Unit::Year,
            Unit::SquareMeter => Unit::SquareMeter,
            Unit::SquareKilometer => Unit::SquareKilometer,
            Unit::Count => Unit::Count,
            Unit::Currency(c) => Unit::Currency(c.clone()),
            Unit::MeterPerSecond => Unit::MeterPerSecond,
            Unit::Pascal => Unit::Pascal,
            Unit::Liter => Unit::Liter,
            Unit::CubicMeter => Unit::CubicMeter,
            Unit::Custom(c) => Unit::Custom(c.clone()),
        }
    }
}

impl Clone for Domain {
    fn clone(&self) -> (r: Self)
        ensures
            r == *self,
    {
        Domain { id: self.id, name: self.name.clone(), parent: self.parent, config: self.config }
    }
}

impl Clone for Predicate {
    fn clone(&self) -> (r: Self)
        ensures
            predicate_same(*self, r),
    {
        let expected_unit = match &self.expected_unit {
            Some(u) => Some(u.clone()),
            None => None,
        };
        Predicate {
            id: self.id,
            name: self.name.clone(),
            kind: self.kind,
            expected_value_type: self.expected_value_type,
            expected_unit,
            aliases: clone_strings(&self.aliases),
            domain: self.domain,
            verification_threshold: self.verification_threshold,
        }
    }
}

} // verus!

verus! {

/// How a confidence level is written (its name).
pub open spec fn confidence_name(c: Confidence) -> Seq<char> {
    match c {
        Confidence::Axiom => "Axiom"@,
        Confidence::Verified => "Verified"@,
        Confidence::Attested => "Attested"@,
        Confidence::Inferred => "Inferred"@,
        Confidence::Uncertain => "Uncertain"@,
        Confidence::Provisional => "Provisional"@,
    }
}

impl Confidence {
    /// The name of the confidence level.
    pub fn name(&self) -> (r: String)
        ensures
            r@ == confidence_name(*self),
    {
        match self {
            Confidence::Axiom => String::from_str("Axiom"),
            Confidence::Verified => String::from_str("Verified"),
            Confidence::Attested => String::from_str("Attested"),
            Confidence::Inferred => String::from_str("Inferred"),
            Confidence::Uncertain => String::from_str("Uncertain"),
            Confidence::Provisional => String::from_str("Provisional"),
        }
    }
}

} // verus!
