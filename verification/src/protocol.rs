//! The decisions behind the HTTP API: reading questions asked in English or
//! Portuguese, answering them from the vault, and the output mode.

use vstd::prelude::*;
use vstd::string::StringExecFns;
use crate::graph::{derefs, same_option, GraphView};
use crate::tagger::OutputMode;
use crate::text::{
    chars_of, concat, decimal, find_chars, find_seq, owned, signed_decimal,
    starts_with_chars, string_of, sub_chars, text_eq, to_lowercase, trim_chars,
    trim_end_char, trim_end_char_seq, trim_seq, u64_to_text, i64_to_text,
};
use crate::types::{confidence_name, Confidence, FloatBits, Relation, Unit, Value};
use crate::vault::Vault;

verus! {

/// The text that `{:?}` writes for a string: quoted, with escapes.
pub uninterp spec fn debug_quoted(s: Seq<char>) -> Seq<char>;

/// `s` as `{:?}` writes it (quoted, its special characters escaped), by
/// `format!`. Trusted: the result is `debug_quoted` of the characters of
/// `s`, a function of them alone.
#[verifier::external_body]
fn debug_str(s: &str) -> (r: String)
    ensures
        r@ == debug_quoted(s@),
{
    format!("{:?}", s)
}

/// The output mode a request asks for: explaining for "explain", simple
/// otherwise.
pub fn output_mode(mode: Option<&str>) -> (r: OutputMode)
    ensures
        r == (if mode matches Some(m) && m@ == "explain"@ {
            OutputMode::Explain
        } else {
            OutputMode::Simple
        }),
{
    match mode {
        Some(m) => if text_eq(m, "explain") {
            OutputMode::Explain
        } else {
            OutputMode::Simple
        },
        None => OutputMode::Simple,
    }
}

/// The question shapes that are understood, in the order they are tried:
/// a prefix before the predicate and a separator before the entity.
pub open spec fn question_patterns() -> Seq<(Seq<char>, Seq<char>)> {
    seq![
        ("what is the "@, " of "@),
        ("what's the "@, " of "@),
        ("qual é a "@, " do "@),
        ("qual é a "@, " da "@),
        ("qual é o "@, " do "@),
        ("qual é o "@, " da "@),
        ("qual a "@, " do "@),
        ("qual a "@, " da "@),
        ("qual o "@, " do "@),
        ("qual o "@, " da "@),
    ]
}

/// The predicate and entity texts of question `q` read with `prefix` and
/// `sep`: what follows the prefix, without trailing question marks and
/// surrounding space, split at the first separator, each part trimmed.
pub open spec fn read_question(q: Seq<char>, prefix: Seq<char>, sep: Seq<char>) -> Option<(Seq<char>, Seq<char>)> {
    if prefix.len() <= q.len() && q.take(prefix.len() as int) == prefix {
        let rest = trim_seq(trim_end_char_seq(q.skip(prefix.len() as int), '?'));
        match find_seq(rest, sep) {
            Some(pos) => Some((trim_seq(rest.take(pos)), trim_seq(rest.skip(pos + sep.len())))),
            None => None,
        }
    } else {
        None
    }
}

/// The relation that answers `q` read with `prefix` and `sep`: the first
/// relation stating the predicate of the entity.
pub open spec fn pattern_answer(g: GraphView, q: Seq<char>, prefix: Seq<char>, sep: Seq<char>) -> Option<Relation> {
    match read_question(q, prefix, sep) {
        Some((pred, ent)) => match (g.entity_by_label(ent), g.predicate_by_name(pred)) {
            (Some(e), Some(p)) => if g.lookup(e.id, p.id).len() > 0 {
                Some(g.lookup(e.id, p.id)[0])
            } else {
                None
            },
            _ => None,
        },
        None => None,
    }
}

/// The relation that answers `q`: that of the first question shape that
/// yields one.
pub open spec fn question_answer_from(g: GraphView, q: Seq<char>, k: int) -> Option<Relation>
    decreases question_patterns().len() - k,
{
    if k < 0 || k >= question_patterns().len() {
        None
    } else {
        match pattern_answer(g, q, question_patterns()[k].0, question_patterns()[k].1) {
            Some(r) => Some(r),
            None => question_answer_from(g, q, k + 1),
        }
    }
}

proof fn lemma_answer_from(g: GraphView, q: Seq<char>, k: int)
    requires
        0 <= k <= question_patterns().len(),
    ensures
        question_answer_from(g, q, k) is Some <==> exists|j: int|
            k <= j < question_patterns().len() && (#[trigger] pattern_answer(
                g,
                q,
                question_patterns()[j].0,
                question_patterns()[j].1,
            )) is Some,
        question_answer_from(g, q, k) matches Some(r) ==> exists|j: int|
            k <= j < question_patterns().len() && #[trigger] pattern_answer(
                g,
                q,
                question_patterns()[j].0,
                question_patterns()[j].1,
            ) == Some(r),
    decreases question_patterns().len() - k,
{
    if k < question_patterns().len() {
        lemma_answer_from(g, q, k + 1);
    }
}

/// A question is answered exactly when one of the understood shapes
/// yields an answer ("what is the P of E", "what's the P of E", and in
/// Portuguese "qual é a", "qual é o", "qual a", "qual o" with "do" or "da"
/// before the entity), and the answer is what one of them yields.
pub proof fn lemma_question_shapes(g: GraphView, q: Seq<char>)
    ensures
        question_answer_from(g, q, 0) is Some <==> {
            ||| pattern_answer(g, q, "what is the "@, " of "@) is Some
            ||| pattern_answer(g, q, "what's the "@, " of "@) is Some
            ||| pattern_answer(g, q, "qual é a "@, " do "@) is Some
            ||| pattern_answer(g, q, "qual é a "@, " da "@) is Some
            ||| pattern_answer(g, q, "qual é o "@, " do "@) is Some
            ||| pattern_answer(g, q, "qual é o "@, " da "@) is Some
            ||| pattern_answer(g, q, "qual a "@, " do "@) is Some
            ||| pattern_answer(g, q, "qual a "@, " da "@) is Some
            ||| pattern_answer(g, q, "qual o "@, " do "@) is Some
            ||| pattern_answer(g, q, "qual o "@, " da "@) is Some
        },
        question_answer_from(g, q, 0) matches Some(r) ==> {
            ||| pattern_answer(g, q, "what is the "@, " of "@) == Some(r)
            ||| pattern_answer(g, q, "what's the "@, " of "@) == Some(r)
            ||| pattern_answer(g, q, "qual é a "@, " do "@) == Some(r)
            ||| pattern_answer(g, q, "qual é a "@, " da "@) == Some(r)
            ||| pattern_answer(g, q, "qual é o "@, " do "@) == Some(r)
            ||| pattern_answer(g, q, "qual é o "@, " da "@) == Some(r)
            ||| pattern_answer(g, q, "qual a "@, " do "@) == Some(r)
            ||| pattern_answer(g, q, "qual a "@, " da "@) == Some(r)
            ||| pattern_answer(g, q, "qual o "@, " do "@) == Some(r)
            ||| pattern_answer(g, q, "qual o "@, " da "@) == Some(r)
        },
{
    lemma_answer_from(g, q, 0);
    let ps = question_patterns();
    assert(ps.len() == 10);
    assert(ps[0] == ("what is the "@, " of "@));
    assert(ps[1] == ("what's the "@, " of "@));
    assert(ps[2] == ("qual é a "@, " do "@));
    assert(ps[3] == ("qual é a "@, " da "@));
    assert(ps[4] == ("qual é o "@, " do "@));
    assert(ps[5] == ("qual é o "@, " da "@));
    assert(ps[6] == ("qual a "@, " do "@));
    assert(ps[7] == ("qual a "@, " da "@));
    assert(ps[8] == ("qual o "@, " do "@));
    assert(ps[9] == ("qual o "@, " da "@));
    if question_answer_from(g, q, 0) is Some {
        let j = choose|j: int|
            0 <= j < ps.len() && (#[trigger] pattern_answer(g, q, ps[j].0, ps[j].1)) is Some;
        assert(0 <= j < 10);
    } else {
        assert(pattern_answer(g, q, ps[0].0, ps[0].1) is None);
        assert(pattern_answer(g, q, ps[1].0, ps[1].1) is None);
        assert(pattern_answer(g, q, ps[2].0, ps[2].1) is None);
        assert(pattern_answer(g, q, ps[3].0, ps[3].1) is None);
        assert(pattern_answer(g, q, ps[4].0, ps[4].1) is None);
        assert(pattern_answer(g, q, ps[5].0, ps[5].1) is None);
        assert(pattern_answer(g, q, ps[6].0, ps[6].1) is None);
        assert(pattern_answer(g, q, ps[7].0, ps[7].1) is None);
        assert(pattern_answer(g, q, ps[8].0, ps[8].1) is None);
        assert(pattern_answer(g, q, ps[9].0, ps[9].1) is None);
    }
    if let Some(r) = question_answer_from(g, q, 0) {
        let j = choose|j: int| 0 <= j < ps.len() && #[trigger] pattern_answer(g, q, ps[j].0, ps[j].1) == Some(r);
        assert(0 <= j < 10);
    }
}

/// How `{:?}` writes a unit.
pub open spec fn unit_debug(u: Unit) -> Seq<char> {
    match u {
        Unit::Unitless => "None"@,
        Unit::Percent => "Percent"@,
        Unit::Meter => "Meter"@,
        Unit::Kilometer => "Kilometer"@,
        Unit::Gram => "Gram"@,
        Unit::Kilogram => "Kilogram"@,
        Unit::Kelvin => "Kelvin"@,
        Unit::Celsius => "Celsius"@,
        Unit::Fahrenheit => "Fahrenheit"@,
        Unit::Second => "Second"@,
        Unit::Year => "Year"@,
        Unit::SquareMeter => "SquareMeter"@,
        Unit::SquareKilometer => "SquareKilometer"@,
        Unit::Count => "Count"@,
        Unit::Currency(c) => "Currency("@ + debug_quoted(c@) + ")"@,
        Unit::MeterPerSecond => "MeterPerSecond"@,
        Unit::Pascal => "Pascal"@,
        Unit::Liter => "Liter"@,
        Unit::CubicMeter => "CubicMeter"@,
        Unit::Custom(c) => "Custom("@ + debug_quoted(c@) + ")"@,
    }
}

/// How `{:?}` writes a unit.
pub fn unit_text(u: &Unit) -> (r: String)
    ensures
        r@ == unit_debug(*u),
{
    match u {
        Unit::Unitless => owned("None"),
        Unit::Percent => owned("Percent"),
        Unit::Meter => owned("Meter"),
        Unit::Kilometer => owned("Kilometer"),
        Unit::Gram => owned("Gram"),
        Unit::Kilogram => owned("Kilogram"),
        Unit::Kelvin => owned("Kelvin"),
        Unit::Celsius => owned("Celsius"),
        Unit::Fahrenheit => owned("Fahrenheit"),
        Unit::Second => owned("Second"),
        Unit::Year => owned("Year"),
        Unit::SquareMeter => owned("SquareMeter"),
        Unit::SquareKilometer => owned("SquareKilometer"),
        Unit::Count => owned("Count"),
        Unit::Currency(c) => {
            let mut r = String::from_str("Currency(");
            r.append(debug_str(c.as_str()).as_str());
            r.append(")");
            r
        },
        Unit::MeterPerSecond => owned("MeterPerSecond"),
        Unit::Pascal => owned("Pascal"),
        Unit::Liter => owned("Liter"),
        Unit::CubicMeter => owned("CubicMeter"),
        Unit::Custom(c) => {
            let mut r = String::from_str("Custom(");
            r.append(debug_str(c.as_str()).as_str());
            r.append(")");
            r
        },
    }
}

/// The answer that a value gives, where `first` and `second` are how its
/// numbers are written (the number, or latitude and longitude).
pub open spec fn value_answer(g: GraphView, v: Value, first: Seq<char>, second: Seq<char>) -> Seq<char> {
    match v {
        Value::Entity(id) => match g.entity(id) {
            Some(e) if e.labels@.len() > 0 => e.labels@[0].text@,
            _ => "Entity("@ + decimal(id.0 as nat) + ")"@,
        },
        Value::Text(t) => t@,
        Value::Number { unit, .. } => first + " "@ + unit_debug(unit),
        Value::Boolean(b) => if b {
            "true"@
        } else {
            "false"@
        },
        Value::Coordinate { .. } => first + ", "@ + second,
        Value::Date { timestamp, .. } => "timestamp:"@ + signed_decimal(timestamp as int),
        Value::List(items) => decimal(items@.len()) + " items"@,
    }
}

/// `answer` is how `v` is told, for a number writer whose outputs satisfy
/// `write_number`.
pub open spec fn tells<W: Fn(FloatBits) -> String>(g: GraphView, v: Value, write_number: W, answer: Seq<char>) -> bool {
    match v {
        Value::Number { value, .. } => exists|a: String|
            call_ensures(write_number, (value,), a) && answer == #[trigger] value_answer(
                g,
                v,
                a@,
                Seq::empty(),
            ),
        Value::Coordinate { lat, lon } => exists|a: String, b: String|
            call_ensures(write_number, (lat,), a) && call_ensures(write_number, (lon,), b)
                && answer == #[trigger] value_answer(g, v, a@, b@),
        _ => answer == value_answer(g, v, Seq::empty(), Seq::empty()),
    }
}

/// The relation that answers `q` read with `prefix` and `sep`.
fn pattern_relation<'a>(vault: &'a Vault, q: &[char], prefix: &str, sep: &str) -> (r: Option<&'a Relation>)
    requires
        vault.graph.wf(),
    ensures
        same_option(r, pattern_answer(vault.graph@, q@, prefix@, sep@)),
{
    let p = chars_of(prefix);
    if !starts_with_chars(q, p.as_slice()) {
        return None;
    }
    let after = sub_chars(q, p.len(), q.len());
    assert(after@ == q@.skip(p@.len() as int));
    let no_marks = trim_end_char(after.as_slice(), '?');
    let rest = trim_chars(no_marks.as_slice());
    let sep_chars = chars_of(sep);
    let pos = match find_chars(rest.as_slice(), sep_chars.as_slice()) {
        Some(pos) => pos,
        None => return None,
    };
    proof {
        crate::text::lemma_find_seq(rest@, sep_chars@);
    }
    let pred_part = sub_chars(rest.as_slice(), 0, pos);
    assert(pred_part@ == rest@.take(pos as int));
    let ent_part = sub_chars(rest.as_slice(), pos + sep_chars.len(), rest.len());
    assert(ent_part@ == rest@.skip(pos + sep_chars@.len()));
    let predicate = string_of(trim_chars(pred_part.as_slice()).as_slice());
    let entity = string_of(trim_chars(ent_part.as_slice()).as_slice());
    let found_entity = match vault.find_entity_by_label(entity.as_str()) {
        Some(e) => e,
        None => return None,
    };
    let found_pred = match vault.find_predicate(predicate.as_str()) {
        Some(p) => p,
        None => return None,
    };
    let relations = vault.lookup(found_entity.id, found_pred.id);
    if relations.len() > 0 {
        assert(*relations@[0] == derefs(relations@)[0]);
        Some(relations[0])
    } else {
        None
    }
}

/// How a value is told as an answer.
fn answer_text<W: Fn(FloatBits) -> String>(vault: &Vault, v: &Value, write_number: &W) -> (r: String)
    requires
        forall|x: FloatBits| call_requires(*write_number, (x,)),
    ensures
        tells(vault.graph@, *v, *write_number, r@),
{
    match v {
        Value::Entity(id) => match vault.get_entity(*id) {
            Some(e) => if e.labels.len() > 0 {
                e.labels[0].text.clone()
            } else {
                let head = concat("Entity(", u64_to_text(id.0).as_str());
                concat(head.as_str(), ")")
            },
            None => {
                let head = concat("Entity(", u64_to_text(id.0).as_str());
                concat(head.as_str(), ")")
            },
        },
        Value::Text(t) => t.clone(),
        Value::Number { value, unit } => {
            let a = write_number(*value);
            let mut r = String::from_str(a.as_str());
            r.append(" ");
            r.append(unit_text(unit).as_str());
            assert(r@ == value_answer(vault.graph@, *v, a@, Seq::empty()));
            r
        },
        Value::Boolean(b) => if *b {
            owned("true")
        } else {
            owned("false")
        },
        Value::Coordinate { lat, lon } => {
            let a = write_number(*lat);
            let b = write_number(*lon);
            let mut r = String::from_str(a.as_str());
            r.append(", ");
            r.append(b.as_str());
            assert(r@ == value_answer(vault.graph@, *v, a@, b@));
            r
        },
        Value::Date { timestamp, .. } => concat("timestamp:", i64_to_text(*timestamp).as_str()),
        Value::List(items) => concat(u64_to_text(items.len() as u64).as_str(), " items"),
    }
}

/// `r` answers question `q` from the vault: the relation of the first
/// understood question shape that yields one, told as an answer, with its
/// source name and confidence; `None` when no shape yields one.
pub open spec fn answers<W: Fn(FloatBits) -> String>(
    g: GraphView,
    q: Seq<char>,
    write_number: W,
    r: Option<(String, String, Confidence)>,
) -> bool {
    match question_answer_from(g, q, 0) {
        Some(rel) => r matches Some((answer, source, confidence)) && tells(
            g,
            rel.value,
            write_number,
            answer@,
        ) && source@ == rel.source.name@ && confidence == rel.confidence,
        None => r is None,
    }
}

/// Reads a (lower-case) question and answers it from the vault.
pub fn try_parse_question<W: Fn(FloatBits) -> String>(
    question: &str,
    vault: &Vault,
    write_number: &W,
) -> (r: Option<(String, String, Confidence)>)
    requires
        vault.graph.wf(),
        forall|x: FloatBits| call_requires(*write_number, (x,)),
    ensures
        answers(vault.graph@, question@, *write_number, r),
{
    let q = chars_of(question);
    let prefixes: [&str; 10] = [
        "what is the ",
        "what's the ",
        "qual é a ",
        "qual é a ",
        "qual é o ",
        "qual é o ",
        "qual a ",
        "qual a ",
        "qual o ",
        "qual o ",
    ];
    let separators: [&str; 10] = [
        " of ",
        " of ",
        " do ",
        " da ",
        " do ",
        " da ",
        " do ",
        " da ",
        " do ",
        " da ",
    ];
    assert(forall|k: int| 0 <= k < 10 ==> prefixes@[k]@ == #[trigger] question_patterns()[k].0);
    assert(forall|k: int| 0 <= k < 10 ==> separators@[k]@ == #[trigger] question_patterns()[k].1);
    let mut k: usize = 0;
    while k < 10
        invariant
            vault.graph.wf(),
            forall|x: FloatBits| call_requires(*write_number, (x,)),
            q@ == question@,
            k <= 10,
            forall|j: int| 0 <= j < 10 ==> prefixes@[j]@ == #[trigger] question_patterns()[j].0,
            forall|j: int| 0 <= j < 10 ==> separators@[j]@ == #[trigger] question_patterns()[j].1,
            question_answer_from(vault.graph@, q@, 0) == question_answer_from(vault.graph@, q@, k as int),
        decreases 10 - k,
    {
        let found = pattern_relation(vault, q.as_slice(), prefixes[k], separators[k]);
        match found {
            Some(relation) => {
                let answer = answer_text(vault, &relation.value, write_number);
                let source = String::from_str(relation.source.name.as_str());
                return Some((answer, source, relation.confidence));
            },
            None => {},
        }
        k = k + 1;
    }
    None
}

/// The answer to a question asked of the vault.
#[derive(Debug)]
pub struct AskResponse {
    pub question: String,
    pub answer: Option<String>,
    pub source: Option<String>,
    pub confidence: Option<String>,
    pub found: bool,
}

/// Answers a question from the vault, reading it lower-cased.
pub fn ask<W: Fn(FloatBits) -> String>(vault: &Vault, question: String, write_number: &W) -> (r: AskResponse)
    requires
        vault.graph.wf(),
        forall|x: FloatBits| call_requires(*write_number, (x,)),
    ensures
        r.question == question,
        match question_answer_from(vault.graph@, crate::text::lowercase_of(question@), 0) {
            Some(rel) => {
                &&& r.found
                &&& r.answer is Some
                &&& tells(vault.graph@, rel.value, *write_number, r.answer->0@)
                &&& r.source is Some
                &&& r.source->0@ == rel.source.name@
                &&& r.confidence is Some
                &&& r.confidence->0@ == confidence_name(rel.confidence)
            },
            None => !r.found && r.answer is None && r.source is None && r.confidence is None,
        },
{
    let lowered = to_lowercase(question.as_str());
    match try_parse_question(lowered.as_str(), vault, write_number) {
        Some((answer, source, confidence)) => AskResponse {
            question,
            answer: Some(answer),
            source: Some(source),
            confidence: Some(confidence.name()),
            found: true,
        },
        None => AskResponse { question, answer: None, source: None, confidence: None, found: false },
    }
}

} // verus!
