//! The extractor's logic: the rule-based extractor, the prompt sent to a
//! language model, the reading of its reply, and the self-check of what it
//! extracted. The request itself goes over the network, outside.

use vstd::prelude::*;
use vstd::string::StringExecFns;
use vstd::utf8::{encode_scalar, encode_utf8};
use vstd::string::StrSliceExecFns;
use crate::claim::{Claim, ExtractionResult, ExtractionWarning};
use crate::text::{
    chars_of, contains_seq, contains_text, count_words, find_chars, find_seq, join,
    join_seq, lemma_find_seq, lowercase_of, rfind_char, rfind_char_seq, string_of, sub_chars,
    texts, to_lowercase, trim_chars, trim_seq, word_count,
};
use crate::types::{FloatBits, Predicate, Ratio};

verus! {

/// The bit pattern of 0.9, the confidence given to each claim a language
/// model extracts.
pub const CLAIM_CONFIDENCE_BITS: u64 = 0x3fec_cccc_cccc_cccdu64;

/// The bit pattern of 0.85, the overall confidence of a language-model
/// extraction that found claims.
pub const EXTRACTION_CONFIDENCE_BITS: u64 = 0x3feb_3333_3333_3333u64;

/// Simple extractor for testing: the whole text is one claim with empty
/// parts.
pub struct SimpleExtractor;

impl SimpleExtractor {
    /// The whole text as one claim, spanning all its bytes, with empty
    /// subject, predicate and object, and zero confidence.
    pub fn extract(&self, text: &str, schema: &[Predicate]) -> (r: crate::error::Result<ExtractionResult>)
        ensures
            r matches Ok(e) && e.original_text@ == text@ && e.claims@.len() == 1 && e.confidence
                == FloatBits(0) && e.warnings@.len() == 0 && ({
                let c = e.claims@[0];
                &&& c.original_text@ == text@
                &&& c.span_start == 0
                &&& c.span_end == text.len()
                &&& c.subject@.len() == 0
                &&& c.predicate@.len() == 0
                &&& c.object@.len() == 0
                &&& c.conditions@.len() == 0
                &&& c.extraction_confidence == FloatBits(0)
            }),
    {
        let claim = Claim {
            original_text: String::from_str(text),
            span_start: 0,
            span_end: text.len(),
            subject: String::new(),
            predicate: String::new(),
            object: String::new(),
            conditions: Vec::new(),
            extraction_confidence: FloatBits(0),
        };
        let mut claims: Vec<Claim> = Vec::new();
        claims.push(claim);
        Ok(
            ExtractionResult {
                original_text: String::from_str(text),
                claims,
                confidence: FloatBits(0),
                warnings: Vec::new(),
            },
        )
    }
}

/// A triple as a language model extracted it.
#[derive(Debug)]
pub struct ExtractedTriple {
    pub subject: String,
    pub predicate: String,
    pub object: String,
    pub conditions: Vec<String>,
    /// The text the claim comes from (may be empty).
    pub original_span: String,
}

/// The text after `marker` up to the next fence, trimmed, when both are
/// found.
pub open spec fn fenced_after(s: Seq<char>, marker: Seq<char>) -> Option<Seq<char>> {
    match find_seq(s, marker) {
        Some(start) => {
            let from = start + marker.len();
            match find_seq(s.skip(from), "```"@) {
                Some(end) => Some(trim_seq(s.subrange(from, from + end))),
                None => None,
            }
        },
        None => None,
    }
}

/// The JSON part of a reply: a "```json" block, else a "```" block, else
/// from the first '{' to the last '}', else the trimmed reply.
pub open spec fn json_part(s: Seq<char>) -> Seq<char> {
    match fenced_after(s, "```json"@) {
        Some(x) => x,
        None => match fenced_after(s, "```"@) {
            Some(x) => x,
            None => match (find_seq(s, seq!['{']), rfind_char_seq(s, '}')) {
                (Some(a), Some(b)) => s.subrange(a, b + 1),
                _ => trim_seq(s),
            },
        },
    }
}

/// The reply can be cut: when the JSON part is taken between braces, the
/// last '}' does not come before the first '{'.
pub open spec fn json_part_defined(s: Seq<char>) -> bool {
    fenced_after(s, "```json"@) is None && fenced_after(s, "```"@) is None ==> match (
        find_seq(s, seq!['{']),
        rfind_char_seq(s, '}'),
    ) {
        (Some(a), Some(b)) => a <= b,
        _ => true,
    }
}

proof fn lemma_rfind_char(s: Seq<char>, c: char)
    ensures
        rfind_char_seq(s, c) matches Some(i) ==> 0 <= i < s.len() && s[i] == c,
    decreases s.len(),
{
    if s.len() > 0 && s.last() != c {
        lemma_rfind_char(s.drop_last(), c);
    }
}

/// The block after `marker` up to the next fence, trimmed.
fn fenced_block(v: &[char], marker: &str) -> (r: Option<Vec<char>>)
    ensures
        r matches Some(x) ==> fenced_after(v@, marker@) == Some(x@),
        r is None ==> fenced_after(v@, marker@) is None,
{
    let m = chars_of(marker);
    let start = match find_chars(v, m.as_slice()) {
        Some(s) => s,
        None => return None,
    };
    proof {
        lemma_find_seq(v@, m@);
    }
    let vl = v.len();
    assert(start + m@.len() <= vl);
    let from = start + m.len();
    let rest = sub_chars(v, from, v.len());
    assert(rest@ == v@.skip(from as int));
    let fence = chars_of("```");
    let end = match find_chars(rest.as_slice(), fence.as_slice()) {
        Some(e) => e,
        None => return None,
    };
    proof {
        lemma_find_seq(rest@, fence@);
    }
    let block = sub_chars(v, from, from + end);
    Some(trim_chars(block.as_slice()))
}

/// The JSON part of a language model's reply.
pub fn extract_json(s: &str) -> (r: String)
    requires
        json_part_defined(s@),
    ensures
        r@ == json_part(s@),
{
    let v = chars_of(s);
    let vl = v.len();
    if let Some(block) = fenced_block(v.as_slice(), "```json") {
        return string_of(block.as_slice());
    }
    if let Some(block) = fenced_block(v.as_slice(), "```") {
        return string_of(block.as_slice());
    }
    let open = chars_of("{");
    proof {
        reveal_strlit("{");
    }
    assert(open@ =~= seq!['{']);
    if let Some(a) = find_chars(v.as_slice(), open.as_slice()) {
        proof {
            lemma_find_seq(v@, open@);
            lemma_rfind_char(v@, '}');
        }
        if let Some(b) = rfind_char(v.as_slice(), '}') {
            assert(b < vl);
            let part = sub_chars(v.as_slice(), a, b + 1);
            return string_of(part.as_slice());
        }
    }
    string_of(trim_chars(v.as_slice()).as_slice())
}

/// Whether the JSON part of a reply can be cut out (see
/// `json_part_defined`): a reply whose last '}' comes before its first '{',
/// outside any fence, cannot.
pub fn json_part_is_defined(s: &str) -> (r: bool)
    ensures
        r == json_part_defined(s@),
{
    let v = chars_of(s);
    if fenced_block(v.as_slice(), "```json").is_some() {
        return true;
    }
    if fenced_block(v.as_slice(), "```").is_some() {
        return true;
    }
    let open = chars_of("{");
    proof {
        reveal_strlit("{");
    }
    assert(open@ =~= seq!['{']);
    match (find_chars(v.as_slice(), open.as_slice()), rfind_char(v.as_slice(), '}')) {
        (Some(a), Some(b)) => a <= b,
        _ => true,
    }
}

/// The hedge phrases looked for in a text.
pub open spec fn hedge_words() -> Seq<Seq<char>> {
    seq![
        "possibly"@,
        "might"@,
        "could"@,
        "perhaps"@,
        "maybe"@,
        "arguably"@,
        "some suggest"@,
        "it is believed"@,
        "reportedly"@,
        "allegedly"@,
        "possivelmente"@,
        "talvez"@,
        "pode ser"@,
        "supostamente"@,
    ]
}

/// The number of hedge phrases among the first `k` that occur in `lower`.
pub open spec fn hedges_in(lower: Seq<char>, k: int) -> nat
    decreases k,
{
    if k <= 0 {
        0
    } else {
        hedges_in(lower, k - 1) + if contains_seq(lower, hedge_words()[k - 1]) {
            1nat
        } else {
            0nat
        }
    }
}

/// "subject predicate object".
pub open spec fn reconstruct(t: ExtractedTriple) -> Seq<char> {
    t.subject@ + " "@ + t.predicate@ + " "@ + t.object@
}

/// The span of the triple is not found in the text, case aside.
pub open spec fn loses_context(original: Seq<char>, t: ExtractedTriple) -> bool {
    t.original_span@.len() > 0 && !contains_seq(lowercase_of(original), lowercase_of(t.original_span@))
}

/// The context-loss warnings for the triples among the first `k`, in order.
pub open spec fn context_losses(original: Seq<char>, triples: Seq<ExtractedTriple>, k: int) -> nat
    decreases k,
{
    if k <= 0 {
        0
    } else {
        context_losses(original, triples, k - 1) + if loses_context(original, triples[k - 1]) {
            1nat
        } else {
            0nat
        }
    }
}

/// `w` warns of lost context for triple `t`.
pub open spec fn warns_context_loss(w: ExtractionWarning, t: ExtractedTriple) -> bool {
    w matches ExtractionWarning::ContextLoss { original_segment, reconstructed }
        && original_segment@ == t.original_span@ && reconstructed@ == reconstruct(t)
}

/// The text is hedged: more than one hedge phrase in ten words.
pub open spec fn highly_hedged(original: Seq<char>) -> bool {
    word_count(original) > 0 && 10 * hedges_in(lowercase_of(original), 14) > word_count(original)
}

/// `ws` is the self-check of `triples` against `original`: one context-loss
/// warning per triple whose span is not in the text, in order, then a
/// hedging warning when the text is hedged.
pub open spec fn self_check_warnings(original: Seq<char>, triples: Seq<ExtractedTriple>, ws: Seq<ExtractionWarning>) -> bool {
    let n = context_losses(original, triples, triples.len() as int);
    &&& ws.len() == n + if highly_hedged(original) { 1nat } else { 0nat }
    &&& forall|k: int|
        0 <= k < triples.len() && #[trigger] loses_context(original, triples[k]) ==> warns_context_loss(
            ws[context_losses(original, triples, k) as int],
            triples[k],
        )
    &&& highly_hedged(original) ==> ws.last() == ExtractionWarning::HighHedging {
        hedge_ratio: Ratio {
            num: hedges_in(lowercase_of(original), 14) as u64,
            den: word_count(original) as u64,
        },
    }
}

proof fn lemma_losses_monotone(original: Seq<char>, triples: Seq<ExtractedTriple>, a: int, b: int)
    requires
        0 <= a <= b,
    ensures
        context_losses(original, triples, a) <= context_losses(original, triples, b),
        a < b && loses_context(original, triples[a]) ==> context_losses(original, triples, a) < context_losses(original, triples, b),
    decreases b - a,
{
    if a < b {
        lemma_losses_monotone(original, triples, a, b - 1);
        if a < b - 1 {
            lemma_losses_monotone(original, triples, a + 1, b - 1);
        }
    }
}

proof fn lemma_losses_bound(original: Seq<char>, triples: Seq<ExtractedTriple>, k: int)
    requires
        0 <= k,
    ensures
        context_losses(original, triples, k) <= k,
    decreases k,
{
    if k > 0 {
        lemma_losses_bound(original, triples, k - 1);
    }
}

proof fn lemma_hedges_bound(lower: Seq<char>, k: int)
    requires
        0 <= k,
    ensures
        hedges_in(lower, k) <= k,
    decreases k,
{
    if k > 0 {
        lemma_hedges_bound(lower, k - 1);
    }
}

/// The number of hedge phrases in `lower`.
fn count_hedges(lower: &str) -> (r: u64)
    ensures
        r == hedges_in(lower@, 14),
{
    let words: [&str; 14] = [
        "possibly",
        "might",
        "could",
        "perhaps",
        "maybe",
        "arguably",
        "some suggest",
        "it is believed",
        "reportedly",
        "allegedly",
        "possivelmente",
        "talvez",
        "pode ser",
        "supostamente",
    ];
    assert(forall|k: int| 0 <= k < 14 ==> words@[k]@ == #[trigger] hedge_words()[k]);
    let mut count: u64 = 0;
    let mut i: usize = 0;
    while i < 14
        invariant
            i <= 14,
            forall|k: int| 0 <= k < 14 ==> words@[k]@ == #[trigger] hedge_words()[k],
            count == hedges_in(lower@, i as int),
        decreases 14 - i,
    {
        proof {
            lemma_hedges_bound(lower@, i as int);
        }
        if contains_text(lower, words[i]) {
            count = count + 1;
        }
        i = i + 1;
    }
    count
}

/// Self-check of extracted triples: a warning for each triple whose span
/// (when it has one) is not in the text, case aside, then a warning when
/// more than one word in ten is a hedge.
pub fn self_check(original: &str, triples: &Vec<ExtractedTriple>) -> (r: Vec<ExtractionWarning>)
    ensures
        self_check_warnings(original@, triples@, r@),
{
    let lower = to_lowercase(original);
    let mut warnings: Vec<ExtractionWarning> = Vec::new();
    let mut i: usize = 0;
    while i < triples.len()
        invariant
            i <= triples@.len(),
            lower@ == lowercase_of(original@),
            warnings@.len() == context_losses(original@, triples@, i as int),
            forall|k: int|
                0 <= k < i && #[trigger] loses_context(original@, triples@[k]) ==> warns_context_loss(
                    warnings@[context_losses(original@, triples@, k) as int],
                    triples@[k],
                ),
        decreases triples@.len() - i,
    {
        let t = &triples[i];
        let mut reconstructed = String::from_str(t.subject.as_str());
        reconstructed.append(" ");
        reconstructed.append(t.predicate.as_str());
        reconstructed.append(" ");
        reconstructed.append(t.object.as_str());
        let span_lower = to_lowercase(t.original_span.as_str());
        if t.original_span.unicode_len() > 0 && !contains_text(lower.as_str(), span_lower.as_str()) {
            proof {
                lemma_losses_bound(original@, triples@, i as int);
            }
            warnings.push(
                ExtractionWarning::ContextLoss {
                    original_segment: t.original_span.clone(),
                    reconstructed,
                },
            );
        }
        proof {
            assert forall|k: int|
                0 <= k < i + 1 && #[trigger] loses_context(original@, triples@[k]) implies warns_context_loss(
                warnings@[context_losses(original@, triples@, k) as int],
                triples@[k],
            ) by {
                if k < i {
                    lemma_losses_monotone(original@, triples@, k, i as int);
                }
            }
        }
        i = i + 1;
    }
    let word_total = count_words(original);
    let hedges = count_hedges(lower.as_str());
    proof {
        lemma_hedges_bound(lower@, 14);
    }
    let ghost before = warnings@;
    if word_total > 0 && 10 * hedges > word_total as u64 {
        warnings.push(
            ExtractionWarning::HighHedging {
                hedge_ratio: Ratio { num: hedges, den: word_total as u64 },
            },
        );
        assert(forall|k: int| 0 <= k < before.len() ==> warnings@[k] == before[k]);
    }
    assert forall|k: int|
        0 <= k < triples@.len() && #[trigger] loses_context(original@, triples@[k]) implies warns_context_loss(
        warnings@[context_losses(original@, triples@, k) as int],
        triples@[k],
    ) by {
        lemma_losses_monotone(original@, triples@, k, triples@.len() as int);
        assert(warnings@[context_losses(original@, triples@, k) as int] == before[context_losses(original@, triples@, k) as int]);
    }
    assert(triples@.len() == i);
    assert(warnings@.len() == context_losses(original@, triples@, triples@.len() as int) + if highly_hedged(original@) { 1nat } else { 0nat });
    assert(highly_hedged(original@) ==> warnings@.last() == ExtractionWarning::HighHedging {
        hedge_ratio: Ratio {
            num: hedges_in(lowercase_of(original@), 14) as u64,
            den: word_count(original@) as u64,
        },
    });
    warnings
}

/// The UTF-8 encoding of a concatenation is the concatenation of the
/// encodings.
pub proof fn lemma_encode_utf8_append(a: Seq<char>, b: Seq<char>)
    ensures
        encode_utf8(a + b) == encode_utf8(a) + encode_utf8(b),
    decreases a.len(),
{
    if a.len() > 0 {
        lemma_encode_utf8_append(a.drop_first(), b);
        assert((a + b).drop_first() =~= a.drop_first() + b);
        assert((a + b)[0] == a[0]);
        assert(encode_scalar(a[0] as u32) + (encode_utf8(a.drop_first()) + encode_utf8(b))
            =~= (encode_scalar(a[0] as u32) + encode_utf8(a.drop_first())) + encode_utf8(b));
    } else {
        assert(a + b =~= b);
        assert(encode_utf8(a) =~= Seq::<u8>::empty());
        assert(encode_utf8(a) + encode_utf8(b) =~= encode_utf8(b));
    }
}

/// The number of bytes of the UTF-8 encoding of `s`.
pub open spec fn byte_len(s: Seq<char>) -> usize {
    encode_utf8(s).len() as usize
}

/// The text a claim is said to come from: its span, or "subject predicate
/// object" when it has none.
pub open spec fn span_text(t: ExtractedTriple) -> Seq<char> {
    if t.original_span@.len() == 0 {
        reconstruct(t)
    } else {
        t.original_span@
    }
}

/// `c` is the claim made of triple `t` found in `text`: its span is the
/// first occurrence of its text, in bytes (the start of the text when it
/// does not occur).
pub open spec fn claim_of_triple(text: Seq<char>, t: ExtractedTriple, c: Claim) -> bool {
    let span = span_text(t);
    &&& c.original_text@ == span
    &&& match find_seq(text, span) {
        Some(k) => c.span_start == byte_len(text.take(k)) && c.span_end == byte_len(
            text.take(k + span.len()),
        ),
        None => c.span_start == 0 && c.span_end == byte_len(span),
    }
    &&& c.subject == t.subject
    &&& c.predicate == t.predicate
    &&& c.object == t.object
    &&& c.conditions@ == t.conditions@
    &&& c.extraction_confidence == FloatBits(CLAIM_CONFIDENCE_BITS)
}

proof fn lemma_span_bytes(text: Seq<char>, span: Seq<char>, k: int)
    requires
        0 <= k,
        k + span.len() <= text.len(),
        text.subrange(k, k + span.len()) == span,
    ensures
        encode_utf8(text.take(k + span.len())).len() == encode_utf8(text.take(k)).len()
            + encode_utf8(span).len(),
        encode_utf8(text.take(k + span.len())).len() <= encode_utf8(text).len(),
{
    assert(text.take(k + span.len()) =~= text.take(k) + span);
    lemma_encode_utf8_append(text.take(k), span);
    assert(text =~= text.take(k + span.len()) + text.skip(k + span.len()));
    lemma_encode_utf8_append(text.take(k + span.len()), text.skip(k + span.len()));
}

/// A claim's byte span is exactly as long as the UTF-8 encoding of its
/// text, and lies within the analyzed text when the text contains it.
pub proof fn lemma_claim_span(text: Seq<char>, t: ExtractedTriple, c: Claim)
    requires
        claim_of_triple(text, t, c),
        encode_utf8(text).len() <= usize::MAX,
        encode_utf8(span_text(t)).len() <= usize::MAX,
    ensures
        c.span_start <= c.span_end,
        c.span_end - c.span_start == encode_utf8(c.original_text@).len(),
        find_seq(text, span_text(t)) is Some ==> c.span_end <= encode_utf8(text).len(),
{
    let span = span_text(t);
    lemma_find_seq(text, span);
    match find_seq(text, span) {
        Some(k) => {
            lemma_span_bytes(text, span, k);
        },
        None => {},
    }
}

/// The claim made of triple `t` found in `text`.
fn claim_from_triple(text: &str, t: &ExtractedTriple) -> (c: Claim)
    ensures
        claim_of_triple(text@, *t, c),
{
    let span = if t.original_span.unicode_len() == 0 {
        let mut r = String::from_str(t.subject.as_str());
        r.append(" ");
        r.append(t.predicate.as_str());
        r.append(" ");
        r.append(t.object.as_str());
        r
    } else {
        t.original_span.clone()
    };
    let tv = chars_of(text);
    let sv = chars_of(span.as_str());
    let (span_start, span_end) = match find_chars(tv.as_slice(), sv.as_slice()) {
        Some(k) => {
            proof {
                lemma_find_seq(tv@, sv@);
            }
            let tl = tv.len();
            assert(k + sv@.len() <= tl);
            let before = text.substring_char(0, k);
            let through = text.substring_char(0, k + sv.len());
            (before.len(), through.len())
        },
        None => (0, span.as_str().len()),
    };
    Claim {
        original_text: span,
        span_start,
        span_end,
        subject: t.subject.clone(),
        predicate: t.predicate.clone(),
        object: t.object.clone(),
        conditions: crate::types::clone_strings(&t.conditions),
        extraction_confidence: FloatBits(CLAIM_CONFIDENCE_BITS),
    }
}

/// `w` reports the model's warning `reason` about `text`.
pub open spec fn warns_ambiguity(w: ExtractionWarning, text: Seq<char>, reason: String) -> bool {
    &&& w matches ExtractionWarning::AmbiguousDecomposition { .. }
    &&& w->AmbiguousDecomposition_text@ == text
    &&& w->reason == reason
}

/// `e` is the extraction made of a language model's reply on `text`: one
/// claim per triple, in order; the self-check's warnings, then one warning
/// per warning of the model; confidence 0.85 when there are claims, else 0.
pub open spec fn extraction_of_reply(
    text: Seq<char>,
    triples: Seq<ExtractedTriple>,
    reported: Seq<String>,
    e: ExtractionResult,
) -> bool {
    let checks = e.warnings@.take(e.warnings@.len() - reported.len());
    &&& e.original_text@ == text
    &&& e.claims@.len() == triples.len()
    &&& forall|i: int| 0 <= i < triples.len() ==> #[trigger] claim_of_triple(text, triples[i], e.claims@[i])
    &&& e.warnings@.len() >= reported.len()
    &&& self_check_warnings(text, triples, checks)
    &&& forall|i: int|
        0 <= i < reported.len() ==> warns_ambiguity(#[trigger] e.warnings@[checks.len() + i], text, reported[i])
    &&& e.confidence == if triples.len() == 0 {
        FloatBits(0)
    } else {
        FloatBits(EXTRACTION_CONFIDENCE_BITS)
    }
}

/// The extraction made of a language model's reply on `text`: its triples
/// and the warnings it reported.
pub fn extraction_from_reply(
    text: &str,
    triples: &Vec<ExtractedTriple>,
    reported: &Vec<String>,
) -> (e: ExtractionResult)
    ensures
        extraction_of_reply(text@, triples@, reported@, e),
{
    let mut claims: Vec<Claim> = Vec::new();
    let mut i: usize = 0;
    while i < triples.len()
        invariant
            i <= triples@.len(),
            claims@.len() == i,
            forall|j: int| 0 <= j < i ==> #[trigger] claim_of_triple(text@, triples@[j], claims@[j]),
        decreases triples@.len() - i,
    {
        claims.push(claim_from_triple(text, &triples[i]));
        i = i + 1;
    }
    let mut warnings = self_check(text, triples);
    let ghost checks = warnings@;
    let mut k: usize = 0;
    while k < reported.len()
        invariant
            k <= reported@.len(),
            warnings@.len() == checks.len() + k,
            warnings@.take(checks.len() as int) == checks,
            forall|j: int|
                0 <= j < k ==> warns_ambiguity(#[trigger] warnings@[checks.len() + j], text@, reported@[j]),
        decreases reported@.len() - k,
    {
        warnings.push(
            ExtractionWarning::AmbiguousDecomposition {
                text: String::from_str(text),
                reason: reported[k].clone(),
            },
        );
        assert(warnings@.take(checks.len() as int) =~= checks);
        k = k + 1;
    }
    let confidence = if claims.len() == 0 {
        FloatBits(0)
    } else {
        FloatBits(EXTRACTION_CONFIDENCE_BITS)
    };
    ExtractionResult { original_text: String::from_str(text), claims, confidence, warnings }
}

/// The opening of the extraction prompt, up to the list of predicates.
pub const PROMPT_HEAD: &'static str = "You are a factual claim extractor. Your job is to decompose text into atomic factual claims as (subject, predicate, object) triples.\n\nAvailable predicates in the knowledge base:\n";

/// The part of the extraction prompt between the list of predicates and the
/// text.
pub const PROMPT_BODY: &'static str = "\n\nRules:\n1. Extract ONLY factual claims (not opinions, questions, or commands)\n2. Use predicates from the list above when possible\n3. If a claim has conditions/qualifiers, include them in the \"conditions\" array\n4. Include the original text span for each claim in \"original_span\"\n5. If something is an opinion or subjective, skip it\n\nRespond with valid JSON only:\n{\n  \"triples\": [\n    {\n      \"subject\": \"entity name\",\n      \"predicate\": \"predicate_name\",\n      \"object\": \"value or entity name\",\n      \"conditions\": [\"condition1\", \"condition2\"],\n      \"original_span\": \"the exact text this claim comes from\"\n    }\n  ],\n  \"warnings\": [\"any extraction issues\"]\n}\n\nText to analyze:\n\"";

/// The end of the extraction prompt, after the text.
pub const PROMPT_TAIL: &'static str = "\"\n";

/// The line that lists a predicate: "  - name", with " (aliases: a, b)"
/// when it has aliases.
pub open spec fn predicate_line(p: Predicate) -> Seq<char> {
    "  - "@ + p.name@ + if p.aliases@.len() == 0 {
        Seq::empty()
    } else {
        " (aliases: "@ + join_seq(texts(p.aliases@), ", "@) + ")"@
    }
}

/// The lines that list `schema`.
pub open spec fn predicate_lines(schema: Seq<Predicate>) -> Seq<Seq<char>> {
    schema.map_values(|p: Predicate| predicate_line(p))
}

/// The extraction prompt for `text` with the predicates of `schema`.
pub open spec fn prompt_for(text: Seq<char>, schema: Seq<Predicate>) -> Seq<char> {
    PROMPT_HEAD@ + join_seq(predicate_lines(schema), "\n"@) + PROMPT_BODY@ + text + PROMPT_TAIL@
}

/// The prompt that asks a language model to extract triples from `text`,
/// listing the predicates of `schema` with their aliases.
pub fn build_prompt(text: &str, schema: &[Predicate]) -> (r: String)
    ensures
        r@ == prompt_for(text@, schema@),
{
    let mut lines: Vec<String> = Vec::new();
    let mut i: usize = 0;
    while i < schema.len()
        invariant
            i <= schema@.len(),
            texts(lines@) == predicate_lines(schema@.take(i as int)),
        decreases schema@.len() - i,
    {
        let p = &schema[i];
        let mut line = String::from_str("  - ");
        line.append(p.name.as_str());
        if p.aliases.len() > 0 {
            line.append(" (aliases: ");
            line.append(join(&p.aliases, ", ").as_str());
            line.append(")");
            assert(line@ =~= predicate_line(*p));
        } else {
            assert(line@ =~= predicate_line(*p));
        }
        let ghost before = lines@;
        lines.push(line);
        assert(texts(lines@) =~= texts(before).push(line@));
        assert(schema@.take(i + 1) =~= schema@.take(i as int).push(schema@[i as int]));
        assert(predicate_lines(schema@.take(i + 1)) =~= predicate_lines(schema@.take(i as int)).push(
            predicate_line(schema@[i as int]),
        ));
        i = i + 1;
    }
    assert(schema@.take(schema@.len() as int) =~= schema@);
    let mut r = String::from_str(PROMPT_HEAD);
    r.append(join(&lines, "\n").as_str());
    r.append(PROMPT_BODY);
    r.append(text);
    r.append(PROMPT_TAIL);
    r
}

} // verus!
