//! Claims: factual assertions extracted from LLM text.

use vstd::prelude::*;
use crate::types::{FloatBits, Ratio};

verus! {

/// A factual claim, structured as a triple (subject, predicate, object).
#[derive(Debug)]
pub struct Claim {
    /// The original text span this claim was extracted from.
    pub original_text: String,
    /// Start of the span in the analyzed text (byte offset).
    pub span_start: usize,
    /// End of the span in the analyzed text (byte offset).
    pub span_end: usize,
    /// Extracted subject ("Brazil", "water", ...).
    pub subject: String,
    /// Extracted predicate ("capital", "boiling_point", ...).
    pub predicate: String,
    /// Extracted object or value ("Brasília", "100°C", ...).
    pub object: String,
    /// Conditions and qualifiers ("at sea level", ...).
    pub conditions: Vec<String>,
    /// Confidence of the extraction itself (0.0 to 1.0).
    pub extraction_confidence: FloatBits,
}

/// Result of the extraction process.
#[derive(Debug)]
pub struct ExtractionResult {
    /// The analyzed text.
    pub original_text: String,
    /// Extracted claims.
    pub claims: Vec<Claim>,
    /// Overall extraction confidence (0.0 to 1.0).
    pub confidence: FloatBits,
    /// Warnings about potential extraction issues.
    pub warnings: Vec<ExtractionWarning>,
}

/// Warnings about text quality or extraction issues.
#[derive(Debug)]
pub enum ExtractionWarning {
    /// Text has a high proportion of hedge words; the ratio is the number
    /// of hedge phrases found over the number of words.
    HighHedging { hedge_ratio: Ratio },
    /// Citation appears fabricated.
    FakeSource { citation: String },
    /// Vague appeal to authority without identification.
    AppealToAuthority { phrase: String },
    /// Context may have been lost during extraction.
    ContextLoss { original_segment: String, reconstructed: String },
    /// Claim could not be decomposed into a clean triple.
    AmbiguousDecomposition { text: String, reason: String },
}

} // verus!
