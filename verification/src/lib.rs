//! Parallaxis: a factual verification layer for LLM output.
//!
//! Text is decomposed into claims, each claim is checked against a curated
//! knowledge graph (the vault), and the verdicts are turned into tagged
//! output. Every step that decides or computes is verified here; the
//! network, the file system and floating-point arithmetic live outside.

pub mod types;
pub mod text;
pub mod text_index;
pub mod graph;
pub mod error;
pub mod claim;
pub mod verification;
pub mod vault;
pub mod fact_check;
pub mod tagger;
pub mod protocol;
pub mod normalizer;
pub mod extractor;
pub mod import;
pub mod lookups;
pub mod states;
pub mod geography;
pub mod demo;
