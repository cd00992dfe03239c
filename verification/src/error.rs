//! Errors of the library.

use vstd::prelude::*;

verus! {

/// What can go wrong in the pipeline.
#[derive(Debug)]
pub enum ParallaxisError {
    Vault(String),
    Extraction(String),
    Verification(String),
    Normalization(String),
    EntityNotFound(String),
    PredicateNotFound(String),
    DomainNotFound(String),
    /// An input/output failure, with the system's message.
    Io(String),
    Serialization(String),
    InvalidFormat(String),
}

/// The result type of fallible operations.
pub type Result<T> = std::result::Result<T, ParallaxisError>;

} // verus!
