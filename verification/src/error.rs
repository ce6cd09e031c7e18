//! # Titan Error Handling
//!
//! The central `TitanError` type, giving structured error propagation across
//! the engine.

use vstd::prelude::*;

verus! {

/// std's I/O error, carried through unchanged.
#[verifier::external_type_specification]
#[verifier::external_body]
pub struct ExIoError(std::io::Error);

#[derive(Debug)]
pub enum TitanError {
    IoError(std::io::Error),
    ProjectLoadError(String),
    ValidationError(String),
    TemplateError(String),
    SqlParseError(String),
    DatabaseError(String),
    StateError(String),
    ExecutionError(String),
    DependencyNotFound(String, String),
    CircularDependency(String),
}

pub type Result<T> = std::result::Result<T, TitanError>;

} // verus!
