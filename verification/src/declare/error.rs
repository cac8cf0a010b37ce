//! Construction errors of the declaration layer.
use vstd::prelude::*;

use crate::canon::canonical_path::CanonicalPathError;
use crate::canon::deterministic_id::DeterministicIdError;
use crate::declare::spec_validation::ValidationError;
use crate::kernel::declared::ScalarViolation;

verus! {

/// Construction error for statically invalid declaration-layer values.
#[derive(Debug, Clone, Copy, PartialEq, Eq, Hash)]
pub enum DeclareError {
    /// A required field was empty.
    Empty { field: &'static str },
    /// A field did not match its required declaration format.
    Invalid { field: &'static str },
    /// A static cross-field invariant was violated.
    Invariant { field: &'static str },
}

/// Why a symbolic name was refused.
#[derive(Debug, Clone, Copy, PartialEq, Eq, Hash, Structural)]
pub enum SymbolicNameError {
    /// The name was empty.
    Empty,
    /// The character at `index` may not stand in a name.
    InvalidCharacter { index: usize, character: char },
}

/// A core construction rule that a converted declaration broke.
#[derive(Debug, Clone, Copy, PartialEq, Eq, Hash, Structural)]
pub enum ConstructionViolation {
    /// The requirement's value does not have the type its operator compares.
    InvalidRequirementValueType,
}

/// Why a declared specification could not be turned into a declared model.
#[derive(Debug, Clone, PartialEq, Eq)]
pub enum ConversionError {
    /// A name at `path` is not a symbolic name.
    InvalidSymbolicName { path: String, reason: SymbolicNameError },
    /// The specification broke its validation rules.
    ValidationFailed(Vec<ValidationError>),
    /// A canonical path could not be built.
    CanonicalPath(CanonicalPathError),
    /// A deterministic id could not be derived.
    DeterministicId(DeterministicIdError),
    /// A canonical name was refused.
    InvalidCanonicalName(ScalarViolation),
    /// A core declaration could not be constructed.
    InvalidConstruction(ConstructionViolation),
    /// A reference names nothing declared.
    MissingReference { section: &'static str, field: &'static str, name: String },
}

} // verus!
