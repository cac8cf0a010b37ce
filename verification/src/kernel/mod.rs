//! The type-only model kernel: identifiers, scalars, vocabulary and the
//! abstract theory graph with its coherence rules.
pub mod composites;
pub mod concept_feedback;
pub mod declared;
pub mod duplicate;
pub mod enums;
pub mod error;
pub mod id;
pub mod scalars;
pub mod structs;
pub mod theory;
pub mod theory_validation;
pub mod validation;
pub mod l0;
