//! Deterministic canonicalization primitives: paths, ordering, ids, normalization.
pub mod canonical_path;
pub mod deterministic_id;
pub mod normalize;
pub mod ordering;
