//! Deterministic, unopinionated security-model type system.
//!
//! The library is organised as the layers of the model: `text` holds the
//! character-level helpers, `canon` the canonicalization primitives.
use vstd::prelude::*;

pub mod adapter;
pub mod canon;
pub mod cli;
pub mod declare;
pub mod docker;
pub mod eval;
pub mod kernel;
pub mod mapper;
pub mod policy;
pub mod text;

verus! {

} // verus!
