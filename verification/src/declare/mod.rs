//! Symbolic declaration layer and its deterministic concretisation into the
//! theory graph.
pub mod concretise;
pub mod declaration;
pub mod error;
pub mod name;
pub mod requirement;
pub mod scope;
pub mod spec;
pub mod spec_validation;
pub mod validation;
pub mod model_order;
