//! Uncertainty-preserving policy evaluation: carriers, membership,
//! requirements and decisions.
pub mod carrier;
pub mod decision;
pub mod predicate;
pub mod requirement_eval;
pub mod property_eval;
