//! Authored policy documents and their compilation into declaration fragments.
pub mod schema;
pub mod fragment;
pub mod compile;
