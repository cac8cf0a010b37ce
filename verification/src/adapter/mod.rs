//! The input-side rules that hold whatever syntax a declaration is written in.
pub mod yaml;
pub mod toml;
