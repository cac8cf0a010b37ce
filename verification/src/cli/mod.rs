//! The validation report contract of the command line: stages, outcomes,
//! error codes and paths, their order, and the mapping of library errors
//! into report errors.
pub mod error_map;
pub mod output_human;
pub mod report;
pub mod evaluate;
pub mod run;
pub mod validate;
