//! The Docker vocabulary and the mapping of Docker Compose services into
//! neutral evidence, and the narrow Docker policy authoring shape.
pub mod compose;
pub mod vocab;
pub mod policy;
