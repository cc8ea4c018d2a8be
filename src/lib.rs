//! Generates companion builder types for record-like and union-like schema items.
//!
//! The library classifies each field's declared type into a structural shape,
//! applies user-registered field rules, and synthesizes a builder description
//! (fields, setters and a finalizer) whose behaviour is given a formal meaning
//! in [`semantics`].
pub mod builder;
pub mod field;
pub mod field_rule;
pub mod generator;
pub mod schema;
pub mod semantics;
pub mod shape;
pub mod synthesis;

pub use generator::Generator as BuilderGenerator;
