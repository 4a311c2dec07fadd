//! Rust type definitions from an XML Schema tree.
//!
//! The tree is that of [`schema`]: elements, complex and simple types,
//! attributes, restrictions and enumerations. For every type in it
//! [`generate`] writes the Rust definition that a serde-based XML reader can
//! fill: a struct whose fields are bound to attributes, elements and text, an
//! enum for a list of values, an alias for anything simpler. [`types`] holds
//! the rules for names, scalar types and cardinality that the definitions are
//! made by.

pub mod error;
pub mod generate;
pub mod laws;
pub mod run;
pub mod schema;
pub mod text;
pub mod types;

pub use error::GenerateError;
pub use generate::{
    generate_attribute, generate_complex, generate_element, generate_simple, generate_struct,
};
pub use run::generate_schema;
pub use schema::{
    All, Choice, Enumeration, Extension, Restriction, Sequence, SimpleContent, XsdAttribute,
    XsdComplexType, XsdElement, XsdSchema, XsdSimpleType, XsdUse,
};
pub use types::{
    effective_min_occurs, map_primitive_to_rust_type, map_to_rust_type, to_pascal_case,
    to_snake_case, Cardinality,
};
