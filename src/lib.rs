//! Generation of string-rendering code for tagged unions annotated with
//! `expand_to` directives.
//!
//! - [`model`]: the union as the host parser hands it over, as plain values.
//! - [`directive`]: the directive grammar, from an annotation's tokens.
//! - [`classify`]: the directives of a variant and the rule it renders by.
//! - [`emit`]: the text of one match arm.
//! - [`assemble`]: the example tests and the whole generated unit.
//! - [`laws`]: properties of the generated code.
//! - [`text`]: decimal numbers, string literals and identifiers.
pub mod assemble;
pub mod classify;
pub mod directive;
pub mod emit;
pub mod laws;
pub mod model;
pub mod text;
