//! Converter core for the line-oriented COR geometry format.
//!
//! The library models 2-D vector drawings (circles, arcs, polylines),
//! decodes and encodes the COR text format, and maps the shapes to and
//! from a generic CAD drawing entity model. Floating-point coordinates
//! are carried as their IEEE-754 double-precision bit patterns, so the
//! codec and the mappers are exact and fully verified; only the textual
//! formatting and parsing of a single number is delegated to the
//! software floating-point crate `rustc_apfloat`.

pub mod codec;
pub mod dispatch;
pub mod mapping;
pub mod model;
pub mod num;
pub mod tokens;
