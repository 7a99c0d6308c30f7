//! Export of record types as interface declarations.
//!
//! A record's fields carry type expressions. Each one is normalized into a
//! [`normalize::GenericType`] tree, the tree is rendered as target type
//! syntax, and the rendered fields are assembled into an `interface`
//! declaration. The declarations of several records share one destination
//! text, in which each record's declaration is replaced by name.
pub mod normalize;
pub mod render;
pub mod emit;
pub mod generate;
pub mod laws;
pub mod destination;
