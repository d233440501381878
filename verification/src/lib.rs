//! Semantic-resolution core of a cross-platform interface-definition
//! language: projects declare types, UI components and events in a
//! module tree, reference declarations across project and module
//! boundaries with symbolic addresses, and a resolver merges the
//! loaded project graph into one flat, fully-addressed declaration
//! environment for per-target-language code generators.

pub mod entity;
pub mod resolver;
pub mod source;
pub mod string_map;
pub mod strings;
