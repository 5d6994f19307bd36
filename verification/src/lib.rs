//! Overlay-based capture schemas with content-addressed identifiers.
//!
//! A capture base describes the attributes of a data record; overlays add
//! independently digested annotations (labels, descriptions, encodings,
//! entry lists, conformance flags, layout hints) per language or per
//! concern. Every unit carries a self-addressing identifier: a digest of
//! its own canonical form, computed with the digest field held at a
//! sentinel, so identical content always yields identical identifiers.
//! A small command interpreter turns a linear sequence of declarative
//! edits into successive builder states, each finalizable into an
//! immutable, fully digested bundle; a validator checks a finished
//! bundle against configurable translation rules.

pub mod text;
pub mod maps;
pub mod attribute;
pub mod digest;
pub mod canon;
pub mod errors;
pub mod value;
pub mod capture_base;
pub mod overlay;
pub mod layout;
pub mod builder;
pub mod bundle;
pub mod command;
pub mod interpreter;
pub mod validator;
pub mod laws;
