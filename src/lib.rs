//! Ahead-of-time generation of constant declarations from a JSON document.
//!
//! A parsed document is turned into a tree of namespaces and constants
//! (`builder`), which is then written out as declaration text (`emit`).

pub mod builder;
pub mod classify;
pub mod emit;
pub mod error;
pub mod laws;
pub mod naming;
pub mod source;
pub mod tree;
pub mod value;
