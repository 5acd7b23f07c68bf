//! A generator of typestate builders.
//!
//! From the definition of a record with named fields, the library plans a
//! builder type with one type parameter for each required field, one setter
//! for each field, an entry point and a terminal `build`, and renders the plan
//! as Rust source text. It also gives the generated interface a meaning: which
//! calls a consumer may chain, and which record the chain builds.

pub mod attr;
pub mod error;
pub mod expander;
pub mod laws;
pub mod naming;
pub mod render;
pub mod schema;
pub mod typestate;
pub mod typevars;
pub mod views;
