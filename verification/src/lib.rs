//! A verified code generator that lowers a typed, S-expression based
//! smart-contract language onto a WebAssembly module model.
//!
//! The generator walks a type-annotated syntax tree and emits instructions
//! into a module that links against a standard-library of 128-bit arithmetic
//! helpers and host-provided persistent-state functions.  The central
//! verified guarantees are that emitted code has the value-stack shape that
//! the source type prescribes, that the literal region of linear memory only
//! grows and its data segments never overlap, that persistent-state names
//! receive dense, unique identifiers, and that public and read-only
//! definitions are exported under their source names.

pub mod types;
pub mod wasm;
pub mod ast;
pub mod generator;
pub mod props;
