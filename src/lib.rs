//! Schema-level logic for two compile-time tools: a builder synthesizer that
//! classifies a struct's fields and plans its companion builder type, and an
//! ordering verifier that checks an enum's variants are declared in
//! case-insensitive sorted order.
pub mod types;
pub mod classify;
pub mod plan;
pub mod builder;
pub mod order;
