//! A logic reasoning service: one logic engine for each name, modules loaded
//! into an engine, queries answered from them, and the answers written in a
//! JSON-compatible interchange text.
//!
//! The engines' machines do their work outside this library. The library
//! keeps the registry of engines and each engine's knowledge base, decides
//! what a call comes to, and writes the terms that a machine gives back.

pub mod answer;
pub mod engine;
pub mod error;
pub mod json;
pub mod languages;
pub mod named;
pub mod number;
pub mod registry;
pub mod term;
pub mod text;
