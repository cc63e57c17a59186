//! A verified translator for a small declarative data-analysis language.
//!
//! A source program declares typed variables (`data` section), loads them
//! from CSV columns (`input` section), applies statistical operations
//! (`process` section) and emits results (`output` section). The library
//! scans the source into tokens, validates it by recursive descent and,
//! as each production is recognized, appends one generated line to each of
//! two output buffers (a Scheme-like dialect and a Prolog-like dialect).

pub mod classes;
pub mod laws;
pub mod lexer;
pub mod parser;
pub mod token;
