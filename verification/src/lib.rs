//! Lexical front-end for a TL-style schema description language.
//!
//! The recognizers here turn raw schema source text into classified lexical
//! units: identifiers (optionally namespace-qualified, optionally carrying an
//! inline hex tag), numeric constants, and comment spans. Every recognizer is
//! pure: it reads a borrowed byte buffer at a given offset and, on success,
//! returns the offset just past what it consumed together with the recognized
//! value, leaving the remainder for the next recognizer.

pub mod classes;
pub mod comments;
pub mod cursor;
pub mod error;
pub mod identifiers;
pub mod numeric;
