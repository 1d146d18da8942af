//! A reader for HML, a human-writable markup language in which a run of
//! `#` characters introduces an element and gives its depth.
//!
//! The reader turns text into tokens, and tokens into a stream of
//! namespace-aware markup events (start and end of the document, start and
//! end of an element, content and comments).
pub mod error;
pub mod escape;
pub mod hml;
pub mod hml_reader;
pub mod markup;
pub mod names;
pub mod reader;
pub mod text;
