//! Sources of characters for the markup readers: positions in a text, spans
//! between two positions, and a text that can be read at any position.
pub mod position;
pub mod span;
pub mod string;
