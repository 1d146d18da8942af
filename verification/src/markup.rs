//! The events of a markup stream.
pub mod event;
