//! What HML texts need beside the reader.
pub mod escape;
