//! Names and namespaces: the identifiers of prefixes, URIs and names, the
//! pool that holds their strings, the stack of namespace declarations, and
//! the names, attributes and tags that are built from them.
pub mod attribute;
pub mod ids;
pub mod name;
pub mod namespace;
pub mod namespace_stack;
pub mod tag;
