//! The HML reader: character classes, tokens, the lexer and the event parser.
pub mod builder;
pub mod lexer;
pub mod parser;
pub mod stream;
pub mod token;
pub mod utils;
