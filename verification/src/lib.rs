//! A recursive-descent parser for a template language that mixes markup
//! elements, brace-delimited interpolations with a formatting
//! mini-language, and structured control blocks.
//!
//! The parser works on a tree of already lexed tokens and produces a typed
//! syntax tree. Every parsing function is specified by a pure function over
//! the mathematical view of the token sequence.

pub mod cursor;
pub mod error;
pub mod host;
pub mod lexer;
pub mod syntax;
pub mod text;
pub mod token;
