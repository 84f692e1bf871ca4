//! Un-parser for Ruby syntax trees: regenerates normalized source text from a
//! tree handed over by a front-end parser, the source text that tree was
//! parsed from, and a small style configuration, keeping every comment.

pub mod ast;
pub mod comments;
pub mod config;
pub mod diagnostics;
pub mod emitter;
pub mod error;
pub mod laws;
pub mod layout;
pub mod limits;
pub mod policy;
pub mod prism;
pub mod text;
