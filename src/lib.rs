//! The include directive of a small template language.
//!
//! `{% include 'name' %}` (or `{% include name %}`) looks a partial up in an
//! [`source::IncludeSource`], compiles its text with the same options as the
//! enclosing template, and keeps the compiled partial in the node it builds.
//! Rendering that node renders the partial with the caller's own context.
//! Failures inside a partial, at compile time or at render time, come back
//! with one annotation per enclosing directive, innermost first. Nesting is
//! bounded by [`parser::Options::max_depth`], so a partial that includes
//! itself fails instead of recursing without end.
//!
//! The modules, leaves first: `token` and `lexer` split text into elements,
//! `bindings` and `source` hold named text, `template` holds compiled nodes
//! and renders them, `parser` compiles elements and resolves partials, and
//! `laws` states what holds of them together.

pub mod bindings;
pub mod error;
pub mod laws;
pub mod lexer;
pub mod parser;
pub mod source;
pub mod template;
pub mod token;
