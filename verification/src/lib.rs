//! Memory Stream: a Markdown knowledge-card engine.
//!
//! The crate parses Markdown into an abstract syntax tree, renders that tree
//! to sanitised HTML, extracts tables of contents, and carries the small
//! pieces of text logic that the desktop client builds on (front-matter
//! handling, wikilink rewriting, configuration checks).

pub mod admin;
pub mod ast_core;
pub mod compress;
pub mod draft;
pub mod graph;
pub mod md_parser;
pub mod ms_ast;
pub mod ms_io;
pub mod pattern;
pub mod renderer;
pub mod slug;
pub mod text;
