//! The knowledge-card syntax tree: node types, traversal, tables of contents
//! and the Markdown parser that produces it.

pub mod builder;
pub mod document;
pub mod error;
pub mod events;
pub mod model;
pub mod node;
pub mod parser;
pub mod toc;

pub mod visitor;
