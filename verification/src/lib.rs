//! Language-server logic for the Qi programming language: positions and
//! text handling, semantic tokens, folding, formatting ranges, symbol
//! search over the syntax tree, diagnostics and request routing.

pub mod unicode;
pub mod strings;
pub mod position;
pub mod text;
pub mod excerpt;
pub mod word;
pub mod packages;
pub mod definition;
pub mod references;
pub mod rename;
pub mod hover;
pub mod document_symbols;
pub mod workspace_symbols;
pub mod folding;
pub mod formatting;
pub mod completion;
pub mod diagnostics;
pub mod semantic;
pub mod server;
pub mod ast;
pub mod type_text;
pub mod rope_text;
pub mod document;
pub mod semantic_tokens;
pub mod build_task;
