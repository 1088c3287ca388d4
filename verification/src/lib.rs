//! Verified core of the LUMOS schema toolkit.

pub mod anchor;
pub mod ast;
pub mod cargo_args;
pub mod cli_helpers;
pub mod commands;
pub mod compat;
pub mod diff;
pub mod error;
pub mod file_resolver;
pub mod generation;
pub mod generators;
pub mod ir;
pub mod migrate_code;
pub mod lsp;
pub mod metaplex;
pub mod migration;
pub mod module_resolver;
pub mod parser;
pub mod text;
pub mod transform;
