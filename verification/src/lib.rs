//! Structural lint rules for TypeScript projects: the rule checks, the
//! report model and its renderings, and the rule documentation catalog.

pub mod chars;
pub mod counting;
pub mod config;
pub mod paths;
pub mod syntax;
pub mod rules;
pub mod sorting;
pub mod order;
pub mod diagnostics;
pub mod report;
pub mod ignore;
pub mod jsx;
pub mod lexer;
pub mod import_graph;
pub mod workspace;
pub mod program;
pub mod rule_adapters;
pub mod directory_inventory;
pub mod directory_tree;

pub mod rule_documentation;
