//! Extracts documentation metadata (doc comments, functions, commands,
//! variables and flags) from vimscript sources and whole vim plugins.
//!
//! The grammar-independent logic works on [TreeNode], a plain-value copy of
//! a syntax tree; [VimParser] produces one with tree-sitter and feeds it in.
//! A plugin's files are chosen and ordered by [plugin_file_order].

pub mod classify;
pub mod data;
pub mod docs;
pub mod equivalence;
pub mod grammar;
pub mod module;
pub mod sections;
pub mod tree;

pub use crate::data::{ModuleView, NodeView, VimModule, VimNode, VimPlugin};
pub use crate::grammar::{vim_language, Error, VimParser};
pub use crate::module::{parse_module_tree, Diagnostic};
pub use crate::sections::{module_at, order_in_sections, plugin_file_order, PluginEntry};
pub use crate::tree::{NodeKind, TreeNode};
