//! Structural analysis of a polyglot JVM-family source workspace.
//!
//! The library decides which build tools and source languages a workspace
//! holds (`jvm`), turns ctags-style tag-file lines into raw class records
//! (`ctags_parser`), merges those records into a resolved class graph
//! (`class_graph`), and selects and aggregates the per-language analyzer
//! plugins (`plugin_manager`). Opening the plugin libraries themselves is
//! left to the host application; the library computes the artifact paths
//! and folds every plugin outcome, success or failure, into one run result.

pub mod strutil;
pub mod jvm;
pub mod coco_struct;
pub mod ctags_parser;
pub mod class_graph;
pub mod plugin_manager;
