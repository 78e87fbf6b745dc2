//! Workspace tooling for the ZPR development workspace: the workspace
//! manifest, build sets, the compatibility gates, the build recipes and the
//! test-tier planning, each stated and proved in Verus.

pub mod build;
pub mod config;
pub mod git;
pub mod order;
pub mod text;
pub mod toml_tree;
