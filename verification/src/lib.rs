//! A catalog of community assets, built from a directory of descriptor
//! files: the tree of sections and assets, and the rules by which each
//! asset gets its licenses and framework versions from the host of its link.
//!
//! Nothing here reads a file or talks to a network. The caller lists the
//! directory (`walk::entry_kind` says which entries matter) and hands the
//! listing to `parse_assets`; for each asset it then runs the exchange of
//! `enrich::begin` and `enrich::advance`, fetching what they ask for.

pub mod catalog;
pub mod category;
pub mod content;
pub mod descriptor;
pub mod document;
pub mod enrich;
pub mod github_client;
pub mod gitlab_client;
pub mod keyed;
pub mod license;
pub mod link;
pub mod manifest;
pub mod reorder;
pub mod text;
pub mod walk;

pub use crate::catalog::{Asset, AssetNode, Section};
pub use crate::walk::parse_assets;
