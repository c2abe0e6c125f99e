//! Package acquisition and build-artifact reuse for a project-based build tool.
//!
//! The crate holds the decisions of the registry client, the package manager
//! and the build artifact cache as functions on plain values, each with a
//! proved contract. Reading and writing files and talking to remote
//! services is left to the caller, who hands the results in as values.

pub mod text;
pub mod error;
pub mod glob;
pub mod cache;
pub mod config;
pub mod dependencies;
pub mod registry;
pub mod package_manager;
pub mod templates;
pub mod validator;
pub mod testing;
pub mod env_manager;
pub mod multi_target;
pub mod dev_server;
pub mod i18n;
pub mod version_manager;
pub mod audit;
pub mod secrets;
pub mod packager;
pub mod scaffold;

use vstd::prelude::*;

verus! {

/// The entry point of the tool kit.
#[derive(Debug, Clone, Copy, PartialEq, Eq, Structural)]
pub struct ForgeKit;

impl ForgeKit {
    /// Create a new ForgeKit instance
    pub fn new() -> (r: Self)
        ensures
            r == ForgeKit,
    {
        ForgeKit
    }
}

impl Default for ForgeKit {
    fn default() -> (r: Self)
        ensures
            r == ForgeKit,
    {
        ForgeKit::new()
    }
}

} // verus!
pub mod plugin;
pub mod asset_optimizer;
pub mod analytics;
