//! Plain descriptions of a plugin: what it may touch and what it needs.

use vstd::prelude::*;

verus! {

/// A permission of a plugin on a resource.
#[derive(Clone, Debug)]
pub struct PluginPermission {
    pub resource: String,
    pub action: String,
    pub granted: bool,
}

/// Another plugin that a plugin depends on.
#[derive(Clone, Debug)]
pub struct PluginDependency {
    pub name: String,
    pub version: String,
    pub optional: bool,
}

} // verus!
