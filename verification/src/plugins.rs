//! Plugin manifests and the capability-checked sandbox state of a loaded
//! plugin.
//!
//! Reading `plugin.json` and the WASM module from disk, and running the
//! module, is the caller's part.

use vstd::prelude::*;

verus! {

/// What a plugin adds to the harness.
#[derive(Clone, Copy, Debug, PartialEq, Eq, Structural)]
pub enum PluginCategory {
    /// A new model vendor behind the SOMI contract.
    SomiAdapter,
    /// A new node type for pipelines.
    PipelineNode,
    /// An enterprise integration.
    Integration,
}

/// The capabilities a plugin asks for.
pub struct PluginPermissions {
    pub network_hosts: Vec<String>,
    pub filesystem_reads: Vec<String>,
    pub required_secrets: Vec<String>,
}

/// Plugin manifest parsed from `plugin.json`.
pub struct PluginManifest {
    pub id: String,
    pub name: String,
    pub version: String,
    pub description: String,
    pub category: PluginCategory,
    pub entrypoint: String,
    pub permissions: PluginPermissions,
}

/// The strings of two lists are the same, in order.
pub open spec fn same_strings(a: Seq<String>, b: Seq<String>) -> bool {
    a.len() == b.len() && forall|i: int| 0 <= i < a.len() ==> #[trigger] a[i]@ == b[i]@
}

fn copy_strings(v: &Vec<String>) -> (r: Vec<String>)
    ensures
        same_strings(r@, v@),
{
    let mut r: Vec<String> = Vec::new();
    let mut i: usize = 0;
    while i < v.len()
        invariant
            i <= v.len(),
            r@.len() == i,
            forall|j: int| 0 <= j < i ==> #[trigger] r@[j]@ == v@[j]@,
        decreases v.len() - i,
    {
        r.push(v[i].clone());
        i = i + 1;
    }
    r
}

impl PluginPermissions {
    /// The two permission sets list the same hosts, paths and secrets.
    pub open spec fn same_as(&self, other: &PluginPermissions) -> bool {
        &&& same_strings(self.network_hosts@, other.network_hosts@)
        &&& same_strings(self.filesystem_reads@, other.filesystem_reads@)
        &&& same_strings(self.required_secrets@, other.required_secrets@)
    }

    /// The set grants no host, path or secret.
    pub open spec fn grants_nothing(&self) -> bool {
        &&& self.network_hosts@.len() == 0
        &&& self.filesystem_reads@.len() == 0
        &&& self.required_secrets@.len() == 0
    }

    /// The empty permission set.
    pub fn none() -> (p: Self)
        ensures
            p.grants_nothing(),
    {
        PluginPermissions { network_hosts: Vec::new(), filesystem_reads: Vec::new(), required_secrets: Vec::new() }
    }

    /// A copy of the permission set.
    pub fn duplicate(&self) -> (p: Self)
        ensures
            p.same_as(self),
    {
        PluginPermissions {
            network_hosts: copy_strings(&self.network_hosts),
            filesystem_reads: copy_strings(&self.filesystem_reads),
            required_secrets: copy_strings(&self.required_secrets),
        }
    }
}

/// Why a plugin call was refused.
#[derive(Clone, Debug, PartialEq, Eq)]
pub enum PluginError {
    /// The plugin with this id is disabled.
    Disabled(String),
}

/// A loaded, sandboxed plugin; it runs only once enabled.
pub struct SandboxedPlugin {
    pub manifest: PluginManifest,
    pub wasm_bytes: Vec<u8>,
    pub granted_permissions: PluginPermissions,
    pub is_enabled: bool,
}

impl SandboxedPlugin {
    /// A freshly loaded plugin, not yet active: it is disabled and granted
    /// nothing until the user approves the permissions its manifest asks
    /// for. `wasm_bytes` is the compiled module (empty until one is built).
    pub fn from_manifest(manifest: PluginManifest, wasm_bytes: Vec<u8>) -> (p: Self)
        ensures
            p.manifest == manifest,
            p.wasm_bytes == wasm_bytes,
            p.granted_permissions.grants_nothing(),
            !p.is_enabled,
    {
        SandboxedPlugin { manifest, wasm_bytes, granted_permissions: PluginPermissions::none(), is_enabled: false }
    }

    /// Records the user's explicit approval of the hosts, paths and secrets
    /// the manifest requests: the plugin is granted exactly those and
    /// becomes active.
    pub fn approve(&mut self)
        ensures
            final(self).manifest == old(self).manifest,
            final(self).wasm_bytes == old(self).wasm_bytes,
            final(self).granted_permissions.same_as(&old(self).manifest.permissions),
            final(self).is_enabled,
    {
        self.granted_permissions = self.manifest.permissions.duplicate();
        self.is_enabled = true;
    }

    /// Checks that the plugin may run: disabled plugins are refused.
    pub fn check_enabled(&self) -> (r: Result<(), PluginError>)
        ensures
            r is Ok <==> self.is_enabled,
            r matches Err(PluginError::Disabled(id)) ==> id@ == self.manifest.id@,
    {
        if self.is_enabled {
            Ok(())
        } else {
            Err(PluginError::Disabled(self.manifest.id.clone()))
        }
    }
}

} // verus!
