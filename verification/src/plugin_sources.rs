//! Where a configured plugin comes from and where its files live: a plugin
//! of the `local` namespace is read from the local binaries directory; any
//! other is fetched from its registry and cached by content digest. Plugins
//! that cannot be had are left out, and the runtime needs at least one.

use vstd::prelude::*;

use crate::plugin_ref::{
    parse_plugin_string_namespace_id, parse_plugin_string_version, PluginStringError, DEFAULT_NAMESPACE_ID,
    DEFAULT_REGISTRY_ID,
};
use crate::text::{spec_rsplit_once, str_eq};
use crate::versions::{spec_version_display, spec_version_parses, PluginVersion};

verus! {

/// A configured plugin reference, read.
pub struct PluginReference {
    pub namespace_id: String,
    pub plugin_id: String,
    pub version: PluginVersion,
}

impl PluginReference {
    /// Whether the plugin is one of the locally provided binaries.
    pub fn is_local(&self) -> (r: bool)
        ensures
            r == (self.namespace_id@ == "local"@),
    {
        str_eq(self.namespace_id.as_str(), "local")
    }
}

/// Reads a plugin reference `[namespace/]plugin:version`.
pub fn resolve_plugin_reference(plugin: &str) -> (r: Result<PluginReference, PluginStringError>)
    ensures
        match spec_rsplit_once(plugin@, ':') {
            None => r matches Err(PluginStringError::MissingVersion),
            Some((p, v)) => if spec_version_parses(v) {
                r matches Ok(reference) && reference.version@ == v && match spec_rsplit_once(p, '/') {
                    Some((n, id)) => reference.namespace_id@ == n && reference.plugin_id@ == id,
                    None => reference.namespace_id@ == "wpbs-rs"@ && reference.plugin_id@ == p,
                }
            } else {
                r matches Err(PluginStringError::InvalidVersion(_))
            },
        },
{
    let (plugin_string, version) = match parse_plugin_string_version(plugin) {
        Ok(parts) => parts,
        Err(e) => return Err(e),
    };
    let (namespace_id, plugin_id) = parse_plugin_string_namespace_id(plugin_string.as_str());
    Ok(PluginReference { namespace_id, plugin_id, version })
}

/// The path, below the local binaries directory, of a local plugin's
/// binary: `plugin/version/plugin.wasm`.
pub fn local_plugin_path_segments(plugin_id: &str, version: &PluginVersion) -> (r: Vec<String>)
    ensures
        r@.len() == 3,
        r@[0]@ == plugin_id@,
        r@[1]@ == spec_version_display(version@),
        r@[2]@ == "plugin.wasm"@,
{
    let mut segments: Vec<String> = Vec::new();
    segments.push(plugin_id.to_string());
    segments.push(version.to_string());
    segments.push("plugin.wasm".to_string());
    segments
}

/// The path, below the plugin directory, of a plugin's binary: the cached
/// download `binaries/remote/sha256:<digest>` for a fetched plugin, and
/// `binaries/<namespace>/<plugin>/<version>/plugin.wasm` otherwise.
pub fn plugin_binary_path_segments(
    namespace_id: &str,
    plugin_id: &str,
    version: &PluginVersion,
    sha256_digest: Option<&str>,
) -> (r: Vec<String>)
    ensures
        match sha256_digest {
            Some(hex) => r@.len() == 3 && r@[0]@ == "binaries"@ && r@[1]@ == "remote"@
                && r@[2]@ == "sha256:"@ + hex@,
            None => r@.len() == 5 && r@[0]@ == "binaries"@ && r@[1]@ == namespace_id@
                && r@[2]@ == plugin_id@ && r@[3]@ == spec_version_display(version@)
                && r@[4]@ == "plugin.wasm"@,
        },
{
    let mut segments: Vec<String> = Vec::new();
    segments.push("binaries".to_string());
    match sha256_digest {
        Some(hex) => {
            segments.push("remote".to_string());
            let mut name = "sha256:".to_string();
            name.append(hex);
            segments.push(name);
        },
        None => {
            segments.push(namespace_id.to_string());
            segments.push(plugin_id.to_string());
            segments.push(version.to_string());
            segments.push("plugin.wasm".to_string());
        },
    }
    segments
}

/// The path, below the plugin directory, of the workspace of a plugin
/// instance: `workspaces/<config>/<user id>`.
pub fn plugin_workspace_path_segments(config_name: &str, user_id: &str) -> (r: Vec<String>)
    ensures
        r@.len() == 3,
        r@[0]@ == "workspaces"@,
        r@[1]@ == config_name@,
        r@[2]@ == user_id@,
{
    let mut segments: Vec<String> = Vec::new();
    segments.push("workspaces".to_string());
    segments.push(config_name.to_string());
    segments.push(user_id.to_string());
    segments
}

/// The successes among the results, in order.
pub open spec fn successes<T, E>(results: Seq<Result<T, E>>) -> Seq<T>
    decreases results.len(),
{
    if results.len() == 0 {
        Seq::empty()
    } else {
        let p = successes(results.drop_last());
        match results.last() {
            Ok(t) => p.push(t),
            Err(_) => p,
        }
    }
}

/// The failures among the results, in order.
pub open spec fn failures<T, E>(results: Seq<Result<T, E>>) -> Seq<E>
    decreases results.len(),
{
    if results.len() == 0 {
        Seq::empty()
    } else {
        let p = failures(results.drop_last());
        match results.last() {
            Ok(_) => p,
            Err(e) => p.push(e),
        }
    }
}

/// The plugins that could be had, and the errors of those that could not;
/// `Err` with the errors when no plugin could be had.
pub fn collect_available<T, E>(results: Vec<Result<T, E>>) -> (r: Result<(Vec<T>, Vec<E>), Vec<E>>)
    ensures
        successes(results@).len() > 0 ==> (r matches Ok((oks, errs)) && oks@ == successes(results@)
            && errs@ == failures(results@)),
        successes(results@).len() == 0 ==> (r matches Err(errs) && errs@ == failures(results@)),
{
    let ghost all = results@;
    let mut oks: Vec<T> = Vec::new();
    let mut errs: Vec<E> = Vec::new();
    let mut rest = results;
    let mut n: usize = 0;
    proof {
        assert(rest@ =~= all.subrange(0, all.len() as int));
        assert(all.len() == rest.len());
    }
    while rest.len() > 0
        invariant
            n + rest.len() == all.len(),
            all.len() <= usize::MAX,
            rest@ == all.subrange(n as int, all.len() as int),
            oks@ == successes(all.subrange(0, n as int)),
            errs@ == failures(all.subrange(0, n as int)),
        decreases rest.len(),
    {
        let item = rest.remove(0);
        proof {
            assert(all.subrange(0, n + 1).drop_last() =~= all.subrange(0, n as int));
            assert(all.subrange(0, n + 1).last() == item);
            assert(rest@ =~= all.subrange(n + 1, all.len() as int));
        }
        match item {
            Ok(t) => oks.push(t),
            Err(e) => errs.push(e),
        }
        n = n + 1;
    }
    proof {
        assert(all.subrange(0, all.len() as int) =~= all);
    }
    if oks.len() == 0 {
        Err(errs)
    } else {
        Ok((oks, errs))
    }
}

/// The message given when no plugin could be had.
pub fn no_plugins_message() -> (r: String)
    ensures
        r@ == "No plugins are available for the runtime"@,
{
    "No plugins are available for the runtime".to_string()
}

/// The registry a plugin namespace is fetched from: the default namespace
/// stands for the default registry, any other namespace names its registry.
pub fn registry_id_for_namespace(namespace_id: &str) -> (r: String)
    ensures
        r@ == (if namespace_id@ == DEFAULT_NAMESPACE_ID@ { DEFAULT_REGISTRY_ID@ } else { namespace_id@ }),
{
    if str_eq(namespace_id, DEFAULT_NAMESPACE_ID) {
        DEFAULT_REGISTRY_ID.to_string()
    } else {
        namespace_id.to_string()
    }
}

/// The error when no plugin could be initialized.
pub fn no_plugin_initialized_message() -> (r: String)
    ensures
        r@ == "No plugin initialized successfully"@,
{
    "No plugin initialized successfully".to_string()
}

} // verus!
