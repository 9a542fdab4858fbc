//! Plugin references as written in the configuration: `[namespace/]plugin:version`
//! (a namespace, or a registry address, before the last `/`; a version after
//! the last `:`), and the keys and paths derived from them.

use vstd::prelude::*;

use crate::text::{rsplit_once_char, spec_rsplit_once};
use crate::versions::{spec_version_display, spec_version_parses, PluginVersion, VersionError};

verus! {

/// The registry used when a plugin reference names none.
pub const DEFAULT_REGISTRY_ID: &'static str = "raw.githubusercontent.com/celarye/discord-bot-plugins/refs/heads/master";

/// The namespace used when a plugin reference names none.
pub const DEFAULT_NAMESPACE_ID: &'static str = "wpbs-rs";

/// Splits a plugin reference into its registry and the rest; without a `/`
/// the default registry is used.
pub fn parse_plugin_string_registry_id<'a>(value: &'a str) -> (r: (&'a str, &'a str))
    ensures
        match spec_rsplit_once(value@, '/') {
            Some((a, b)) => r.0@ == a && r.1@ == b,
            None => r.0@ == DEFAULT_REGISTRY_ID@ && r.1@ == value@,
        },
{
    match rsplit_once_char(value, '/') {
        Some((registry_id, plugin_string)) => (registry_id, plugin_string),
        None => (DEFAULT_REGISTRY_ID, value),
    }
}

/// Splits a plugin reference into the plugin and the requested version; a
/// reference without `:` requests `latest`.
pub fn parse_plugin_string_requested_version<'a>(value: &'a str) -> (r: (&'a str, &'a str))
    ensures
        match spec_rsplit_once(value@, ':') {
            Some((a, b)) => r.0@ == a && r.1@ == b,
            None => r.0@ == value@ && r.1@ == "latest"@,
        },
{
    match rsplit_once_char(value, ':') {
        Some((plugin_string, requested_version)) => (plugin_string, requested_version),
        None => (value, "latest"),
    }
}

/// Splits a plugin reference into its namespace and plugin id; without a `/`
/// the default namespace is used.
pub fn parse_plugin_string_namespace_id(value: &str) -> (r: (String, String))
    ensures
        match spec_rsplit_once(value@, '/') {
            Some((a, b)) => r.0@ == a && r.1@ == b,
            None => r.0@ == DEFAULT_NAMESPACE_ID@ && r.1@ == value@,
        },
{
    match rsplit_once_char(value, '/') {
        Some((namespace_id, plugin_string)) => (namespace_id.to_string(), plugin_string.to_string()),
        None => (DEFAULT_NAMESPACE_ID.to_string(), value.to_string()),
    }
}

/// Why a plugin reference was refused.
#[derive(Debug)]
pub enum PluginStringError {
    /// The reference has no `:version` part.
    MissingVersion,
    /// The version part is not a semantic version.
    InvalidVersion(VersionError),
}

impl PluginStringError {
    /// The message this error reads as.
    pub fn message(&self) -> (r: String)
        ensures
            self is MissingVersion ==> r@ == "A version is required"@,
            self matches PluginStringError::InvalidVersion(e) ==> r@ == e.message@,
    {
        match self {
            PluginStringError::MissingVersion => "A version is required".to_string(),
            PluginStringError::InvalidVersion(e) => e.message.clone(),
        }
    }
}

/// Splits a plugin reference into the plugin and its version, which is
/// required and must be a semantic version.
pub fn parse_plugin_string_version(value: &str) -> (r: Result<(String, PluginVersion), PluginStringError>)
    ensures
        match spec_rsplit_once(value@, ':') {
            None => r matches Err(PluginStringError::MissingVersion),
            Some((a, b)) => if spec_version_parses(b) {
                r matches Ok((p, v)) && p@ == a && v@ == b
            } else {
                r matches Err(PluginStringError::InvalidVersion(_))
            },
        },
{
    match rsplit_once_char(value, ':') {
        Some((plugin_string, requested_version)) => match PluginVersion::parse(requested_version) {
            Ok(version) => Ok((plugin_string.to_string(), version)),
            Err(e) => Err(PluginStringError::InvalidVersion(e)),
        },
        None => Err(PluginStringError::MissingVersion),
    }
}

/// The database key under which a plugin instance keeps its UUID:
/// `namespace:plugin@version:config:user_id`.
pub open spec fn spec_plugin_key(
    namespace_id: Seq<char>,
    plugin_id: Seq<char>,
    version: Seq<char>,
    config_name: Seq<char>,
    user_id: Seq<char>,
) -> Seq<char> {
    namespace_id + ":"@ + plugin_id + "@"@ + spec_version_display(version) + ":"@ + config_name + ":"@ + user_id
}

/// Builds the database key under which a plugin instance keeps its UUID.
pub fn plugin_uuid_key(
    namespace_id: &str,
    plugin_id: &str,
    plugin_version: &PluginVersion,
    config_name: &str,
    plugin_user_id: &str,
) -> (r: String)
    ensures
        r@ == spec_plugin_key(namespace_id@, plugin_id@, plugin_version@, config_name@, plugin_user_id@),
{
    let mut key = namespace_id.to_string();
    key.append(":");
    key.append(plugin_id);
    key.append("@");
    let version = plugin_version.to_string();
    key.append(version.as_str());
    key.append(":");
    key.append(config_name);
    key.append(":");
    key.append(plugin_user_id);
    key
}

/// The path segment under which a registry serves the files of one plugin
/// version: `plugin/version/`.
pub fn plugin_url_segment(plugin_id: &str, plugin_version: &PluginVersion) -> (r: String)
    ensures
        r@ == plugin_id@ + "/"@ + spec_version_display(plugin_version@) + "/"@,
{
    let mut segment = plugin_id.to_string();
    segment.append("/");
    let version = plugin_version.to_string();
    segment.append(version.as_str());
    segment.append("/");
    segment
}

} // verus!
