use wpbs::plugin_ref::{
    parse_plugin_string_namespace_id, parse_plugin_string_registry_id,
    parse_plugin_string_requested_version, parse_plugin_string_version, plugin_url_segment,
    plugin_uuid_key, PluginStringError, DEFAULT_NAMESPACE_ID, DEFAULT_REGISTRY_ID,
};
use wpbs::plugin_sources::{
    collect_available, local_plugin_path_segments, no_plugins_message,
    plugin_binary_path_segments, plugin_workspace_path_segments, resolve_plugin_reference,
};
use wpbs::versions::PluginVersion;

#[test]
fn registry_id_is_everything_before_the_last_slash() {
    let (registry, rest) = parse_plugin_string_registry_id("example.com/plugins/wpbs-rs/ping:1.0.0");
    assert_eq!(registry, "example.com/plugins/wpbs-rs");
    assert_eq!(rest, "ping:1.0.0");
}

#[test]
fn registry_id_defaults_without_a_slash() {
    let (registry, rest) = parse_plugin_string_registry_id("ping:1.0.0");
    assert_eq!(registry, DEFAULT_REGISTRY_ID);
    assert_eq!(
        registry,
        "raw.githubusercontent.com/celarye/discord-bot-plugins/refs/heads/master"
    );
    assert_eq!(rest, "ping:1.0.0");
}

#[test]
fn requested_version_after_the_last_colon() {
    assert_eq!(parse_plugin_string_requested_version("ping:1.2.3"), ("ping", "1.2.3"));
    assert_eq!(parse_plugin_string_requested_version("a:b:c"), ("a:b", "c"));
}

#[test]
fn requested_version_defaults_to_latest() {
    assert_eq!(parse_plugin_string_requested_version("ping"), ("ping", "latest"));
}

#[test]
fn namespace_id_before_the_last_slash() {
    assert_eq!(
        parse_plugin_string_namespace_id("celarye/ping"),
        ("celarye".to_string(), "ping".to_string())
    );
}

#[test]
fn namespace_id_defaults_to_the_project_namespace() {
    assert_eq!(
        parse_plugin_string_namespace_id("ping"),
        (DEFAULT_NAMESPACE_ID.to_string(), "ping".to_string())
    );
    assert_eq!(DEFAULT_NAMESPACE_ID, "wpbs-rs");
}

#[test]
fn plugin_string_version_is_parsed() {
    let (plugin, version) = parse_plugin_string_version("local/ping:1.2.3").unwrap();
    assert_eq!(plugin, "local/ping");
    assert_eq!(version.as_str(), "1.2.3");
}

#[test]
fn plugin_string_without_version_is_refused() {
    let r = parse_plugin_string_version("local/ping");
    assert!(matches!(r, Err(PluginStringError::MissingVersion)));
    if let Err(e) = r {
        assert_eq!(e.message(), "A version is required");
    }
}

#[test]
fn plugin_string_with_bad_version_is_refused() {
    let r = parse_plugin_string_version("local/ping:one");
    assert!(matches!(r, Err(PluginStringError::InvalidVersion(_))));
    if let Err(e) = r {
        assert_eq!(e.message(), semver::Version::parse("one").unwrap_err().to_string());
    }
}

#[test]
fn uuid_key_joins_the_plugin_coordinates() {
    let v = PluginVersion::parse("1.2.3").unwrap();
    assert_eq!(
        plugin_uuid_key("celarye", "ping", &v, "bot", "main"),
        "celarye:ping@1.2.3:bot:main"
    );
}

#[test]
fn url_segment_has_id_and_version() {
    let v = PluginVersion::parse("0.4.0-beta.1").unwrap();
    assert_eq!(plugin_url_segment("ping", &v), "ping/0.4.0-beta.1/");
}

#[test]
fn reference_resolution_splits_namespace_id_and_version() {
    let r = resolve_plugin_reference("local/ping:1.0.0").unwrap();
    assert_eq!(r.namespace_id, "local");
    assert_eq!(r.plugin_id, "ping");
    assert_eq!(r.version.as_str(), "1.0.0");
    assert!(r.is_local());

    let r = resolve_plugin_reference("ping:2.0.0").unwrap();
    assert_eq!(r.namespace_id, "wpbs-rs");
    assert!(!r.is_local());
}

#[test]
fn reference_resolution_errors() {
    assert!(matches!(resolve_plugin_reference("ping"), Err(PluginStringError::MissingVersion)));
    assert!(matches!(
        resolve_plugin_reference("ping:x.y"),
        Err(PluginStringError::InvalidVersion(_))
    ));
}

#[test]
fn plugin_paths() {
    let v = PluginVersion::parse("1.0.0").unwrap();
    assert_eq!(local_plugin_path_segments("ping", &v), vec!["ping", "1.0.0", "plugin.wasm"]);
    assert_eq!(
        plugin_binary_path_segments("celarye", "ping", &v, None),
        vec!["binaries", "celarye", "ping", "1.0.0", "plugin.wasm"]
    );
    assert_eq!(
        plugin_binary_path_segments("celarye", "ping", &v, Some("abcd")),
        vec!["binaries", "remote", "sha256:abcd"]
    );
    assert_eq!(plugin_workspace_path_segments("bot", "main"), vec!["workspaces", "bot", "main"]);
}

#[test]
fn available_plugins_keep_their_order() {
    let results: Vec<Result<u32, String>> =
        vec![Ok(1), Err("a".to_string()), Ok(2), Err("b".to_string())];
    let (oks, errs) = collect_available(results).unwrap();
    assert_eq!(oks, vec![1, 2]);
    assert_eq!(errs, vec!["a".to_string(), "b".to_string()]);
}

#[test]
fn no_available_plugin_is_an_error() {
    let results: Vec<Result<u32, String>> = vec![Err("a".to_string())];
    match collect_available(results) {
        Err(errs) => assert_eq!(errs, vec!["a".to_string()]),
        Ok(_) => panic!("expected an error"),
    }
    assert_eq!(no_plugins_message(), "No plugins are available for the runtime");
}
