use wpbs::registry_listing::{
    group_by_registry, latest_cached_version, registry_file_url, registry_plugin_error_message,
    select_registry_plugin_version, Registry, RegistryPluginError, RegistryPlugins,
};
use wpbs::versions::{
    check_plugin_version_usability, get_plugin_matching_version, PluginVersion, RegistryPlugin,
    RegistryPluginVersion,
};

fn entry(version: &str, compatible: &str, deprecated: Option<bool>) -> RegistryPluginVersion {
    RegistryPluginVersion {
        version: version.to_string(),
        release_time: "2026-01-01T00:00:00Z".to_string(),
        compatible_program_version: compatible.to_string(),
        deprecated,
        deprecation_reason: None,
    }
}

fn program() -> PluginVersion {
    PluginVersion::parse("0.1.0").unwrap()
}

#[test]
fn version_parse_and_compare() {
    let a = PluginVersion::parse("1.10.0").unwrap();
    let b = PluginVersion::parse("1.9.0").unwrap();
    assert!(a.gt(&b));
    assert!(!b.gt(&a));
    assert!(!a.gt(&a.duplicate()));
    assert!(a.gt_zero());
    assert!(!PluginVersion::parse("0.0.0").unwrap().gt_zero());
    assert!(PluginVersion::parse("1.0").is_err());
    assert_eq!(a.to_string(), "1.10.0");
}

#[test]
fn deprecated_versions_are_not_usable() {
    let e = entry("1.0.0", "^0.1", Some(true));
    assert!(!check_plugin_version_usability(&e, &program()).unwrap());
}

#[test]
fn compatibility_follows_the_requirement() {
    assert!(check_plugin_version_usability(&entry("1.0.0", "^0.1", Some(false)), &program()).unwrap());
    assert!(!check_plugin_version_usability(&entry("1.0.0", ">=0.2", None), &program()).unwrap());
    assert!(check_plugin_version_usability(&entry("1.0.0", "not a requirement", None), &program()).is_err());
}

#[test]
fn latest_picks_the_greatest_usable_version() {
    let versions = vec![
        entry("0.1.0", "^0.1", None),
        entry("0.3.0", "^0.1", Some(true)),
        entry("0.2.0", "^0.1", None),
        entry("0.2.5", ">=0.2", None),
    ];
    let v = get_plugin_matching_version("latest", &versions, &program()).unwrap().unwrap();
    assert_eq!(v.as_str(), "0.2.0");
}

#[test]
fn latest_without_usable_version_is_none() {
    let versions = vec![entry("0.3.0", "^0.1", Some(true))];
    assert!(get_plugin_matching_version("latest", &versions, &program()).unwrap().is_none());
    let none: Vec<RegistryPluginVersion> = Vec::new();
    assert!(get_plugin_matching_version("latest", &none, &program()).unwrap().is_none());
}

#[test]
fn latest_with_a_bad_entry_is_an_error() {
    let versions = vec![entry("0.1.0", "^0.1", None), entry("zero", "^0.1", None)];
    assert!(get_plugin_matching_version("latest", &versions, &program()).is_err());
}

#[test]
fn exact_request_yields_the_requested_version() {
    let versions = vec![entry("0.1.0", "^0.1", None), entry("0.2.0", "^0.1", None)];
    let v = get_plugin_matching_version("0.1.0", &versions, &program()).unwrap().unwrap();
    assert_eq!(v.as_str(), "0.1.0");
    assert!(get_plugin_matching_version("0.9.0", &versions, &program()).unwrap().is_none());
}

#[test]
fn exact_request_of_unusable_version_is_none() {
    let versions = vec![entry("0.1.0", "^0.1", Some(true))];
    assert!(get_plugin_matching_version("0.1.0", &versions, &program()).unwrap().is_none());
}

fn registry() -> Registry {
    Registry {
        name: "Example".to_string(),
        description: "Example plugins".to_string(),
        maintainers: vec!["someone".to_string()],
        plugins: RegistryPlugins::from_entries(vec![(
            "ping".to_string(),
            RegistryPlugin {
                versions: vec![entry("0.1.0", "^0.1", None), entry("0.1.1", "^0.1", None)],
                description: "Answers pong".to_string(),
            },
        )]),
    }
}

#[test]
fn registry_lookup() {
    let r = registry();
    assert!(r.get_plugin("ping").is_some());
    assert!(r.get_plugin("pong").is_none());
    assert_eq!(r.get_plugin("ping").unwrap().description, "Answers pong");
}

#[test]
fn registry_version_selection() {
    let r = registry();
    let v = select_registry_plugin_version(&r, "ping", "latest", &program()).unwrap();
    assert_eq!(v.as_str(), "0.1.1");
    assert!(matches!(
        select_registry_plugin_version(&r, "pong", "latest", &program()),
        Err(RegistryPluginError::NotListed)
    ));
    assert!(matches!(
        select_registry_plugin_version(&r, "ping", "9.9.9", &program()),
        Err(RegistryPluginError::NoUsableVersion)
    ));
}

#[test]
fn registry_error_messages() {
    assert_eq!(
        registry_plugin_error_message(&RegistryPluginError::NotListed, "example.com", "pong", "x"),
        "The example.com registry has no pong plugin entry"
    );
    assert_eq!(
        registry_plugin_error_message(&RegistryPluginError::NoUsableVersion, "r", "p", "celarye/ping"),
        "The celarye/ping plugin has no version which isn't marked as deprecated and is compatible with this version of the program"
    );
    assert_eq!(
        registry_plugin_error_message(&RegistryPluginError::Version("bad".to_string()), "r", "p", "u"),
        "bad"
    );
}

#[test]
fn newest_cached_directory_wins() {
    let names = vec![
        "0.1.0".to_string(),
        "not-a-version".to_string(),
        "0.2.0".to_string(),
        "0.1.5".to_string(),
    ];
    assert_eq!(latest_cached_version(&names).unwrap().as_str(), "0.2.0");
    assert!(latest_cached_version(&vec!["0.0.0".to_string()]).is_none());
    assert!(latest_cached_version(&Vec::new()).is_none());
}

#[test]
fn plugins_are_grouped_by_registry_in_first_seen_order() {
    let items = vec![
        ("a".to_string(), 1),
        ("b".to_string(), 2),
        ("a".to_string(), 3),
    ];
    let groups = group_by_registry(items);
    assert_eq!(groups, vec![("a".to_string(), vec![1, 3]), ("b".to_string(), vec![2])]);
}

fn plugin(description: &str) -> RegistryPlugin {
    RegistryPlugin { versions: vec![entry("1.0.0", "^0.1", None)], description: description.to_string() }
}

#[test]
fn a_later_listing_entry_replaces_an_earlier_one() {
    let plugins = RegistryPlugins::from_entries(vec![
        ("ping".to_string(), plugin("first")),
        ("echo".to_string(), plugin("echo")),
        ("ping".to_string(), plugin("second")),
    ]);
    assert_eq!(plugins.get("ping").unwrap().description, "second");
    assert_eq!(plugins.get("echo").unwrap().description, "echo");
    assert!(plugins.get("pong").is_none());
}

#[test]
fn registry_file_urls() {
    assert_eq!(
        registry_file_url("example.com/plugins", "plugins.json").unwrap(),
        "https://example.com/plugins/plugins.json"
    );
    assert_eq!(
        registry_file_url("example.com", "ping/1.0.0/plugin.wasm").unwrap(),
        "https://example.com/ping/1.0.0/plugin.wasm"
    );
    assert!(registry_file_url("exa mple.com:99999", "plugins.json").is_none());
}

#[test]
fn latest_is_the_newest_usable_version() {
    let versions = vec![
        entry("1.2.0", "^0.1", None),
        entry("1.10.0", "^0.1", None),
        entry("1.9.9", "^0.1", None),
    ];
    let v = get_plugin_matching_version("latest", &versions, &program()).unwrap().unwrap();
    assert_eq!(v.as_str(), "1.10.0");
}
