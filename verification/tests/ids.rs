use wpbs::ids::{choose_plugin_uuid, plugin_uuid, uuid_from_bytes, uuid_to_bytes};
use wpbs::plugin_sources::{no_plugin_initialized_message, registry_id_for_namespace};
use wpbs::plugin_ref::DEFAULT_REGISTRY_ID;

const UUID: u128 = 0x67e55044_10b1_426f_9247_bb680e5fe0c8;

#[test]
fn uuid_bytes_are_the_uuid_crate_bytes() {
    assert_eq!(uuid_to_bytes(UUID), uuid::Uuid::from_u128(UUID).as_bytes().to_vec());
    assert_eq!(uuid_from_bytes(&uuid_to_bytes(UUID)), Some(UUID));
    assert_eq!(uuid_from_bytes(&[1, 2, 3]), None);
}

#[test]
fn stored_uuid_is_kept_and_missing_one_drawn() {
    let stored = uuid_to_bytes(UUID);
    assert_eq!(choose_plugin_uuid(Some(&stored), 7), Some(UUID));
    assert_eq!(choose_plugin_uuid(None, 7), Some(7));
    assert_eq!(choose_plugin_uuid(Some(&[0u8; 3]), 7), None);
    assert_eq!(plugin_uuid(Some(&stored)), Some(UUID));
    let a = plugin_uuid(None).unwrap();
    let b = plugin_uuid(None).unwrap();
    assert_ne!(a, b);
    assert_eq!(uuid::Uuid::from_u128(a).get_version_num(), 4);
}

#[test]
fn namespaces_name_their_registry() {
    assert_eq!(registry_id_for_namespace("wpbs-rs"), DEFAULT_REGISTRY_ID);
    assert_eq!(registry_id_for_namespace("example.com/plugins"), "example.com/plugins");
    assert_eq!(no_plugin_initialized_message(), "No plugin initialized successfully");
}
