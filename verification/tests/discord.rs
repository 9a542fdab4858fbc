use wpbs::discord_commands::{
    command_id_key, parse_command_entry_key, plan_command_registrations,
    record_registration_result, registration_failure_message, CommandKeyScope, ExistingCommand,
    PluginRegistrationResults, RegistrationTarget, RequestedCommand,
};
use wpbs::discord_events::{
    guild_shard_index, request_channel, route_event, unsupported_request_message, EventRoute,
    GatewayEventSummary, RequestChannel,
};
use wpbs::discord_kinds::{DiscordEventKinds, DiscordRequestKinds};
use wpbs::permissions::{PluginPermissionsDiscordEvents, PluginPermissionsDiscordRequests};

const UUID: u128 = 0x67e55044_10b1_426f_9247_bb680e5fe0c8;

fn uuid_text() -> String {
    uuid::Uuid::from_u128(UUID).to_string()
}

fn requested(plugin_uuid: u128, name: &str, guild_id: Option<u64>) -> RequestedCommand {
    RequestedCommand { plugin_uuid, name: name.to_string(), guild_id }
}

fn existing(name: &str, guild_id: Option<u64>, id: u64) -> ExistingCommand {
    ExistingCommand { name: name.to_string(), guild_id, id }
}

#[test]
fn component_interactions_route_to_the_plugin_in_the_custom_id() {
    let r = route_event(&GatewayEventSummary::MessageComponent(uuid_text()));
    assert!(matches!(r, EventRoute::MessageComponent(u) if u == UUID));
    let r = route_event(&GatewayEventSummary::ModalSubmit(uuid_text()));
    assert!(matches!(r, EventRoute::Modal(u) if u == UUID));
}

#[test]
fn unparsable_custom_ids_are_dropped() {
    let r = route_event(&GatewayEventSummary::MessageComponent("button-1".to_string()));
    assert!(matches!(r, EventRoute::Dropped));
    let r = route_event(&GatewayEventSummary::ModalSubmit(String::new()));
    assert!(matches!(r, EventRoute::Dropped));
}

#[test]
fn other_events_are_routed_by_kind() {
    assert!(matches!(
        route_event(&GatewayEventSummary::ApplicationCommand(42)),
        EventRoute::ApplicationCommand(42)
    ));
    assert!(matches!(
        route_event(&GatewayEventSummary::Subscribed(DiscordEventKinds::ThreadCreate)),
        EventRoute::Subscribers(ref p) if p == "THREAD_CREATE"
    ));
    assert!(matches!(route_event(&GatewayEventSummary::OtherInteraction), EventRoute::UnsupportedInteraction));
    assert!(matches!(route_event(&GatewayEventSummary::Other), EventRoute::UnsupportedEvent));
}

#[test]
fn event_kind_names() {
    assert_eq!(DiscordEventKinds::MessageCreate.to_string(), "MESSAGE_CREATE");
    assert_eq!(DiscordEventKinds::ThreadMembersUpdate.to_string(), "THREAD_MEMBERS_UPDATE");
    assert_eq!(DiscordEventKinds::ThreadListSync.to_string(), "THREAD_LIST_SYNC");
}

#[test]
fn guild_shard_follows_the_discord_formula() {
    let guild_id: u64 = (5u64 << 22) | 12345;
    assert_eq!(guild_shard_index(guild_id, 4), 1);
    assert_eq!(guild_shard_index(guild_id, 1), 0);
    assert_eq!(guild_shard_index(197038439483310086, 2), ((197038439483310086u64 >> 22) % 2) as usize);
}

#[test]
fn request_channels() {
    assert_eq!(request_channel(DiscordRequestKinds::RequestGuildMembers), RequestChannel::GuildShard);
    assert_eq!(request_channel(DiscordRequestKinds::UpdateVoiceState), RequestChannel::GuildShard);
    assert_eq!(request_channel(DiscordRequestKinds::UpdatePresence), RequestChannel::FirstShard);
    assert_eq!(request_channel(DiscordRequestKinds::RequestSoundboardSounds), RequestChannel::Unsupported);
    assert_eq!(request_channel(DiscordRequestKinds::CreateMessage), RequestChannel::Http);
    assert_eq!(
        unsupported_request_message(),
        "RequestSoundboardSounds has not yet been implemented in Twilight."
    );
}

#[test]
fn request_kinds_map_to_their_permission() {
    assert_eq!(
        PluginPermissionsDiscordRequests::from(DiscordRequestKinds::CreateMessage),
        PluginPermissionsDiscordRequests::CreateMessage
    );
    assert_eq!(
        PluginPermissionsDiscordRequests::from(DiscordRequestKinds::UpdateInteractionOriginal),
        PluginPermissionsDiscordRequests::UpdateInteractionOriginal
    );
    assert_eq!(
        PluginPermissionsDiscordEvents::from(DiscordEventKinds::InteractionCreate),
        PluginPermissionsDiscordEvents::InteractionCreate
    );
}

#[test]
fn duplicate_commands_are_numbered() {
    let req = vec![
        requested(1, "ping", None),
        requested(2, "ping", None),
        requested(1, "info", Some(7)),
        requested(2, "ping", Some(7)),
    ];
    let plan = plan_command_registrations(&req, &Vec::new(), CommandKeyScope::NameAndGuild);
    let names: Vec<&str> = plan.registrations.iter().map(|p| p.name.as_str()).collect();
    assert_eq!(names, vec!["ping-1", "ping-2", "info", "ping"]);
    assert!(plan.registrations.iter().all(|p| p.target == RegistrationTarget::Create));
    assert!(plan.deletions.is_empty());

    let plan = plan_command_registrations(&req, &Vec::new(), CommandKeyScope::NameOnly);
    let names: Vec<&str> = plan.registrations.iter().map(|p| p.name.as_str()).collect();
    assert_eq!(names, vec!["ping~1", "ping~2", "info", "ping~3"]);
}

#[test]
fn registered_commands_are_updated_or_deleted() {
    let req = vec![requested(1, "ping", None), requested(2, "ping", None), requested(1, "info", Some(7))];
    let old = vec![existing("ping-1", None, 10), existing("stale", None, 11), existing("info", Some(7), 12)];
    let plan = plan_command_registrations(&req, &old, CommandKeyScope::NameAndGuild);
    assert_eq!(plan.registrations.len(), 3);
    assert_eq!(plan.registrations[0].target, RegistrationTarget::Update(10));
    assert_eq!(plan.registrations[1].target, RegistrationTarget::Create);
    assert_eq!(plan.registrations[2].target, RegistrationTarget::Update(12));
    assert_eq!(plan.registrations[2].source, 2);
    assert_eq!(plan.registrations[2].plugin_uuid, 1);
    assert_eq!(plan.registrations[2].guild_id, Some(7));
    assert_eq!(plan.deletions.len(), 1);
    assert_eq!(plan.deletions[0].id, 11);
}

#[test]
fn a_registered_command_is_claimed_once() {
    let req = vec![requested(1, "ping", Some(3)), requested(2, "ping", Some(4))];
    let old = vec![existing("ping", Some(3), 20)];
    let plan = plan_command_registrations(&req, &old, CommandKeyScope::NameOnly);
    assert_eq!(plan.registrations[0].name, "ping~1");
    assert_eq!(plan.registrations[0].target, RegistrationTarget::Create);
    assert_eq!(plan.deletions.len(), 1);

    let plan = plan_command_registrations(&req, &old, CommandKeyScope::NameAndGuild);
    assert_eq!(plan.registrations[0].name, "ping");
    assert_eq!(plan.registrations[0].target, RegistrationTarget::Update(20));
    assert_eq!(plan.registrations[1].target, RegistrationTarget::Create);
    assert!(plan.deletions.is_empty());
}

#[test]
fn command_entry_keys_name_their_plugin() {
    assert_eq!(parse_command_entry_key(&format!("{}:ping", uuid_text())), Some(UUID));
    assert_eq!(parse_command_entry_key("no-separator"), None);
    assert_eq!(parse_command_entry_key("not-a-uuid:ping"), None);
}

#[test]
fn registration_messages_and_keys() {
    assert_eq!(
        registration_failure_message("ping", UUID),
        format!("Failed to register the ping command from the {} plugin", uuid_text())
    );
    assert_eq!(command_id_key(5), vec![5, 0, 0, 0, 0, 0, 0, 0]);
    assert_eq!(command_id_key(0x0102030405060708), vec![8, 7, 6, 5, 4, 3, 2, 1]);
    assert_eq!(command_id_key(1234567890123), 1234567890123u64.to_le_bytes().to_vec());
    assert_ne!(command_id_key(256), command_id_key(1));
}

#[test]
fn registration_results_are_recorded_per_plugin() {
    let mut all: Vec<PluginRegistrationResults> = Vec::new();
    record_registration_result(&mut all, 1, "ping".to_string(), Ok(10));
    record_registration_result(&mut all, 2, "ping".to_string(), Err("failed".to_string()));
    record_registration_result(&mut all, 1, "info".to_string(), Ok(11));
    record_registration_result(&mut all, 1, "ping".to_string(), Ok(12));
    assert_eq!(all.len(), 2);
    assert_eq!(all[0].plugin_uuid, 1);
    assert_eq!(
        all[0].results,
        vec![("ping".to_string(), Ok(12)), ("info".to_string(), Ok(11))]
    );
    assert_eq!(all[1].plugin_uuid, 2);
    assert_eq!(all[1].results, vec![("ping".to_string(), Err("failed".to_string()))]);
}

#[test]
fn every_unclaimed_command_is_deleted_once() {
    let req = vec![requested(1, "ping", None)];
    let old = vec![
        existing("a", None, 1),
        existing("b", Some(2), 2),
        existing("a", None, 3),
        existing("ping", None, 4),
    ];
    let plan = plan_command_registrations(&req, &old, CommandKeyScope::NameAndGuild);
    assert_eq!(plan.registrations[0].target, RegistrationTarget::Update(4));
    let mut ids: Vec<u64> = plan.deletions.iter().map(|d| d.id).collect();
    ids.sort();
    assert_eq!(ids, vec![2, 3]);
}
