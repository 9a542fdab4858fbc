//! Where the Discord service sends what it receives and what plugins ask of
//! it: gateway events are routed to the plugins registered for them, and a
//! plugin's request goes to a gateway shard or to the HTTP API.

use vstd::prelude::*;

use crate::discord_kinds::{event_name, DiscordEventKinds, DiscordRequestKinds};
use crate::ids::{spec_uuid_parse, uuid_parse};

verus! {

/// The part of a gateway event that decides where it goes.
pub enum GatewayEventSummary {
    /// An application command interaction, with the command's id.
    ApplicationCommand(u64),
    /// A message component interaction, with the component's custom id.
    MessageComponent(String),
    /// A modal submission, with the modal's custom id.
    ModalSubmit(String),
    /// Any other interaction.
    OtherInteraction,
    /// An event that plugins subscribe to by kind.
    Subscribed(DiscordEventKinds),
    /// Any other event.
    Other,
}

/// Where a gateway event goes.
#[derive(Debug)]
pub enum EventRoute {
    /// To the plugin stored for this application command id in the
    /// `discord_application_commands` keyspace.
    ApplicationCommand(u64),
    /// To the plugin stored for this component UUID in the
    /// `discord_message_components` keyspace.
    MessageComponent(u128),
    /// To the plugin stored for this modal UUID in the `discord_modals`
    /// keyspace.
    Modal(u128),
    /// To every plugin stored under this prefix (the event's name) in the
    /// `discord_events` keyspace.
    Subscribers(String),
    /// Nowhere: a component or modal whose custom id is not a UUID.
    Dropped,
    /// Nowhere, and reported as an unsupported interaction.
    UnsupportedInteraction,
    /// Nowhere, and reported as an unsupported event.
    UnsupportedEvent,
}

/// Decides where a gateway event goes.
pub fn route_event(event: &GatewayEventSummary) -> (r: EventRoute)
    ensures
        match event {
            GatewayEventSummary::ApplicationCommand(id) => r matches EventRoute::ApplicationCommand(x) && x == id,
            GatewayEventSummary::MessageComponent(custom_id) => match spec_uuid_parse(custom_id@) {
                Some(u) => r matches EventRoute::MessageComponent(x) && x == u,
                None => r is Dropped,
            },
            GatewayEventSummary::ModalSubmit(custom_id) => match spec_uuid_parse(custom_id@) {
                Some(u) => r matches EventRoute::Modal(x) && x == u,
                None => r is Dropped,
            },
            GatewayEventSummary::OtherInteraction => r is UnsupportedInteraction,
            GatewayEventSummary::Subscribed(kind) => r matches EventRoute::Subscribers(p) && p@ == event_name(*kind),
            GatewayEventSummary::Other => r is UnsupportedEvent,
        },
{
    match event {
        GatewayEventSummary::ApplicationCommand(id) => EventRoute::ApplicationCommand(*id),
        GatewayEventSummary::MessageComponent(custom_id) => match uuid_parse(custom_id.as_str()) {
            Some(u) => EventRoute::MessageComponent(u),
            None => EventRoute::Dropped,
        },
        GatewayEventSummary::ModalSubmit(custom_id) => match uuid_parse(custom_id.as_str()) {
            Some(u) => EventRoute::Modal(u),
            None => EventRoute::Dropped,
        },
        GatewayEventSummary::OtherInteraction => EventRoute::UnsupportedInteraction,
        GatewayEventSummary::Subscribed(kind) => EventRoute::Subscribers(kind.to_string()),
        GatewayEventSummary::Other => EventRoute::UnsupportedEvent,
    }
}

/// The index of the gateway shard that serves a guild: the guild id without
/// its 22 timestamp-free low bits, modulo the number of shards.
pub open spec fn spec_guild_shard(guild_id: u64, shard_count: usize) -> int {
    ((guild_id >> 22u64) as usize) as int % shard_count as int
}

/// The index of the gateway shard that serves a guild.
pub fn guild_shard_index(guild_id: u64, shard_count: usize) -> (r: usize)
    requires
        shard_count > 0,
    ensures
        r == spec_guild_shard(guild_id, shard_count),
        r < shard_count,
{
    ((guild_id >> 22u64) as usize) % shard_count
}

/// How a plugin's Discord request is carried out.
#[derive(Clone, Copy, Debug, PartialEq, Eq, Structural)]
pub enum RequestChannel {
    /// As a gateway command on the shard of the request's guild.
    GuildShard,
    /// As a gateway command on the first shard.
    FirstShard,
    /// As a call to the HTTP API.
    Http,
    /// Not at all: the request is not supported.
    Unsupported,
}

/// How a plugin's request of this kind is carried out: member requests and
/// voice state updates go to the guild's shard, presence updates to the
/// first shard, soundboard sound requests are not supported, and everything
/// else goes to the HTTP API.
pub fn request_channel(kind: DiscordRequestKinds) -> (r: RequestChannel)
    ensures
        (kind == DiscordRequestKinds::RequestGuildMembers || kind == DiscordRequestKinds::UpdateVoiceState)
            <==> r == RequestChannel::GuildShard,
        kind == DiscordRequestKinds::UpdatePresence <==> r == RequestChannel::FirstShard,
        kind == DiscordRequestKinds::RequestSoundboardSounds <==> r == RequestChannel::Unsupported,
{
    match kind {
        DiscordRequestKinds::RequestGuildMembers => RequestChannel::GuildShard,
        DiscordRequestKinds::UpdateVoiceState => RequestChannel::GuildShard,
        DiscordRequestKinds::UpdatePresence => RequestChannel::FirstShard,
        DiscordRequestKinds::RequestSoundboardSounds => RequestChannel::Unsupported,
        _ => RequestChannel::Http,
    }
}

/// The message a request that is not supported is refused with.
pub fn unsupported_request_message() -> (r: String)
    ensures
        r@ == "RequestSoundboardSounds has not yet been implemented in Twilight."@,
{
    "RequestSoundboardSounds has not yet been implemented in Twilight.".to_string()
}

/// Discord's shard formula: the shard of a guild is the remainder of its id
/// shifted right by 22 when divided by the number of shards, for every
/// number of shards.
pub proof fn law_guild_shard_is_remainder(guild_id: u64, shard_count: usize)
    requires
        shard_count > 0,
    ensures
        ({
            let x = ((guild_id >> 22u64) as usize) as int;
            let r = spec_guild_shard(guild_id, shard_count);
            &&& 0 <= r < shard_count
            &&& exists|q: int| #[trigger] (q * shard_count) + r == x
        }),
{
    let x = ((guild_id >> 22u64) as usize) as int;
    let n = shard_count as int;
    let q = x / n;
    assert(q * n + x % n == x) by (nonlinear_arith)
        requires
            n > 0,
            q == x / n,
    ;
    assert((q * shard_count) + spec_guild_shard(guild_id, shard_count) == x);
}

} // verus!
