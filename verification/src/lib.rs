//! Verified core of a WebAssembly plugin host for Discord bots: plugin
//! permissions, plugin references, registry version selection, the job
//! scheduler's bookkeeping, Discord event routing and application command
//! planning, and the shutdown protocol.

pub mod assoc;
pub mod cli;
pub mod config_services;
pub mod discord_commands;
pub mod discord_events;
pub mod discord_kinds;
pub mod host;
pub mod ids;
pub mod lifecycle;
pub mod permissions;
pub mod plugin_ref;
pub mod plugin_sources;
pub mod registrations;
pub mod registry_listing;
pub mod scheduler;
pub mod secrets;
pub mod text;
pub mod versions;
