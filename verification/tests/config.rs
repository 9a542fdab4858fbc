use wpbs::cli::{CliLogParametersFileRotation, LogRotation};
use wpbs::config_services::{
    ConfigDiscord, ConfigDiscordIntents, ConfigDiscordSettings, ConfigJobScheduler,
    ConfigServices, InternalIntents,
};
use wpbs::permissions::{
    PluginPermissions, PluginPermissionsCore, PluginPermissionsDiscord,
    PluginPermissionsDiscordEvents, PluginPermissionsDiscordInteractions,
    PluginPermissionsDiscordRequests, PluginPermissionsJobScheduler, PluginPermissionsServices,
};
use wpbs::registrations::{
    ConfigSupportedCoreRegistrations, SupportedCoreRegistrations,
    SupportedJobSchedulerRegistrations,
};
use wpbs::secrets::{get_secrets, SecretsError};
use wpbs::text::{rsplit_once_char, split_once_char, str_eq, u64_to_decimal};

fn services(discord_enabled: bool) -> ConfigServices {
    ConfigServices {
        job_scheduler: ConfigJobScheduler { enabled: true },
        discord: ConfigDiscord {
            enabled: discord_enabled,
            settings: ConfigDiscordSettings { intents: vec![ConfigDiscordIntents::Guilds] },
        },
    }
}

#[test]
fn log_rotation_is_read_case_insensitively() {
    assert_eq!(CliLogParametersFileRotation::from("minutely".to_string()).0, LogRotation::Minutely);
    assert_eq!(CliLogParametersFileRotation::from("Hourly".to_string()).0, LogRotation::Hourly);
    assert_eq!(CliLogParametersFileRotation::from("NEVER".to_string()).0, LogRotation::Never);
    assert_eq!(CliLogParametersFileRotation::from("daily".to_string()).0, LogRotation::Daily);
    assert_eq!(CliLogParametersFileRotation::from("weekly".to_string()).0, LogRotation::Daily);
}

#[test]
fn intents_are_the_union_of_the_listed_flags() {
    let i = InternalIntents::from(vec![ConfigDiscordIntents::Guilds, ConfigDiscordIntents::GuildMessages]);
    assert_eq!(i.0, 0x201);
    let expected = twilight_model::gateway::Intents::GUILD_MESSAGE_POLLS
        | twilight_model::gateway::Intents::MESSAGE_CONTENT
        | twilight_model::gateway::Intents::AUTO_MODERATION_EXECUTION;
    let i = InternalIntents::from(vec![
        ConfigDiscordIntents::GuildMessagePolls,
        ConfigDiscordIntents::MessageContent,
        ConfigDiscordIntents::AutoModerationExecution,
    ]);
    assert_eq!(i.0, expected.bits());
    assert_eq!(InternalIntents::from(Vec::new()).0, 0);
}

#[test]
fn all_intents_wildcard() {
    let i = InternalIntents::from(vec![ConfigDiscordIntents::Guilds, ConfigDiscordIntents::All]);
    assert_eq!(i.0, twilight_model::gateway::Intents::all().bits());
    assert_eq!(i.0, 0x331ffff);
}

#[test]
fn default_services_are_disabled() {
    let d = ConfigServices::default();
    assert!(!d.job_scheduler.enabled);
    assert!(!d.discord.enabled);
    assert!(d.discord.settings.intents.is_empty());
}

#[test]
fn secrets_need_a_token_when_discord_is_enabled() {
    let s = get_secrets(&services(true), Some("SECRET-REDACTED".to_string())).unwrap();
    assert_eq!(s.services.discord.unwrap().bot_token, "SECRET-REDACTED");
    assert!(matches!(
        get_secrets(&services(true), None),
        Err(SecretsError::MissingDiscordBotToken)
    ));
    let s = get_secrets(&services(false), Some("ignored".to_string())).unwrap();
    assert!(s.services.discord.is_none());
}

#[test]
fn discord_permission_wildcards_expand() {
    let mut d = PluginPermissionsDiscord {
        requests: vec![PluginPermissionsDiscordRequests::CreateMessage, PluginPermissionsDiscordRequests::All],
        events: vec![PluginPermissionsDiscordEvents::MessageCreate],
        interactions: vec![PluginPermissionsDiscordInteractions::All],
    };
    d.calculate();
    assert_eq!(d.requests.len(), 24);
    assert!(d.requests.contains(&PluginPermissionsDiscordRequests::CreateMessage));
    assert!(!d.requests.contains(&PluginPermissionsDiscordRequests::All));
    assert_eq!(d.requests[0], PluginPermissionsDiscordRequests::RequestGuildMembers);
    assert_eq!(d.requests[23], PluginPermissionsDiscordRequests::UpdateInteractionOriginal);
    assert_eq!(d.events, vec![PluginPermissionsDiscordEvents::MessageCreate]);
    assert_eq!(
        d.interactions,
        vec![
            PluginPermissionsDiscordInteractions::ApplicationCommands,
            PluginPermissionsDiscordInteractions::MessageComponents,
            PluginPermissionsDiscordInteractions::Modals,
        ]
    );
}

#[test]
fn service_permission_wildcards_expand() {
    let mut p = PluginPermissions {
        core: vec![PluginPermissionsCore::Shutdown],
        services: PluginPermissionsServices {
            job_scheduler: vec![PluginPermissionsJobScheduler::All],
            discord: PluginPermissionsDiscord {
                requests: Vec::new(),
                events: vec![PluginPermissionsDiscordEvents::All],
                interactions: Vec::new(),
            },
        },
    };
    p.calculate();
    assert_eq!(p.core, vec![PluginPermissionsCore::Shutdown]);
    assert_eq!(p.services.job_scheduler, vec![PluginPermissionsJobScheduler::ScheduledJobs]);
    assert_eq!(p.services.discord.events.len(), 8);
    assert!(p.services.discord.requests.is_empty());
    let events_once = p.services.discord.events.clone();
    p.calculate();
    assert_eq!(p.services.discord.events, events_once);
}

#[test]
fn job_scheduler_registrations_follow_the_permissions() {
    assert!(!SupportedJobSchedulerRegistrations::from(Vec::new()).scheduled_jobs);
    assert!(SupportedJobSchedulerRegistrations::from(vec![PluginPermissionsJobScheduler::ScheduledJobs]).scheduled_jobs);
    assert!(SupportedJobSchedulerRegistrations::from(vec![PluginPermissionsJobScheduler::All]).scheduled_jobs);
}

#[test]
fn core_registrations_intersect_from_empty() {
    let s = SupportedCoreRegistrations::from(vec![
        ConfigSupportedCoreRegistrations::Shutdown,
        ConfigSupportedCoreRegistrations::DependencyFunctions,
    ]);
    assert_eq!(s, SupportedCoreRegistrations { dependency_functions: false, shutdown: false });
    let a = SupportedCoreRegistrations { dependency_functions: true, shutdown: true };
    let b = SupportedCoreRegistrations { dependency_functions: true, shutdown: false };
    assert_eq!(a.intersection(b), b);
}

#[test]
fn text_helpers() {
    assert_eq!(rsplit_once_char("a:b:c", ':'), Some(("a:b", "c")));
    let (left, right) = rsplit_once_char("ns/plugin:1.0.0", ':').unwrap();
    assert_eq!(format!("{left}:{right}"), "ns/plugin:1.0.0");
    assert_ne!(u64_to_decimal(12), u64_to_decimal(21));
    assert_eq!(split_once_char("a:b:c", ':'), Some(("a", "b:c")));
    assert_eq!(rsplit_once_char("abc", ':'), None);
    assert_eq!(split_once_char("", ':'), None);
    assert!(str_eq("héllo", "héllo"));
    assert!(!str_eq("hello", "hellO"));
    assert!(!str_eq("hello", "hell"));
    assert_eq!(u64_to_decimal(0), "0");
    assert_eq!(u64_to_decimal(1234567890), "1234567890");
    assert_eq!(u64_to_decimal(u64::MAX), "18446744073709551615");
}
