use wpbs::host::{
    check_discord_request, check_job_deregistration, check_job_registration, plugin_shutdown,
    plugin_store_key, supported_job_scheduler_registrations,
};
use wpbs::discord_kinds::DiscordRequestKinds;
use wpbs::lifecycle::{exit_action, next_shutdown, ExitAction, Shutdown, ShutdownDecision};
use wpbs::permissions::{
    PluginPermissions, PluginPermissionsCore, PluginPermissionsDiscord,
    PluginPermissionsDiscordRequests, PluginPermissionsJobScheduler, PluginPermissionsServices,
};
use wpbs::scheduler::{job_key, AddJob, JobError, JobTable};

const UUID: u128 = 0x67e55044_10b1_426f_9247_bb680e5fe0c8;

fn uuid_text() -> String {
    uuid::Uuid::from_u128(UUID).to_string()
}

fn permissions(core: Vec<PluginPermissionsCore>, jobs: Vec<PluginPermissionsJobScheduler>, requests: Vec<PluginPermissionsDiscordRequests>) -> PluginPermissions {
    PluginPermissions {
        core,
        services: PluginPermissionsServices {
            job_scheduler: jobs,
            discord: PluginPermissionsDiscord { requests, events: Vec::new(), interactions: Vec::new() },
        },
    }
}

#[test]
fn job_key_is_uuid_and_cron() {
    assert_eq!(job_key(UUID, "0 * * * * *"), "67e55044-10b1-426f-9247-bb680e5fe0c8:0 * * * * *");
}

#[test]
fn adding_and_removing_jobs() {
    let mut table: JobTable<u32> = JobTable::new();
    let key = match table.add_job(UUID, "0 * * * * *") {
        Ok(AddJob::Start(key, _schedule)) => key,
        _ => panic!("expected a new job"),
    };
    assert_eq!(key, format!("{}:0 * * * * *", uuid_text()));
    table.insert(key.clone(), 7);
    assert!(table.contains(&key));
    assert!(matches!(table.add_job(UUID, "0 * * * * *"), Ok(AddJob::AlreadyScheduled)));
    assert_eq!(table.remove_job(UUID, "0 * * * * *").unwrap(), 7);
    assert!(!table.contains(&key));
    let err = table.remove_job(UUID, "0 * * * * *").unwrap_err();
    assert!(matches!(err, JobError::NotFound));
    assert_eq!(err.message(), "No job with this uuid was found");
}

#[test]
fn invalid_cron_is_refused() {
    let table: JobTable<u32> = JobTable::new();
    match table.add_job(UUID, "every minute") {
        Err(JobError::InvalidCron(m)) => assert!(!m.is_empty()),
        _ => panic!("expected an invalid cron error"),
    }
}

#[test]
fn draining_returns_every_handle_in_order() {
    let mut table: JobTable<u32> = JobTable::new();
    table.insert(job_key(UUID, "a"), 1);
    table.insert(job_key(UUID, "b"), 2);
    assert_eq!(table.drain(), vec![1, 2]);
    assert!(!table.contains(&job_key(UUID, "a")));
}

#[test]
fn first_shutdown_request_starts_the_shutdown() {
    assert_eq!(
        next_shutdown(None, Shutdown::Restart),
        ShutdownDecision { recorded: Shutdown::Restart, start: true }
    );
}

#[test]
fn later_shutdown_requests_only_raise_the_kind() {
    assert_eq!(
        next_shutdown(Some(Shutdown::Restart), Shutdown::Normal),
        ShutdownDecision { recorded: Shutdown::Normal, start: false }
    );
    assert_eq!(
        next_shutdown(Some(Shutdown::Normal), Shutdown::SigInt),
        ShutdownDecision { recorded: Shutdown::SigInt, start: false }
    );
    assert_eq!(
        next_shutdown(Some(Shutdown::SigInt), Shutdown::Normal),
        ShutdownDecision { recorded: Shutdown::SigInt, start: false }
    );
    assert_eq!(
        next_shutdown(Some(Shutdown::Normal), Shutdown::Restart),
        ShutdownDecision { recorded: Shutdown::Normal, start: false }
    );
}

#[test]
fn exit_codes() {
    assert_eq!(exit_action(Shutdown::Normal), ExitAction::Code(0));
    assert_eq!(exit_action(Shutdown::SigInt), ExitAction::Code(130));
    assert_eq!(exit_action(Shutdown::Restart), ExitAction::Restart);
}

#[test]
fn discord_requests_need_the_service_and_the_permission() {
    let p = permissions(Vec::new(), Vec::new(), vec![PluginPermissionsDiscordRequests::CreateMessage]);
    assert_eq!(
        check_discord_request(false, &p, DiscordRequestKinds::CreateMessage).unwrap_err(),
        "The Discord service is disabled"
    );
    assert_eq!(
        check_discord_request(true, &p, DiscordRequestKinds::DeleteMessage).unwrap_err(),
        "Plugin does not have the permission to make this Discord request"
    );
    assert!(check_discord_request(true, &p, DiscordRequestKinds::CreateMessage).is_ok());
}

#[test]
fn scheduled_jobs_need_the_service_and_the_permission() {
    let without = permissions(Vec::new(), Vec::new(), Vec::new());
    let with = permissions(Vec::new(), vec![PluginPermissionsJobScheduler::ScheduledJobs], Vec::new());
    assert_eq!(check_job_registration(false, &with).unwrap_err(), "The job scheduler service is disabled");
    assert_eq!(
        check_job_registration(true, &without).unwrap_err(),
        "Plugin does not have the permission to register scheduled jobs"
    );
    assert!(check_job_registration(true, &with).is_ok());
    assert_eq!(check_job_deregistration(false, &with).unwrap_err(), "The job scheduler service is disabled");
    assert_eq!(
        check_job_deregistration(true, &without).unwrap_err(),
        "Plugin does not have the permission to deregister scheduled jobs"
    );
    assert!(check_job_deregistration(true, &with).is_ok());
    assert!(supported_job_scheduler_registrations(&with).scheduled_jobs);
    assert!(!supported_job_scheduler_registrations(&without).scheduled_jobs);
}

#[test]
fn shutdown_needs_the_permission() {
    let without = permissions(Vec::new(), Vec::new(), Vec::new());
    let with = permissions(vec![PluginPermissionsCore::Shutdown], Vec::new(), Vec::new());
    assert_eq!(
        plugin_shutdown(&without, false).unwrap_err(),
        "Plugin does not have the permission to call shutdown"
    );
    assert_eq!(plugin_shutdown(&with, false).unwrap(), Shutdown::Normal);
    assert_eq!(plugin_shutdown(&with, true).unwrap(), Shutdown::Restart);
}

#[test]
fn store_keys_are_prefixed_by_the_plugin() {
    assert_eq!(plugin_store_key(UUID, "counter"), format!("{}:counter", uuid_text()));
}

#[test]
fn removing_a_job_returns_its_own_handle() {
    let mut table: JobTable<u32> = JobTable::new();
    table.insert(job_key(UUID, "0 * * * * *"), 1);
    table.insert(job_key(UUID, "30 * * * * *"), 2);
    table.insert(job_key(UUID + 1, "0 * * * * *"), 3);
    assert_eq!(table.remove_job(UUID, "30 * * * * *").unwrap(), 2);
    assert_eq!(table.drain(), vec![1, 3]);
}

#[test]
fn plugin_store_keys_of_different_plugins_differ() {
    assert_ne!(plugin_store_key(UUID, "a"), plugin_store_key(UUID + 1, "a"));
    assert_ne!(plugin_store_key(UUID, "a"), plugin_store_key(UUID, "b"));
    assert_eq!(plugin_store_key(UUID, "a"), plugin_store_key(UUID, "a"));
}
