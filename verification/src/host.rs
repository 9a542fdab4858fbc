//! The checks the host makes before it serves a plugin's call: whether the
//! service asked for runs, and whether the plugin's permissions allow the
//! call. Each refusal is answered with its message.

use vstd::prelude::*;

use crate::discord_kinds::{request_permission, DiscordRequestKinds};
use crate::ids::{law_uuid_text_injective, lemma_uuid_text_len, spec_uuid_text, uuid_to_string};
use crate::lifecycle::Shutdown;
use crate::permissions::{
    contains_core, contains_job_scheduler, contains_request, PluginPermissions, PluginPermissionsCore,
    PluginPermissionsJobScheduler,
};
use crate::registrations::SupportedJobSchedulerRegistrations;

verus! {

/// May the plugin make a Discord request of this kind? Refused when the
/// Discord service is disabled, then when the plugin lacks the request's
/// permission.
pub fn check_discord_request(
    discord_enabled: bool,
    permissions: &PluginPermissions,
    kind: DiscordRequestKinds,
) -> (r: Result<(), String>)
    ensures
        !discord_enabled ==> (r matches Err(m) && m@ == "The Discord service is disabled"@),
        discord_enabled && !permissions.services.discord.requests@.contains(request_permission(kind))
            ==> (r matches Err(m) && m@ == "Plugin does not have the permission to make this Discord request"@),
        discord_enabled && permissions.services.discord.requests@.contains(request_permission(kind))
            ==> r is Ok,
{
    if !discord_enabled {
        return Err("The Discord service is disabled".to_string());
    }
    if !contains_request(&permissions.services.discord.requests, kind.into()) {
        return Err("Plugin does not have the permission to make this Discord request".to_string());
    }
    Ok(())
}

/// Whether the plugin's job scheduler permissions allow scheduled jobs.
pub open spec fn may_schedule(permissions: PluginPermissions) -> bool {
    permissions.services.job_scheduler@.contains(PluginPermissionsJobScheduler::ScheduledJobs)
}

/// May the plugin register scheduled jobs? Refused when the job scheduler is
/// disabled, then when the plugin lacks the permission.
pub fn check_job_registration(job_scheduler_enabled: bool, permissions: &PluginPermissions) -> (r: Result<(), String>)
    ensures
        !job_scheduler_enabled ==> (r matches Err(m) && m@ == "The job scheduler service is disabled"@),
        job_scheduler_enabled && !may_schedule(*permissions)
            ==> (r matches Err(m) && m@ == "Plugin does not have the permission to register scheduled jobs"@),
        job_scheduler_enabled && may_schedule(*permissions) ==> r is Ok,
{
    if !job_scheduler_enabled {
        return Err("The job scheduler service is disabled".to_string());
    }
    if !contains_job_scheduler(&permissions.services.job_scheduler, PluginPermissionsJobScheduler::ScheduledJobs) {
        return Err("Plugin does not have the permission to register scheduled jobs".to_string());
    }
    Ok(())
}

/// May the plugin deregister scheduled jobs? Refused when the job scheduler
/// is disabled, then when the plugin lacks the permission.
pub fn check_job_deregistration(job_scheduler_enabled: bool, permissions: &PluginPermissions) -> (r: Result<(), String>)
    ensures
        !job_scheduler_enabled ==> (r matches Err(m) && m@ == "The job scheduler service is disabled"@),
        job_scheduler_enabled && !may_schedule(*permissions)
            ==> (r matches Err(m) && m@ == "Plugin does not have the permission to deregister scheduled jobs"@),
        job_scheduler_enabled && may_schedule(*permissions) ==> r is Ok,
{
    if !job_scheduler_enabled {
        return Err("The job scheduler service is disabled".to_string());
    }
    if !contains_job_scheduler(&permissions.services.job_scheduler, PluginPermissionsJobScheduler::ScheduledJobs) {
        return Err("Plugin does not have the permission to deregister scheduled jobs".to_string());
    }
    Ok(())
}

/// The job scheduler registrations the plugin's permissions allow: all of
/// them with the scheduled jobs permission, none without.
pub fn supported_job_scheduler_registrations(permissions: &PluginPermissions) -> (r: SupportedJobSchedulerRegistrations)
    ensures
        r.scheduled_jobs == may_schedule(*permissions),
{
    if !contains_job_scheduler(&permissions.services.job_scheduler, PluginPermissionsJobScheduler::ScheduledJobs) {
        return SupportedJobSchedulerRegistrations::empty();
    }
    SupportedJobSchedulerRegistrations { scheduled_jobs: true }
}

/// A plugin's request to stop the program: refused without the shutdown
/// permission, otherwise the shutdown kind to send (a restart when asked
/// for, a normal stop otherwise).
pub fn plugin_shutdown(permissions: &PluginPermissions, restart: bool) -> (r: Result<Shutdown, String>)
    ensures
        !permissions.core@.contains(PluginPermissionsCore::Shutdown)
            ==> (r matches Err(m) && m@ == "Plugin does not have the permission to call shutdown"@),
        permissions.core@.contains(PluginPermissionsCore::Shutdown) ==> r == Ok::<Shutdown, String>(
            if restart { Shutdown::Restart } else { Shutdown::Normal },
        ),
{
    if !contains_core(&permissions.core, PluginPermissionsCore::Shutdown) {
        return Err("Plugin does not have the permission to call shutdown".to_string());
    }
    if restart {
        Ok(Shutdown::Restart)
    } else {
        Ok(Shutdown::Normal)
    }
}

/// The key under which a plugin's store keeps the value of `key`:
/// `uuid:key`.
pub fn plugin_store_key(plugin_uuid: u128, key: &str) -> (r: String)
    ensures
        r@ == spec_uuid_text(plugin_uuid) + ":"@ + key@,
{
    let mut k = uuid_to_string(plugin_uuid);
    k.append(":");
    k.append(key);
    k
}

/// Plugins' stored values never meet: two plugins' keys are the same only
/// when they are the same plugin's same key, so a plugin reads and writes
/// only under its own UUID.
pub proof fn law_plugin_store_keys_separate(a: u128, key_a: Seq<char>, b: u128, key_b: Seq<char>)
    ensures
        spec_uuid_text(a) + ":"@ + key_a == spec_uuid_text(b) + ":"@ + key_b ==> a == b && key_a == key_b,
{
    lemma_uuid_text_len(a);
    lemma_uuid_text_len(b);
    reveal_strlit(":");
    let sa = spec_uuid_text(a) + ":"@ + key_a;
    let sb = spec_uuid_text(b) + ":"@ + key_b;
    if sa == sb {
        assert(sa.subrange(0, 36) =~= spec_uuid_text(a));
        assert(sb.subrange(0, 36) =~= spec_uuid_text(b));
        law_uuid_text_injective(a, b);
        assert(sa.subrange(37, sa.len() as int) =~= key_a);
        assert(sb.subrange(37, sb.len() as int) =~= key_b);
    }
}

} // verus!
