//! What a plugin may register with the host and what it asked to register:
//! the registration flags derived from its permissions, and the registration
//! requests collected from it.

use vstd::prelude::*;

use crate::permissions::PluginPermissionsJobScheduler;

verus! {

/// The job scheduler registrations a plugin is allowed to make.
#[derive(Clone, Copy, Debug, PartialEq, Eq, Structural)]
pub struct SupportedJobSchedulerRegistrations {
    pub scheduled_jobs: bool,
}

impl SupportedJobSchedulerRegistrations {
    pub fn empty() -> (r: Self)
        ensures
            !r.scheduled_jobs,
    {
        SupportedJobSchedulerRegistrations { scheduled_jobs: false }
    }
}

impl vstd::std_specs::convert::FromSpecImpl<Vec<PluginPermissionsJobScheduler>> for SupportedJobSchedulerRegistrations {
    open spec fn obeys_from_spec() -> bool {
        true
    }

    open spec fn from_spec(v: Vec<PluginPermissionsJobScheduler>) -> Self {
        SupportedJobSchedulerRegistrations { scheduled_jobs: v@.len() > 0 }
    }
}

impl From<Vec<PluginPermissionsJobScheduler>> for SupportedJobSchedulerRegistrations {
    /// Every job scheduler permission (the wildcard included) allows
    /// scheduled jobs, so the flag is set exactly when the list is not empty.
    fn from(permissions: Vec<PluginPermissionsJobScheduler>) -> (r: Self) {
        let mut supported = SupportedJobSchedulerRegistrations::empty();
        let mut i: usize = 0;
        while i < permissions.len()
            invariant
                i <= permissions.len(),
                supported.scheduled_jobs == (i > 0),
            decreases permissions.len() - i,
        {
            match permissions[i] {
                PluginPermissionsJobScheduler::All => {
                    supported.scheduled_jobs = true;
                },
                PluginPermissionsJobScheduler::ScheduledJobs => {
                    supported.scheduled_jobs = true;
                },
            }
            i = i + 1;
        }
        supported
    }
}

/// Core registrations named in a plugin configuration.
#[derive(Clone, Copy, Debug, PartialEq, Eq, Structural)]
pub enum ConfigSupportedCoreRegistrations {
    DependencyFunctions,
    Shutdown,
}

/// Job scheduler registrations named in a plugin configuration.
#[derive(Clone, Copy, Debug, PartialEq, Eq, Structural)]
pub enum ConfigSupportedJobSchedulerRegistrations {
    ScheduledJobs,
}

/// Discord registrations named in a plugin configuration.
#[derive(Clone, Copy, Debug, PartialEq, Eq, Structural)]
pub enum ConfigSupportedDiscordRegistrations {
    MessageCreate,
    InteractionCreate,
    ThreadCreate,
    ThreadDelete,
    ThreadListSync,
    ThreadMemberUpdate,
    ThreadMembersUpdate,
    ThreadUpdate,
}

/// The registrations a plugin configuration allows.
pub struct ConfigPluginPermissions {
    pub core: Vec<ConfigSupportedCoreRegistrations>,
    pub job_scheduler: Vec<ConfigSupportedJobSchedulerRegistrations>,
    pub discord: Vec<ConfigSupportedDiscordRegistrations>,
}

/// The core registration flags.
#[derive(Clone, Copy, Debug, PartialEq, Eq, Structural)]
pub struct SupportedCoreRegistrations {
    pub dependency_functions: bool,
    pub shutdown: bool,
}

impl SupportedCoreRegistrations {
    pub fn empty() -> (r: Self)
        ensures
            !r.dependency_functions,
            !r.shutdown,
    {
        SupportedCoreRegistrations { dependency_functions: false, shutdown: false }
    }

    /// The flags set in both `self` and `other`.
    pub fn intersection(self, other: Self) -> (r: Self)
        ensures
            r.dependency_functions == (self.dependency_functions && other.dependency_functions),
            r.shutdown == (self.shutdown && other.shutdown),
    {
        SupportedCoreRegistrations {
            dependency_functions: self.dependency_functions && other.dependency_functions,
            shutdown: self.shutdown && other.shutdown,
        }
    }
}

impl vstd::std_specs::convert::FromSpecImpl<Vec<ConfigSupportedCoreRegistrations>> for SupportedCoreRegistrations {
    open spec fn obeys_from_spec() -> bool {
        true
    }

    open spec fn from_spec(v: Vec<ConfigSupportedCoreRegistrations>) -> Self {
        SupportedCoreRegistrations { dependency_functions: false, shutdown: false }
    }
}

impl From<Vec<ConfigSupportedCoreRegistrations>> for SupportedCoreRegistrations {
    /// Starts from no flag and intersects it with the flag of each listed
    /// registration; an intersection with nothing stays nothing, so the
    /// result never has a flag set.
    fn from(registrations: Vec<ConfigSupportedCoreRegistrations>) -> (r: Self) {
        let mut supported = SupportedCoreRegistrations::empty();
        let mut i: usize = 0;
        while i < registrations.len()
            invariant
                i <= registrations.len(),
                !supported.dependency_functions,
                !supported.shutdown,
            decreases registrations.len() - i,
        {
            match registrations[i] {
                ConfigSupportedCoreRegistrations::DependencyFunctions => {
                    supported = supported.intersection(
                        SupportedCoreRegistrations { dependency_functions: true, shutdown: false },
                    );
                },
                ConfigSupportedCoreRegistrations::Shutdown => {
                    supported = supported.intersection(
                        SupportedCoreRegistrations { dependency_functions: false, shutdown: true },
                    );
                },
            }
            i = i + 1;
        }
        supported
    }
}

/// A request of a plugin to register an application command; `data` is the
/// command as JSON.
pub struct PluginRegistrationRequestsApplicationCommand {
    pub plugin_id: String,
    pub data: Vec<u8>,
}

/// A request of a plugin to register a message component.
pub struct PluginRegistrationRequestsMessageComponent {
    pub plugin_id: String,
    pub id: String,
}

/// A request of a plugin to register a modal.
pub struct PluginRegistrationRequestsModal {
    pub plugin_id: String,
    pub id: String,
}

/// A request of a plugin to register a scheduled job with its cron
/// expressions.
pub struct PluginRegistrationRequestsScheduledJob {
    pub plugin_id: String,
    pub id: String,
    pub crons: Vec<String>,
}

/// The interaction registrations requested by the plugins.
pub struct PluginRegistrationRequestsInteractionCreate {
    pub application_commands: Vec<PluginRegistrationRequestsApplicationCommand>,
    pub message_component: Vec<PluginRegistrationRequestsMessageComponent>,
    pub modals: Vec<PluginRegistrationRequestsModal>,
}

/// Every registration requested by the plugins.
pub struct PluginRegistrationRequests {
    pub discord_event_interaction_create: PluginRegistrationRequestsInteractionCreate,
    pub scheduled_jobs: Vec<PluginRegistrationRequestsScheduledJob>,
}

} // verus!
