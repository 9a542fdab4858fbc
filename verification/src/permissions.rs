//! Plugin permissions as written in the configuration file, and their
//! expansion: the `All` wildcard of each list stands for every permission of
//! that list.

use vstd::prelude::*;

verus! {

/// Core host functions a plugin may use.
#[derive(Clone, Copy, Debug, PartialEq, Eq, Structural)]
pub enum PluginPermissionsCore {
    DependencyFunctions,
    Shutdown,
}

/// Job scheduler registrations a plugin may make.
#[derive(Clone, Copy, Debug, PartialEq, Eq, Structural)]
pub enum PluginPermissionsJobScheduler {
    All,
    ScheduledJobs,
}

/// Discord requests a plugin may make.
#[derive(Clone, Copy, Debug, PartialEq, Eq, Structural)]
pub enum PluginPermissionsDiscordRequests {
    All,
    RequestGuildMembers,
    RequestSoundboardSounds,
    UpdateVoiceState,
    UpdatePresence,
    AddThreadMember,
    CreateBan,
    CreateForumThread,
    CreateMessage,
    CreateThread,
    CreateThreadFromMessage,
    DeleteMessage,
    GetActiveThreads,
    GetChannel,
    GetJoinedPrivateArchivedThreads,
    GetPrivateArchivedThreads,
    GetPublicArchivedThreads,
    GetThreadMember,
    GetThreadMembers,
    InteractionCallback,
    JoinThread,
    LeaveThread,
    RemoveThreadMember,
    UpdateMember,
    UpdateInteractionOriginal,
}

/// Discord gateway events a plugin may receive.
#[derive(Clone, Copy, Debug, PartialEq, Eq, Structural)]
pub enum PluginPermissionsDiscordEvents {
    All,
    MessageCreate,
    InteractionCreate,
    ThreadCreate,
    ThreadDelete,
    ThreadListSync,
    ThreadMemberUpdate,
    ThreadMembersUpdate,
    ThreadUpdate,
}

/// Discord interactions a plugin may register.
#[derive(Clone, Copy, Debug, PartialEq, Eq, Structural)]
pub enum PluginPermissionsDiscordInteractions {
    All,
    ApplicationCommands,
    MessageComponents,
    Modals,
}

/// The Discord part of a plugin's permissions.
pub struct PluginPermissionsDiscord {
    pub requests: Vec<PluginPermissionsDiscordRequests>,
    pub events: Vec<PluginPermissionsDiscordEvents>,
    pub interactions: Vec<PluginPermissionsDiscordInteractions>,
}

/// The service part of a plugin's permissions.
pub struct PluginPermissionsServices {
    pub job_scheduler: Vec<PluginPermissionsJobScheduler>,
    pub discord: PluginPermissionsDiscord,
}

/// All permissions granted to one plugin.
pub struct PluginPermissions {
    pub core: Vec<PluginPermissionsCore>,
    pub services: PluginPermissionsServices,
}

/// Every Discord request permission, in declaration order, without `All`.
pub open spec fn all_discord_requests() -> Seq<PluginPermissionsDiscordRequests> {
    seq![
        PluginPermissionsDiscordRequests::RequestGuildMembers,
        PluginPermissionsDiscordRequests::RequestSoundboardSounds,
        PluginPermissionsDiscordRequests::UpdateVoiceState,
        PluginPermissionsDiscordRequests::UpdatePresence,
        PluginPermissionsDiscordRequests::AddThreadMember,
        PluginPermissionsDiscordRequests::CreateBan,
        PluginPermissionsDiscordRequests::CreateForumThread,
        PluginPermissionsDiscordRequests::CreateMessage,
        PluginPermissionsDiscordRequests::CreateThread,
        PluginPermissionsDiscordRequests::CreateThreadFromMessage,
        PluginPermissionsDiscordRequests::DeleteMessage,
        PluginPermissionsDiscordRequests::GetActiveThreads,
        PluginPermissionsDiscordRequests::GetChannel,
        PluginPermissionsDiscordRequests::GetJoinedPrivateArchivedThreads,
        PluginPermissionsDiscordRequests::GetPrivateArchivedThreads,
        PluginPermissionsDiscordRequests::GetPublicArchivedThreads,
        PluginPermissionsDiscordRequests::GetThreadMember,
        PluginPermissionsDiscordRequests::GetThreadMembers,
        PluginPermissionsDiscordRequests::InteractionCallback,
        PluginPermissionsDiscordRequests::JoinThread,
        PluginPermissionsDiscordRequests::LeaveThread,
        PluginPermissionsDiscordRequests::RemoveThreadMember,
        PluginPermissionsDiscordRequests::UpdateMember,
        PluginPermissionsDiscordRequests::UpdateInteractionOriginal,
    ]
}

/// Every job scheduler permission, without `All`.
pub open spec fn all_job_scheduler() -> Seq<PluginPermissionsJobScheduler> {
    seq![PluginPermissionsJobScheduler::ScheduledJobs]
}

/// Every Discord event permission, in declaration order, without `All`.
pub open spec fn all_discord_events() -> Seq<PluginPermissionsDiscordEvents> {
    seq![
        PluginPermissionsDiscordEvents::MessageCreate,
        PluginPermissionsDiscordEvents::InteractionCreate,
        PluginPermissionsDiscordEvents::ThreadCreate,
        PluginPermissionsDiscordEvents::ThreadDelete,
        PluginPermissionsDiscordEvents::ThreadListSync,
        PluginPermissionsDiscordEvents::ThreadMemberUpdate,
        PluginPermissionsDiscordEvents::ThreadMembersUpdate,
        PluginPermissionsDiscordEvents::ThreadUpdate,
    ]
}

/// Every Discord interaction permission, in declaration order, without `All`.
pub open spec fn all_discord_interactions() -> Seq<PluginPermissionsDiscordInteractions> {
    seq![
        PluginPermissionsDiscordInteractions::ApplicationCommands,
        PluginPermissionsDiscordInteractions::MessageComponents,
        PluginPermissionsDiscordInteractions::Modals,
    ]
}

/// A permission list after expansion: the full list where `All` occurs, the
/// list itself otherwise.
pub open spec fn expand<T>(list: Seq<T>, all: T, full: Seq<T>) -> Seq<T> {
    if list.contains(all) {
        full
    } else {
        list
    }
}

/// The Discord permissions after `calculate`.
pub open spec fn calculated_discord(
    requests: Seq<PluginPermissionsDiscordRequests>,
    events: Seq<PluginPermissionsDiscordEvents>,
    interactions: Seq<PluginPermissionsDiscordInteractions>,
) -> (Seq<PluginPermissionsDiscordRequests>, Seq<PluginPermissionsDiscordEvents>, Seq<PluginPermissionsDiscordInteractions>) {
    (
        expand(requests, PluginPermissionsDiscordRequests::All, all_discord_requests()),
        expand(events, PluginPermissionsDiscordEvents::All, all_discord_events()),
        expand(interactions, PluginPermissionsDiscordInteractions::All, all_discord_interactions()),
    )
}

pub fn contains_core(list: &Vec<PluginPermissionsCore>, x: PluginPermissionsCore) -> (r: bool)
    ensures
        r == list@.contains(x),
{
    let mut i: usize = 0;
    while i < list.len()
        invariant
            i <= list.len(),
            forall|j: int| 0 <= j < i ==> list@[j] != x,
        decreases list.len() - i,
    {
        if list[i] == x {
            return true;
        }
        i = i + 1;
    }
    false
}

pub fn contains_job_scheduler(list: &Vec<PluginPermissionsJobScheduler>, x: PluginPermissionsJobScheduler) -> (r: bool)
    ensures
        r == list@.contains(x),
{
    let mut i: usize = 0;
    while i < list.len()
        invariant
            i <= list.len(),
            forall|j: int| 0 <= j < i ==> list@[j] != x,
        decreases list.len() - i,
    {
        if list[i] == x {
            return true;
        }
        i = i + 1;
    }
    false
}

pub fn contains_request(list: &Vec<PluginPermissionsDiscordRequests>, x: PluginPermissionsDiscordRequests) -> (r: bool)
    ensures
        r == list@.contains(x),
{
    let mut i: usize = 0;
    while i < list.len()
        invariant
            i <= list.len(),
            forall|j: int| 0 <= j < i ==> list@[j] != x,
        decreases list.len() - i,
    {
        if list[i] == x {
            return true;
        }
        i = i + 1;
    }
    false
}

pub fn contains_event(list: &Vec<PluginPermissionsDiscordEvents>, x: PluginPermissionsDiscordEvents) -> (r: bool)
    ensures
        r == list@.contains(x),
{
    let mut i: usize = 0;
    while i < list.len()
        invariant
            i <= list.len(),
            forall|j: int| 0 <= j < i ==> list@[j] != x,
        decreases list.len() - i,
    {
        if list[i] == x {
            return true;
        }
        i = i + 1;
    }
    false
}

pub fn contains_interaction(list: &Vec<PluginPermissionsDiscordInteractions>, x: PluginPermissionsDiscordInteractions) -> (r: bool)
    ensures
        r == list@.contains(x),
{
    let mut i: usize = 0;
    while i < list.len()
        invariant
            i <= list.len(),
            forall|j: int| 0 <= j < i ==> list@[j] != x,
        decreases list.len() - i,
    {
        if list[i] == x {
            return true;
        }
        i = i + 1;
    }
    false
}

/// The service permissions after `calculate`: the job scheduler list and the
/// three Discord lists, each expanded.
pub open spec fn calculated_services(s: PluginPermissionsServices) -> (
    Seq<PluginPermissionsJobScheduler>,
    (Seq<PluginPermissionsDiscordRequests>, Seq<PluginPermissionsDiscordEvents>, Seq<PluginPermissionsDiscordInteractions>),
) {
    (
        expand(s.job_scheduler@, PluginPermissionsJobScheduler::All, all_job_scheduler()),
        calculated_discord(s.discord.requests@, s.discord.events@, s.discord.interactions@),
    )
}

/// The lists of a `PluginPermissionsServices` value, as `calculated_services` returns them.
pub open spec fn services_lists(s: PluginPermissionsServices) -> (
    Seq<PluginPermissionsJobScheduler>,
    (Seq<PluginPermissionsDiscordRequests>, Seq<PluginPermissionsDiscordEvents>, Seq<PluginPermissionsDiscordInteractions>),
) {
    (s.job_scheduler@, (s.discord.requests@, s.discord.events@, s.discord.interactions@))
}

impl PluginPermissionsServices {
    /// Expands the `All` wildcard of the job scheduler list and of each
    /// Discord list.
    pub fn calculate(&mut self)
        ensures
            services_lists(*final(self)) == calculated_services(*old(self)),
    {
        if contains_job_scheduler(&self.job_scheduler, PluginPermissionsJobScheduler::All) {
            self.job_scheduler = vec![PluginPermissionsJobScheduler::ScheduledJobs];
            assert(self.job_scheduler@ =~= all_job_scheduler());
        }
        self.discord.calculate();
    }
}

impl PluginPermissions {
    /// Expands every `All` wildcard of the service permissions; the core list
    /// has no wildcard and stays as it is.
    pub fn calculate(&mut self)
        ensures
            final(self).core@ == old(self).core@,
            services_lists(final(self).services) == calculated_services(old(self).services),
    {
        self.services.calculate();
    }
}

impl PluginPermissionsDiscord {
    /// Replaces each list that holds `All` by the full list of that kind.
    pub fn calculate(&mut self)
        ensures
            (final(self).requests@, final(self).events@, final(self).interactions@)
                == calculated_discord(old(self).requests@, old(self).events@, old(self).interactions@),
    {
        if contains_request(&self.requests, PluginPermissionsDiscordRequests::All) {
            self.requests = vec![
                PluginPermissionsDiscordRequests::RequestGuildMembers,
                PluginPermissionsDiscordRequests::RequestSoundboardSounds,
                PluginPermissionsDiscordRequests::UpdateVoiceState,
                PluginPermissionsDiscordRequests::UpdatePresence,
                PluginPermissionsDiscordRequests::AddThreadMember,
                PluginPermissionsDiscordRequests::CreateBan,
                PluginPermissionsDiscordRequests::CreateForumThread,
                PluginPermissionsDiscordRequests::CreateMessage,
                PluginPermissionsDiscordRequests::CreateThread,
                PluginPermissionsDiscordRequests::CreateThreadFromMessage,
                PluginPermissionsDiscordRequests::DeleteMessage,
                PluginPermissionsDiscordRequests::GetActiveThreads,
                PluginPermissionsDiscordRequests::GetChannel,
                PluginPermissionsDiscordRequests::GetJoinedPrivateArchivedThreads,
                PluginPermissionsDiscordRequests::GetPrivateArchivedThreads,
                PluginPermissionsDiscordRequests::GetPublicArchivedThreads,
                PluginPermissionsDiscordRequests::GetThreadMember,
                PluginPermissionsDiscordRequests::GetThreadMembers,
                PluginPermissionsDiscordRequests::InteractionCallback,
                PluginPermissionsDiscordRequests::JoinThread,
                PluginPermissionsDiscordRequests::LeaveThread,
                PluginPermissionsDiscordRequests::RemoveThreadMember,
                PluginPermissionsDiscordRequests::UpdateMember,
                PluginPermissionsDiscordRequests::UpdateInteractionOriginal,
            ];
            assert(self.requests@ =~= all_discord_requests());
        }
        if contains_event(&self.events, PluginPermissionsDiscordEvents::All) {
            self.events = vec![
                PluginPermissionsDiscordEvents::MessageCreate,
                PluginPermissionsDiscordEvents::InteractionCreate,
                PluginPermissionsDiscordEvents::ThreadCreate,
                PluginPermissionsDiscordEvents::ThreadDelete,
                PluginPermissionsDiscordEvents::ThreadListSync,
                PluginPermissionsDiscordEvents::ThreadMemberUpdate,
                PluginPermissionsDiscordEvents::ThreadMembersUpdate,
                PluginPermissionsDiscordEvents::ThreadUpdate,
            ];
            assert(self.events@ =~= all_discord_events());
        }
        if contains_interaction(&self.interactions, PluginPermissionsDiscordInteractions::All) {
            self.interactions = vec![
                PluginPermissionsDiscordInteractions::ApplicationCommands,
                PluginPermissionsDiscordInteractions::MessageComponents,
                PluginPermissionsDiscordInteractions::Modals,
            ];
            assert(self.interactions@ =~= all_discord_interactions());
        }
    }
}

} // verus!

verus! {

proof fn lemma_full_lists_have_no_wildcard()
    ensures
        !all_job_scheduler().contains(PluginPermissionsJobScheduler::All),
        !all_discord_requests().contains(PluginPermissionsDiscordRequests::All),
        !all_discord_events().contains(PluginPermissionsDiscordEvents::All),
        !all_discord_interactions().contains(PluginPermissionsDiscordInteractions::All),
{
    let r = all_discord_requests();
    assert forall|i: int| 0 <= i < r.len() implies r[i] != PluginPermissionsDiscordRequests::All by {}
    let e = all_discord_events();
    assert forall|i: int| 0 <= i < e.len() implies e[i] != PluginPermissionsDiscordEvents::All by {}
    let n = all_discord_interactions();
    assert forall|i: int| 0 <= i < n.len() implies n[i] != PluginPermissionsDiscordInteractions::All by {}
    let j = all_job_scheduler();
    assert forall|i: int| 0 <= i < j.len() implies j[i] != PluginPermissionsJobScheduler::All by {}
}

/// Permission expansion is idempotent, and after it no list holds the `All`
/// wildcard: calculating the permissions of an already calculated value
/// changes nothing.
pub proof fn law_calculate_idempotent(s: PluginPermissionsServices, t: PluginPermissionsServices)
    requires
        services_lists(t) == calculated_services(s),
    ensures
        calculated_services(t) == services_lists(t),
        !t.job_scheduler@.contains(PluginPermissionsJobScheduler::All),
        !t.discord.requests@.contains(PluginPermissionsDiscordRequests::All),
        !t.discord.events@.contains(PluginPermissionsDiscordEvents::All),
        !t.discord.interactions@.contains(PluginPermissionsDiscordInteractions::All),
{
    lemma_full_lists_have_no_wildcard();
}

/// The position of a permission in `all_discord_requests()`.
spec fn all_discord_requests_position(x: PluginPermissionsDiscordRequests) -> int {
    match x {
        PluginPermissionsDiscordRequests::All => -1,
        PluginPermissionsDiscordRequests::RequestGuildMembers => 0,
        PluginPermissionsDiscordRequests::RequestSoundboardSounds => 1,
        PluginPermissionsDiscordRequests::UpdateVoiceState => 2,
        PluginPermissionsDiscordRequests::UpdatePresence => 3,
        PluginPermissionsDiscordRequests::AddThreadMember => 4,
        PluginPermissionsDiscordRequests::CreateBan => 5,
        PluginPermissionsDiscordRequests::CreateForumThread => 6,
        PluginPermissionsDiscordRequests::CreateMessage => 7,
        PluginPermissionsDiscordRequests::CreateThread => 8,
        PluginPermissionsDiscordRequests::CreateThreadFromMessage => 9,
        PluginPermissionsDiscordRequests::DeleteMessage => 10,
        PluginPermissionsDiscordRequests::GetActiveThreads => 11,
        PluginPermissionsDiscordRequests::GetChannel => 12,
        PluginPermissionsDiscordRequests::GetJoinedPrivateArchivedThreads => 13,
        PluginPermissionsDiscordRequests::GetPrivateArchivedThreads => 14,
        PluginPermissionsDiscordRequests::GetPublicArchivedThreads => 15,
        PluginPermissionsDiscordRequests::GetThreadMember => 16,
        PluginPermissionsDiscordRequests::GetThreadMembers => 17,
        PluginPermissionsDiscordRequests::InteractionCallback => 18,
        PluginPermissionsDiscordRequests::JoinThread => 19,
        PluginPermissionsDiscordRequests::LeaveThread => 20,
        PluginPermissionsDiscordRequests::RemoveThreadMember => 21,
        PluginPermissionsDiscordRequests::UpdateMember => 22,
        PluginPermissionsDiscordRequests::UpdateInteractionOriginal => 23,
    }
}
proof fn lemma_all_discord_requests_complete(x: PluginPermissionsDiscordRequests)
    requires
        x != PluginPermissionsDiscordRequests::All,
    ensures
        all_discord_requests().contains(x),
{
    let i = all_discord_requests_position(x);
    assert(all_discord_requests()[i] == x);
}

/// The position of a permission in `all_discord_events()`.
spec fn all_discord_events_position(x: PluginPermissionsDiscordEvents) -> int {
    match x {
        PluginPermissionsDiscordEvents::All => -1,
        PluginPermissionsDiscordEvents::MessageCreate => 0,
        PluginPermissionsDiscordEvents::InteractionCreate => 1,
        PluginPermissionsDiscordEvents::ThreadCreate => 2,
        PluginPermissionsDiscordEvents::ThreadDelete => 3,
        PluginPermissionsDiscordEvents::ThreadListSync => 4,
        PluginPermissionsDiscordEvents::ThreadMemberUpdate => 5,
        PluginPermissionsDiscordEvents::ThreadMembersUpdate => 6,
        PluginPermissionsDiscordEvents::ThreadUpdate => 7,
    }
}
proof fn lemma_all_discord_events_complete(x: PluginPermissionsDiscordEvents)
    requires
        x != PluginPermissionsDiscordEvents::All,
    ensures
        all_discord_events().contains(x),
{
    let i = all_discord_events_position(x);
    assert(all_discord_events()[i] == x);
}

/// The position of a permission in `all_discord_interactions()`.
spec fn all_discord_interactions_position(x: PluginPermissionsDiscordInteractions) -> int {
    match x {
        PluginPermissionsDiscordInteractions::All => -1,
        PluginPermissionsDiscordInteractions::ApplicationCommands => 0,
        PluginPermissionsDiscordInteractions::MessageComponents => 1,
        PluginPermissionsDiscordInteractions::Modals => 2,
    }
}
proof fn lemma_all_discord_interactions_complete(x: PluginPermissionsDiscordInteractions)
    requires
        x != PluginPermissionsDiscordInteractions::All,
    ensures
        all_discord_interactions().contains(x),
{
    let i = all_discord_interactions_position(x);
    assert(all_discord_interactions()[i] == x);
}

/// Expansion never takes a permission away: every permission other than
/// `All` that a list held before `calculate`, it holds after.
pub proof fn law_calculate_keeps_permissions(s: PluginPermissionsServices, t: PluginPermissionsServices)
    requires
        services_lists(t) == calculated_services(s),
    ensures
        forall|x: PluginPermissionsJobScheduler|
            x != PluginPermissionsJobScheduler::All && #[trigger] s.job_scheduler@.contains(x)
                ==> t.job_scheduler@.contains(x),
        forall|x: PluginPermissionsDiscordRequests|
            x != PluginPermissionsDiscordRequests::All && #[trigger] s.discord.requests@.contains(x)
                ==> t.discord.requests@.contains(x),
        forall|x: PluginPermissionsDiscordEvents|
            x != PluginPermissionsDiscordEvents::All && #[trigger] s.discord.events@.contains(x)
                ==> t.discord.events@.contains(x),
        forall|x: PluginPermissionsDiscordInteractions|
            x != PluginPermissionsDiscordInteractions::All && #[trigger] s.discord.interactions@.contains(x)
                ==> t.discord.interactions@.contains(x),
{
    assert forall|x: PluginPermissionsJobScheduler|
        x != PluginPermissionsJobScheduler::All && #[trigger] s.job_scheduler@.contains(x)
            implies t.job_scheduler@.contains(x) by {
        assert(all_job_scheduler()[0] == x);
    }
    assert forall|x: PluginPermissionsDiscordRequests|
        x != PluginPermissionsDiscordRequests::All && #[trigger] s.discord.requests@.contains(x)
            implies t.discord.requests@.contains(x) by {
        lemma_all_discord_requests_complete(x);
    }
    assert forall|x: PluginPermissionsDiscordEvents|
        x != PluginPermissionsDiscordEvents::All && #[trigger] s.discord.events@.contains(x)
            implies t.discord.events@.contains(x) by {
        lemma_all_discord_events_complete(x);
    }
    assert forall|x: PluginPermissionsDiscordInteractions|
        x != PluginPermissionsDiscordInteractions::All && #[trigger] s.discord.interactions@.contains(x)
            implies t.discord.interactions@.contains(x) by {
        lemma_all_discord_interactions_complete(x);
    }
}

} // verus!
