//! The kinds of Discord requests and gateway events a plugin deals with,
//! and how each maps to the permission that governs it.

use vstd::prelude::*;

use crate::permissions::{PluginPermissionsDiscordEvents, PluginPermissionsDiscordRequests};

verus! {

/// The kind of a Discord request a plugin makes (the request without its
/// payload).
#[derive(Clone, Copy, Debug, PartialEq, Eq, Structural)]
pub enum DiscordRequestKinds {
    RequestGuildMembers,
    RequestSoundboardSounds,
    UpdateVoiceState,
    UpdatePresence,
    AddThreadMember,
    CreateBan,
    CreateForumThread,
    CreateMessage,
    CreateThread,
    CreateThreadFromMessage,
    DeleteMessage,
    GetActiveThreads,
    GetChannel,
    GetJoinedPrivateArchivedThreads,
    GetPrivateArchivedThreads,
    GetPublicArchivedThreads,
    GetThreadMember,
    GetThreadMembers,
    InteractionCallback,
    JoinThread,
    LeaveThread,
    RemoveThreadMember,
    UpdateMember,
    UpdateInteractionOriginal,
}

/// The kind of a Discord gateway event that plugins can subscribe to.
#[derive(Clone, Copy, Debug, PartialEq, Eq, Structural)]
pub enum DiscordEventKinds {
    MessageCreate,
    InteractionCreate,
    ThreadCreate,
    ThreadDelete,
    ThreadListSync,
    ThreadMemberUpdate,
    ThreadMembersUpdate,
    ThreadUpdate,
}

/// The permission that a request of kind `k` needs.
pub open spec fn request_permission(k: DiscordRequestKinds) -> PluginPermissionsDiscordRequests {
    match k {
        DiscordRequestKinds::RequestGuildMembers => PluginPermissionsDiscordRequests::RequestGuildMembers,
        DiscordRequestKinds::RequestSoundboardSounds => PluginPermissionsDiscordRequests::RequestSoundboardSounds,
        DiscordRequestKinds::UpdateVoiceState => PluginPermissionsDiscordRequests::UpdateVoiceState,
        DiscordRequestKinds::UpdatePresence => PluginPermissionsDiscordRequests::UpdatePresence,
        DiscordRequestKinds::AddThreadMember => PluginPermissionsDiscordRequests::AddThreadMember,
        DiscordRequestKinds::CreateBan => PluginPermissionsDiscordRequests::CreateBan,
        DiscordRequestKinds::CreateForumThread => PluginPermissionsDiscordRequests::CreateForumThread,
        DiscordRequestKinds::CreateMessage => PluginPermissionsDiscordRequests::CreateMessage,
        DiscordRequestKinds::CreateThread => PluginPermissionsDiscordRequests::CreateThread,
        DiscordRequestKinds::CreateThreadFromMessage => PluginPermissionsDiscordRequests::CreateThreadFromMessage,
        DiscordRequestKinds::DeleteMessage => PluginPermissionsDiscordRequests::DeleteMessage,
        DiscordRequestKinds::GetActiveThreads => PluginPermissionsDiscordRequests::GetActiveThreads,
        DiscordRequestKinds::GetChannel => PluginPermissionsDiscordRequests::GetChannel,
        DiscordRequestKinds::GetJoinedPrivateArchivedThreads => PluginPermissionsDiscordRequests::GetJoinedPrivateArchivedThreads,
        DiscordRequestKinds::GetPrivateArchivedThreads => PluginPermissionsDiscordRequests::GetPrivateArchivedThreads,
        DiscordRequestKinds::GetPublicArchivedThreads => PluginPermissionsDiscordRequests::GetPublicArchivedThreads,
        DiscordRequestKinds::GetThreadMember => PluginPermissionsDiscordRequests::GetThreadMember,
        DiscordRequestKinds::GetThreadMembers => PluginPermissionsDiscordRequests::GetThreadMembers,
        DiscordRequestKinds::InteractionCallback => PluginPermissionsDiscordRequests::InteractionCallback,
        DiscordRequestKinds::JoinThread => PluginPermissionsDiscordRequests::JoinThread,
        DiscordRequestKinds::LeaveThread => PluginPermissionsDiscordRequests::LeaveThread,
        DiscordRequestKinds::RemoveThreadMember => PluginPermissionsDiscordRequests::RemoveThreadMember,
        DiscordRequestKinds::UpdateMember => PluginPermissionsDiscordRequests::UpdateMember,
        DiscordRequestKinds::UpdateInteractionOriginal => PluginPermissionsDiscordRequests::UpdateInteractionOriginal,
    }
}

impl vstd::std_specs::convert::FromSpecImpl<DiscordRequestKinds> for PluginPermissionsDiscordRequests {
    open spec fn obeys_from_spec() -> bool {
        true
    }

    open spec fn from_spec(v: DiscordRequestKinds) -> Self {
        request_permission(v)
    }
}

impl From<DiscordRequestKinds> for PluginPermissionsDiscordRequests {
    fn from(kind: DiscordRequestKinds) -> (r: Self) {
        match kind {
            DiscordRequestKinds::RequestGuildMembers => PluginPermissionsDiscordRequests::RequestGuildMembers,
            DiscordRequestKinds::RequestSoundboardSounds => PluginPermissionsDiscordRequests::RequestSoundboardSounds,
            DiscordRequestKinds::UpdateVoiceState => PluginPermissionsDiscordRequests::UpdateVoiceState,
            DiscordRequestKinds::UpdatePresence => PluginPermissionsDiscordRequests::UpdatePresence,
            DiscordRequestKinds::AddThreadMember => PluginPermissionsDiscordRequests::AddThreadMember,
            DiscordRequestKinds::CreateBan => PluginPermissionsDiscordRequests::CreateBan,
            DiscordRequestKinds::CreateForumThread => PluginPermissionsDiscordRequests::CreateForumThread,
            DiscordRequestKinds::CreateMessage => PluginPermissionsDiscordRequests::CreateMessage,
            DiscordRequestKinds::CreateThread => PluginPermissionsDiscordRequests::CreateThread,
            DiscordRequestKinds::CreateThreadFromMessage => PluginPermissionsDiscordRequests::CreateThreadFromMessage,
            DiscordRequestKinds::DeleteMessage => PluginPermissionsDiscordRequests::DeleteMessage,
            DiscordRequestKinds::GetActiveThreads => PluginPermissionsDiscordRequests::GetActiveThreads,
            DiscordRequestKinds::GetChannel => PluginPermissionsDiscordRequests::GetChannel,
            DiscordRequestKinds::GetJoinedPrivateArchivedThreads => PluginPermissionsDiscordRequests::GetJoinedPrivateArchivedThreads,
            DiscordRequestKinds::GetPrivateArchivedThreads => PluginPermissionsDiscordRequests::GetPrivateArchivedThreads,
            DiscordRequestKinds::GetPublicArchivedThreads => PluginPermissionsDiscordRequests::GetPublicArchivedThreads,
            DiscordRequestKinds::GetThreadMember => PluginPermissionsDiscordRequests::GetThreadMember,
            DiscordRequestKinds::GetThreadMembers => PluginPermissionsDiscordRequests::GetThreadMembers,
            DiscordRequestKinds::InteractionCallback => PluginPermissionsDiscordRequests::InteractionCallback,
            DiscordRequestKinds::JoinThread => PluginPermissionsDiscordRequests::JoinThread,
            DiscordRequestKinds::LeaveThread => PluginPermissionsDiscordRequests::LeaveThread,
            DiscordRequestKinds::RemoveThreadMember => PluginPermissionsDiscordRequests::RemoveThreadMember,
            DiscordRequestKinds::UpdateMember => PluginPermissionsDiscordRequests::UpdateMember,
            DiscordRequestKinds::UpdateInteractionOriginal => PluginPermissionsDiscordRequests::UpdateInteractionOriginal,
        }
    }
}

/// The permission that receiving an event of kind `k` needs.
pub open spec fn event_permission(k: DiscordEventKinds) -> PluginPermissionsDiscordEvents {
    match k {
        DiscordEventKinds::MessageCreate => PluginPermissionsDiscordEvents::MessageCreate,
        DiscordEventKinds::InteractionCreate => PluginPermissionsDiscordEvents::InteractionCreate,
        DiscordEventKinds::ThreadCreate => PluginPermissionsDiscordEvents::ThreadCreate,
        DiscordEventKinds::ThreadDelete => PluginPermissionsDiscordEvents::ThreadDelete,
        DiscordEventKinds::ThreadListSync => PluginPermissionsDiscordEvents::ThreadListSync,
        DiscordEventKinds::ThreadMemberUpdate => PluginPermissionsDiscordEvents::ThreadMemberUpdate,
        DiscordEventKinds::ThreadMembersUpdate => PluginPermissionsDiscordEvents::ThreadMembersUpdate,
        DiscordEventKinds::ThreadUpdate => PluginPermissionsDiscordEvents::ThreadUpdate,
    }
}

impl vstd::std_specs::convert::FromSpecImpl<DiscordEventKinds> for PluginPermissionsDiscordEvents {
    open spec fn obeys_from_spec() -> bool {
        true
    }

    open spec fn from_spec(v: DiscordEventKinds) -> Self {
        event_permission(v)
    }
}

impl From<DiscordEventKinds> for PluginPermissionsDiscordEvents {
    fn from(kind: DiscordEventKinds) -> (r: Self) {
        match kind {
            DiscordEventKinds::MessageCreate => PluginPermissionsDiscordEvents::MessageCreate,
            DiscordEventKinds::InteractionCreate => PluginPermissionsDiscordEvents::InteractionCreate,
            DiscordEventKinds::ThreadCreate => PluginPermissionsDiscordEvents::ThreadCreate,
            DiscordEventKinds::ThreadDelete => PluginPermissionsDiscordEvents::ThreadDelete,
            DiscordEventKinds::ThreadListSync => PluginPermissionsDiscordEvents::ThreadListSync,
            DiscordEventKinds::ThreadMemberUpdate => PluginPermissionsDiscordEvents::ThreadMemberUpdate,
            DiscordEventKinds::ThreadMembersUpdate => PluginPermissionsDiscordEvents::ThreadMembersUpdate,
            DiscordEventKinds::ThreadUpdate => PluginPermissionsDiscordEvents::ThreadUpdate,
        }
    }
}

/// The gateway name of an event kind, such as `MESSAGE_CREATE`.
pub open spec fn event_name(k: DiscordEventKinds) -> Seq<char> {
    match k {
        DiscordEventKinds::MessageCreate => "MESSAGE_CREATE"@,
        DiscordEventKinds::InteractionCreate => "INTERACTION_CREATE"@,
        DiscordEventKinds::ThreadCreate => "THREAD_CREATE"@,
        DiscordEventKinds::ThreadDelete => "THREAD_DELETE"@,
        DiscordEventKinds::ThreadListSync => "THREAD_LIST_SYNC"@,
        DiscordEventKinds::ThreadMemberUpdate => "THREAD_MEMBER_UPDATE"@,
        DiscordEventKinds::ThreadMembersUpdate => "THREAD_MEMBERS_UPDATE"@,
        DiscordEventKinds::ThreadUpdate => "THREAD_UPDATE"@,
    }
}

impl DiscordEventKinds {
    /// The gateway name of this event kind, such as `MESSAGE_CREATE` (what the
    /// kind displays as).
    pub fn to_string(&self) -> (r: String)
        ensures
            r@ == event_name(*self),
    {
        match self {
            DiscordEventKinds::MessageCreate => "MESSAGE_CREATE".to_string(),
            DiscordEventKinds::InteractionCreate => "INTERACTION_CREATE".to_string(),
            DiscordEventKinds::ThreadCreate => "THREAD_CREATE".to_string(),
            DiscordEventKinds::ThreadDelete => "THREAD_DELETE".to_string(),
            DiscordEventKinds::ThreadListSync => "THREAD_LIST_SYNC".to_string(),
            DiscordEventKinds::ThreadMemberUpdate => "THREAD_MEMBER_UPDATE".to_string(),
            DiscordEventKinds::ThreadMembersUpdate => "THREAD_MEMBERS_UPDATE".to_string(),
            DiscordEventKinds::ThreadUpdate => "THREAD_UPDATE".to_string(),
        }
    }
}

} // verus!
