//! The configuration of the services (the job scheduler and the Discord
//! bot), and the gateway intents the Discord bot asks for.

use vstd::prelude::*;

use twilight_model::gateway::Intents as I;

verus! {

/// The job scheduler's configuration.
pub struct ConfigJobScheduler {
    pub enabled: bool,
}

/// A gateway intent named in the configuration; `All` stands for every one.
#[derive(Clone, Copy, Debug, PartialEq, Eq, Structural)]
pub enum ConfigDiscordIntents {
    All,
    Guilds,
    GuildMembers,
    GuildModeration,
    GuildEmojisAndStickers,
    GuildIntegrations,
    GuildWebhooks,
    GuildInvites,
    GuildVoiceStates,
    GuildPresences,
    GuildMessages,
    GuildMessageReactions,
    GuildMessageTyping,
    DirectMessages,
    DirectMessageReactions,
    DirectMessageTyping,
    MessageContent,
    GuildScheduledEvents,
    AutoModerationConfiguration,
    AutoModerationExecution,
    GuildMessagePolls,
    DirectMessagePolls,
}

/// The Discord bot's settings.
pub struct ConfigDiscordSettings {
    pub intents: Vec<ConfigDiscordIntents>,
}

/// The Discord bot's configuration.
pub struct ConfigDiscord {
    pub enabled: bool,
    pub settings: ConfigDiscordSettings,
}

/// The configuration of all services.
pub struct ConfigServices {
    pub job_scheduler: ConfigJobScheduler,
    pub discord: ConfigDiscord,
}

impl Default for ConfigServices {
    /// Every service disabled, the Discord bot without intents.
    fn default() -> (r: Self)
        ensures
            !r.job_scheduler.enabled,
            !r.discord.enabled,
            r.discord.settings.intents@.len() == 0,
    {
        ConfigServices {
            job_scheduler: ConfigJobScheduler { enabled: false },
            discord: ConfigDiscord { enabled: false, settings: ConfigDiscordSettings { intents: Vec::new() } },
        }
    }
}

/// The gateway intent bit of an intent (`All` has none of its own).
pub open spec fn spec_intent_bit(intent: ConfigDiscordIntents) -> u64 {
    match intent {
        ConfigDiscordIntents::All => 0,
        ConfigDiscordIntents::Guilds => 0x1,
        ConfigDiscordIntents::GuildMembers => 0x2,
        ConfigDiscordIntents::GuildModeration => 0x4,
        ConfigDiscordIntents::GuildEmojisAndStickers => 0x8,
        ConfigDiscordIntents::GuildIntegrations => 0x10,
        ConfigDiscordIntents::GuildWebhooks => 0x20,
        ConfigDiscordIntents::GuildInvites => 0x40,
        ConfigDiscordIntents::GuildVoiceStates => 0x80,
        ConfigDiscordIntents::GuildPresences => 0x100,
        ConfigDiscordIntents::GuildMessages => 0x200,
        ConfigDiscordIntents::GuildMessageReactions => 0x400,
        ConfigDiscordIntents::GuildMessageTyping => 0x800,
        ConfigDiscordIntents::DirectMessages => 0x1000,
        ConfigDiscordIntents::DirectMessageReactions => 0x2000,
        ConfigDiscordIntents::DirectMessageTyping => 0x4000,
        ConfigDiscordIntents::MessageContent => 0x8000,
        ConfigDiscordIntents::GuildScheduledEvents => 0x10000,
        ConfigDiscordIntents::AutoModerationConfiguration => 0x100000,
        ConfigDiscordIntents::AutoModerationExecution => 0x200000,
        ConfigDiscordIntents::GuildMessagePolls => 0x1000000,
        ConfigDiscordIntents::DirectMessagePolls => 0x2000000,
    }
}

/// The bits of every gateway intent.
pub open spec fn all_intent_bits() -> u64 {
    0x331ffff
}

/// The position of an intent among the flags of `Intents`, in declaration
/// order (`All` has none).
pub open spec fn intent_position(intent: ConfigDiscordIntents) -> int {
    match intent {
        ConfigDiscordIntents::All => -1,
        ConfigDiscordIntents::Guilds => 0,
        ConfigDiscordIntents::GuildMembers => 1,
        ConfigDiscordIntents::GuildModeration => 2,
        ConfigDiscordIntents::GuildEmojisAndStickers => 3,
        ConfigDiscordIntents::GuildIntegrations => 4,
        ConfigDiscordIntents::GuildWebhooks => 5,
        ConfigDiscordIntents::GuildInvites => 6,
        ConfigDiscordIntents::GuildVoiceStates => 7,
        ConfigDiscordIntents::GuildPresences => 8,
        ConfigDiscordIntents::GuildMessages => 9,
        ConfigDiscordIntents::GuildMessageReactions => 10,
        ConfigDiscordIntents::GuildMessageTyping => 11,
        ConfigDiscordIntents::DirectMessages => 12,
        ConfigDiscordIntents::DirectMessageReactions => 13,
        ConfigDiscordIntents::DirectMessageTyping => 14,
        ConfigDiscordIntents::MessageContent => 15,
        ConfigDiscordIntents::GuildScheduledEvents => 16,
        ConfigDiscordIntents::AutoModerationConfiguration => 17,
        ConfigDiscordIntents::AutoModerationExecution => 18,
        ConfigDiscordIntents::GuildMessagePolls => 19,
        ConfigDiscordIntents::DirectMessagePolls => 20,
    }
}

fn intent_position_exec(intent: ConfigDiscordIntents) -> (r: usize)
    requires
        intent != ConfigDiscordIntents::All,
    ensures
        r == intent_position(intent),
        r < 21,
{
    match intent {
        ConfigDiscordIntents::All => 0,
        ConfigDiscordIntents::Guilds => 0,
        ConfigDiscordIntents::GuildMembers => 1,
        ConfigDiscordIntents::GuildModeration => 2,
        ConfigDiscordIntents::GuildEmojisAndStickers => 3,
        ConfigDiscordIntents::GuildIntegrations => 4,
        ConfigDiscordIntents::GuildWebhooks => 5,
        ConfigDiscordIntents::GuildInvites => 6,
        ConfigDiscordIntents::GuildVoiceStates => 7,
        ConfigDiscordIntents::GuildPresences => 8,
        ConfigDiscordIntents::GuildMessages => 9,
        ConfigDiscordIntents::GuildMessageReactions => 10,
        ConfigDiscordIntents::GuildMessageTyping => 11,
        ConfigDiscordIntents::DirectMessages => 12,
        ConfigDiscordIntents::DirectMessageReactions => 13,
        ConfigDiscordIntents::DirectMessageTyping => 14,
        ConfigDiscordIntents::MessageContent => 15,
        ConfigDiscordIntents::GuildScheduledEvents => 16,
        ConfigDiscordIntents::AutoModerationConfiguration => 17,
        ConfigDiscordIntents::AutoModerationExecution => 18,
        ConfigDiscordIntents::GuildMessagePolls => 19,
        ConfigDiscordIntents::DirectMessagePolls => 20,
    }
}

/// The bit of the flag at a position, as `spec_intent_bit` lists it.
pub open spec fn flag_bit_at(position: int) -> u64 {
    if position == 0 { 0x1 } else     if position == 1 { 0x2 } else     if position == 2 { 0x4 } else     if position == 3 { 0x8 } else     if position == 4 { 0x10 } else     if position == 5 { 0x20 } else     if position == 6 { 0x40 } else     if position == 7 { 0x80 } else     if position == 8 { 0x100 } else     if position == 9 { 0x200 } else     if position == 10 { 0x400 } else     if position == 11 { 0x800 } else     if position == 12 { 0x1000 } else     if position == 13 { 0x2000 } else     if position == 14 { 0x4000 } else     if position == 15 { 0x8000 } else     if position == 16 { 0x10000 } else     if position == 17 { 0x100000 } else     if position == 18 { 0x200000 } else     if position == 19 { 0x1000000 } else     if position == 20 { 0x2000000 } else { 0 }
}

/// `Intents::bits` of the flag constant at a position among the flags of
/// `twilight_model::gateway::Intents`, in declaration order: the constants
/// are single bits, as listed in `flag_bit_at`.
#[verifier::external_body]
fn intent_flag_bits(position: usize) -> (r: u64)
    requires
        position < 21,
    ensures
        r == flag_bit_at(position as int),
{
    [
        I::GUILDS, I::GUILD_MEMBERS, I::GUILD_MODERATION, I::GUILD_EMOJIS_AND_STICKERS,
        I::GUILD_INTEGRATIONS, I::GUILD_WEBHOOKS, I::GUILD_INVITES, I::GUILD_VOICE_STATES,
        I::GUILD_PRESENCES, I::GUILD_MESSAGES, I::GUILD_MESSAGE_REACTIONS,
        I::GUILD_MESSAGE_TYPING, I::DIRECT_MESSAGES, I::DIRECT_MESSAGE_REACTIONS,
        I::DIRECT_MESSAGE_TYPING, I::MESSAGE_CONTENT, I::GUILD_SCHEDULED_EVENTS,
        I::AUTO_MODERATION_CONFIGURATION, I::AUTO_MODERATION_EXECUTION, I::GUILD_MESSAGE_POLLS,
        I::DIRECT_MESSAGE_POLLS,
    ][position].bits()
}

/// `twilight_model::gateway::Intents::all().bits()`: the union of all the
/// flags the type defines.
#[verifier::external_body]
fn all_intents_flag_bits() -> (r: u64)
    ensures
        r == all_intent_bits(),
{
    twilight_model::gateway::Intents::all().bits()
}

/// The union of the intent bits of a list.
pub open spec fn union_of_intents(list: Seq<ConfigDiscordIntents>) -> u64
    decreases list.len(),
{
    if list.len() == 0 {
        0
    } else {
        union_of_intents(list.drop_last()) | spec_intent_bit(list.last())
    }
}

/// The gateway intents to connect with, as their bits.
pub struct InternalIntents(pub u64);

impl vstd::std_specs::convert::FromSpecImpl<Vec<ConfigDiscordIntents>> for InternalIntents {
    open spec fn obeys_from_spec() -> bool {
        true
    }

    open spec fn from_spec(v: Vec<ConfigDiscordIntents>) -> Self {
        if v@.contains(ConfigDiscordIntents::All) {
            InternalIntents(all_intent_bits())
        } else {
            InternalIntents(union_of_intents(v@))
        }
    }
}

impl From<Vec<ConfigDiscordIntents>> for InternalIntents {
    /// Every intent when the list holds `All`, the union of the listed ones
    /// otherwise.
    fn from(values: Vec<ConfigDiscordIntents>) -> (r: Self) {
        let mut i: usize = 0;
        while i < values.len()
            invariant
                i <= values.len(),
                forall|j: int| 0 <= j < i ==> values@[j] != ConfigDiscordIntents::All,
            decreases values.len() - i,
        {
            if values[i] == ConfigDiscordIntents::All {
                return InternalIntents(all_intents_flag_bits());
            }
            i = i + 1;
        }
        let mut bits: u64 = 0;
        let mut k: usize = 0;
        while k < values.len()
            invariant
                k <= values.len(),
                !values@.contains(ConfigDiscordIntents::All),
                bits == union_of_intents(values@.subrange(0, k as int)),
            decreases values.len() - k,
        {
            proof {
                assert(values@.subrange(0, k + 1).drop_last() =~= values@.subrange(0, k as int));
                assert(values@[k as int] != ConfigDiscordIntents::All);
            }
            let position = intent_position_exec(values[k]);
            proof {
                assert(flag_bit_at(position as int) == spec_intent_bit(values@[k as int]));
            }
            bits = bits | intent_flag_bits(position);
            k = k + 1;
        }
        proof {
            assert(values@.subrange(0, values@.len() as int) =~= values@);
        }
        InternalIntents(bits)
    }
}

/// The union of a list's intent bits includes the bit of every intent the
/// list names.
pub proof fn law_listed_intents_are_requested(list: Seq<ConfigDiscordIntents>, i: int)
    requires
        0 <= i < list.len(),
    ensures
        union_of_intents(list) & spec_intent_bit(list[i]) == spec_intent_bit(list[i]),
    decreases list.len(),
{
    let prefix = union_of_intents(list.drop_last());
    let b = spec_intent_bit(list.last());
    let x = spec_intent_bit(list[i]);
    if i < list.len() - 1 {
        law_listed_intents_are_requested(list.drop_last(), i);
        assert(list.drop_last()[i] == list[i]);
        assert(prefix & x == x ==> (prefix | b) & x == x) by (bit_vector);
    } else {
        assert((prefix | b) & b == b) by (bit_vector);
    }
}

/// Whether a value is one of the intent flags.
spec fn is_intent_flag(b: u64) -> bool {
    b == 0x1u64 || b == 0x2u64 || b == 0x4u64 || b == 0x8u64 || b == 0x10u64 || b == 0x20u64 || b == 0x40u64 || b == 0x80u64 || b == 0x100u64 || b == 0x200u64 || b == 0x400u64 || b == 0x800u64 || b == 0x1000u64 || b == 0x2000u64 || b == 0x4000u64 || b == 0x8000u64 || b == 0x10000u64 || b == 0x100000u64 || b == 0x200000u64 || b == 0x1000000u64 || b == 0x2000000u64
}

proof fn lemma_intent_flags()
    ensures
        forall|b: u64| #[trigger] is_intent_flag(b) ==> 0x331ffffu64 & b == b,
        forall|a: u64, b: u64| is_intent_flag(a) && is_intent_flag(b) && a != b ==> #[trigger] (a & b) == 0u64,
{
    assert(forall|b: u64| (b == 0x1u64 || b == 0x2u64 || b == 0x4u64 || b == 0x8u64 || b == 0x10u64 || b == 0x20u64 || b == 0x40u64 || b == 0x80u64 || b == 0x100u64 || b == 0x200u64 || b == 0x400u64 || b == 0x800u64 || b == 0x1000u64 || b == 0x2000u64 || b == 0x4000u64 || b == 0x8000u64 || b == 0x10000u64 || b == 0x100000u64 || b == 0x200000u64 || b == 0x1000000u64 || b == 0x2000000u64) ==> 0x331ffffu64 & b == b) by (bit_vector);
    assert(forall|a: u64, b: u64|
        (a == 0x1u64 || a == 0x2u64 || a == 0x4u64 || a == 0x8u64 || a == 0x10u64 || a == 0x20u64 || a == 0x40u64 || a == 0x80u64 || a == 0x100u64 || a == 0x200u64 || a == 0x400u64 || a == 0x800u64 || a == 0x1000u64 || a == 0x2000u64 || a == 0x4000u64 || a == 0x8000u64 || a == 0x10000u64 || a == 0x100000u64 || a == 0x200000u64 || a == 0x1000000u64 || a == 0x2000000u64) && (b == 0x1u64 || b == 0x2u64 || b == 0x4u64 || b == 0x8u64 || b == 0x10u64 || b == 0x20u64 || b == 0x40u64 || b == 0x80u64 || b == 0x100u64 || b == 0x200u64 || b == 0x400u64 || b == 0x800u64 || b == 0x1000u64 || b == 0x2000u64 || b == 0x4000u64 || b == 0x8000u64 || b == 0x10000u64 || b == 0x100000u64 || b == 0x200000u64 || b == 0x1000000u64 || b == 0x2000000u64) && a != b ==> a & b == 0u64) by (bit_vector);
}

proof fn lemma_all_bits_cover(x: ConfigDiscordIntents)
    ensures
        all_intent_bits() & spec_intent_bit(x) == spec_intent_bit(x),
{
    lemma_intent_flags();
    if x == ConfigDiscordIntents::All {
        assert(0x331ffffu64 & 0u64 == 0u64) by (bit_vector);
    } else {
        assert(is_intent_flag(spec_intent_bit(x)));
    }
}

/// A list without `All` asks for no intent it does not name.
proof fn lemma_unlisted_intent_not_requested(list: Seq<ConfigDiscordIntents>, x: ConfigDiscordIntents)
    requires
        x != ConfigDiscordIntents::All,
        !list.contains(ConfigDiscordIntents::All),
        !list.contains(x),
    ensures
        union_of_intents(list) & spec_intent_bit(x) == 0,
    decreases list.len(),
{
    if list.len() == 0 {
        let b = spec_intent_bit(x);
        assert(0u64 & b == 0u64) by (bit_vector);
    } else {
        let dl = list.drop_last();
        assert forall|j: int| 0 <= j < dl.len() implies dl[j] != x && dl[j] != ConfigDiscordIntents::All by {
            assert(dl[j] == list[j]);
        }
        lemma_unlisted_intent_not_requested(dl, x);
        let last = list.last();
        assert(list[list.len() - 1] == last);
        lemma_intent_flags();
        assert(is_intent_flag(spec_intent_bit(x)));
        assert(is_intent_flag(spec_intent_bit(last)));
        assert(spec_intent_bit(last) != spec_intent_bit(x));
        assert(spec_intent_bit(last) & spec_intent_bit(x) == 0u64);
        let a = union_of_intents(dl);
        let b = spec_intent_bit(last);
        let c = spec_intent_bit(x);
        assert(a & c == 0u64 && b & c == 0u64 ==> (a | b) & c == 0u64) by (bit_vector);
    }
}

/// The intents asked for: a list that holds `All`, at any position, asks for
/// every intent (`Intents::all()`); otherwise the intents asked for are
/// exactly those the list names.
pub proof fn law_intents_requested(values: Vec<ConfigDiscordIntents>, x: ConfigDiscordIntents)
    ensures
        values@.contains(ConfigDiscordIntents::All) ==> <InternalIntents as vstd::std_specs::convert::FromSpec<
            Vec<ConfigDiscordIntents>,
        >>::from_spec(values).0 == all_intent_bits(),
        values@.contains(ConfigDiscordIntents::All) || values@.contains(x) ==> <InternalIntents as vstd::std_specs::convert::FromSpec<
            Vec<ConfigDiscordIntents>,
        >>::from_spec(values).0 & spec_intent_bit(x) == spec_intent_bit(x),
        !values@.contains(ConfigDiscordIntents::All) && x != ConfigDiscordIntents::All && !values@.contains(x)
            ==> <InternalIntents as vstd::std_specs::convert::FromSpec<Vec<ConfigDiscordIntents>>>::from_spec(values).0
            & spec_intent_bit(x) == 0,
{
    lemma_all_bits_cover(x);
    if !values@.contains(ConfigDiscordIntents::All) && x != ConfigDiscordIntents::All && !values@.contains(x) {
        lemma_unlisted_intent_not_requested(values@, x);
    }
    if !values@.contains(ConfigDiscordIntents::All) && values@.contains(x) {
        let i = choose|i: int| 0 <= i < values@.len() && values@[i] == x;
        law_listed_intents_are_requested(values@, i);
    }
}

} // verus!
