//! Planning the registration of the plugins' Discord application commands.
//!
//! Commands requested under the same key (name and guild, or name alone)
//! get a numbered suffix so that they can coexist. Each command then updates
//! the registered command with its key, which is thereby claimed, or is
//! created; the registered commands left unclaimed are deleted.

use vstd::prelude::*;

use crate::ids::{spec_uuid_parse, spec_uuid_text, uuid_to_string};
use crate::assoc::{
    keys_distinct, lemma_set_entry_keeps_distinct,
    lemma_lookup_set_entry, lemma_position_of_bounds, lemma_position_of_extend, lookup, position_of, set_entry,
};
use crate::text::{decimal, str_eq, u64_to_decimal};

verus! {

/// What identifies a command for registration.
#[derive(Clone, Copy, Debug, PartialEq, Eq, Structural)]
pub enum CommandKeyScope {
    /// Name and guild (no guild for global commands); duplicates are
    /// numbered `name-1`, `name-2`, ...
    NameAndGuild,
    /// The name alone; duplicates are numbered `name~1`, `name~2`, ...
    NameOnly,
}

/// A command a plugin asked to register.
pub struct RequestedCommand {
    pub plugin_uuid: u128,
    pub name: String,
    pub guild_id: Option<u64>,
}

/// A command registered with Discord already.
pub struct ExistingCommand {
    pub name: String,
    pub guild_id: Option<u64>,
    pub id: u64,
}

/// Whether a planned registration updates a registered command or creates a
/// new one.
#[derive(Clone, Copy, Debug, PartialEq, Eq, Structural)]
pub enum RegistrationTarget {
    Update(u64),
    Create,
}

/// The registration planned for one requested command.
pub struct PlannedRegistration {
    /// The index of the requested command.
    pub source: usize,
    pub plugin_uuid: u128,
    /// The name to register the command under.
    pub name: String,
    pub guild_id: Option<u64>,
    pub target: RegistrationTarget,
}

/// The registrations to make, one per requested command in request order,
/// and the registered commands to delete.
pub struct CommandPlan {
    pub registrations: Vec<PlannedRegistration>,
    pub deletions: Vec<ExistingCommand>,
}

/// The guild as far as the scope looks at it.
pub open spec fn scoped_guild(g: Option<u64>, scope: CommandKeyScope) -> Option<u64> {
    match scope {
        CommandKeyScope::NameAndGuild => g,
        CommandKeyScope::NameOnly => None,
    }
}

/// The separator before the number given to a duplicate.
pub open spec fn suffix_separator(scope: CommandKeyScope) -> Seq<char> {
    match scope {
        CommandKeyScope::NameAndGuild => "-"@,
        CommandKeyScope::NameOnly => "~"@,
    }
}

/// Whether two requested commands share a key.
pub open spec fn same_key(a: RequestedCommand, b: RequestedCommand, scope: CommandKeyScope) -> bool {
    a.name@ == b.name@ && scoped_guild(a.guild_id, scope) == scoped_guild(b.guild_id, scope)
}

/// The number of the first `upto` requested commands that share the key of `c`.
pub open spec fn count_same(req: Seq<RequestedCommand>, c: RequestedCommand, scope: CommandKeyScope, upto: int) -> nat
    decreases upto,
{
    if upto <= 0 {
        0
    } else {
        count_same(req, c, scope, upto - 1) + if same_key(req[upto - 1], c, scope) { 1nat } else { 0nat }
    }
}

/// The name command `i` is registered under: its own name when no other
/// request shares its key, otherwise its name, the separator and its rank
/// (from 1) among the requests with that key.
pub open spec fn final_name(req: Seq<RequestedCommand>, i: int, scope: CommandKeyScope) -> Seq<char> {
    if count_same(req, req[i], scope, req.len() as int) == 1 {
        req[i].name@
    } else {
        req[i].name@ + suffix_separator(scope) + decimal(count_same(req, req[i], scope, i) + 1)
    }
}

/// A registered command as plain values: name, guild and id.
pub type CommandView = (Seq<char>, Option<u64>, u64);

/// The plain values of a registered command.
pub open spec fn command_view(e: ExistingCommand) -> CommandView {
    (e.name@, e.guild_id, e.id)
}

/// The plain values of a list of registered commands.
pub open spec fn command_views(t: Seq<ExistingCommand>) -> Seq<CommandView> {
    t.map_values(|e: ExistingCommand| command_view(e))
}

/// The key of a registered command.
pub open spec fn existing_key(e: CommandView, scope: CommandKeyScope) -> (Seq<char>, Option<u64>) {
    (e.0, scoped_guild(e.1, scope))
}

/// A key of the table of registered commands.
pub type CommandKey = (Seq<char>, Option<u64>);

/// The table of registered commands by key: a later command replaces an
/// earlier one with the same key, as inserting into a map does.
pub open spec fn normalize(existing: Seq<CommandView>, scope: CommandKeyScope) -> Map<CommandKey, CommandView>
    decreases existing.len(),
{
    if existing.len() == 0 {
        Map::empty()
    } else {
        normalize(existing.drop_last(), scope).insert(existing_key(existing.last(), scope), existing.last())
    }
}

/// Every command of a table is filed under its own key.
pub open spec fn keyed(m: Map<CommandKey, CommandView>, scope: CommandKeyScope) -> bool {
    forall|k: CommandKey| #[trigger] m.dom().contains(k) ==> existing_key(m[k], scope) == k
}

/// The key under which request `i` is registered: its final name and its
/// guild as far as the scope looks at it.
pub open spec fn request_key(req: Seq<RequestedCommand>, i: int, scope: CommandKeyScope) -> CommandKey {
    (final_name(req, i, scope), scoped_guild(req[i].guild_id, scope))
}

/// The targets of the first `n` requested commands and the registered
/// commands still unclaimed after them, starting from the table `m0`.
pub open spec fn plan_upto(
    req: Seq<RequestedCommand>,
    scope: CommandKeyScope,
    m0: Map<CommandKey, CommandView>,
    n: int,
) -> (Seq<RegistrationTarget>, Map<CommandKey, CommandView>)
    decreases n,
{
    if n <= 0 {
        (Seq::empty(), m0)
    } else {
        let (targets, m) = plan_upto(req, scope, m0, n - 1);
        let k = request_key(req, n - 1, scope);
        if m.dom().contains(k) {
            (targets.push(RegistrationTarget::Update(m[k].2)), m.remove(k))
        } else {
            (targets.push(RegistrationTarget::Create), m)
        }
    }
}

/// The complete plan for requests `req` against the registered commands
/// `existing`: the target of each request, and the commands left to delete.
pub open spec fn spec_plan(
    req: Seq<RequestedCommand>,
    existing: Seq<ExistingCommand>,
    scope: CommandKeyScope,
) -> (Seq<RegistrationTarget>, Map<CommandKey, CommandView>) {
    plan_upto(req, scope, normalize(command_views(existing), scope), req.len() as int)
}

fn scoped(g: Option<u64>, scope: CommandKeyScope) -> (r: Option<u64>)
    ensures
        r == scoped_guild(g, scope),
{
    match scope {
        CommandKeyScope::NameAndGuild => g,
        CommandKeyScope::NameOnly => None,
    }
}

fn keys_equal(name_a: &str, guild_a: Option<u64>, name_b: &str, guild_b: Option<u64>, scope: CommandKeyScope) -> (r: bool)
    ensures
        r == (name_a@ == name_b@ && scoped_guild(guild_a, scope) == scoped_guild(guild_b, scope)),
{
    str_eq(name_a, name_b) && scoped(guild_a, scope) == scoped(guild_b, scope)
}

/// The number of requests before `upto` sharing the key of request `c`.
fn count_same_exec(req: &Vec<RequestedCommand>, c: usize, scope: CommandKeyScope, upto: usize) -> (r: usize)
    requires
        c < req.len(),
        upto <= req.len(),
    ensures
        r == count_same(req@, req@[c as int], scope, upto as int),
        r <= upto,
{
    let mut n: usize = 0;
    let mut j: usize = 0;
    while j < upto
        invariant
            j <= upto <= req.len(),
            c < req.len(),
            n == count_same(req@, req@[c as int], scope, j as int),
            n <= j,
        decreases upto - j,
    {
        if keys_equal(req[j].name.as_str(), req[j].guild_id, req[c].name.as_str(), req[c].guild_id, scope) {
            n = n + 1;
        }
        j = j + 1;
    }
    n
}

/// The name request `i` is registered under.
fn final_name_exec(req: &Vec<RequestedCommand>, i: usize, scope: CommandKeyScope) -> (r: String)
    requires
        i < req.len(),
    ensures
        r@ == final_name(req@, i as int, scope),
{
    let total = count_same_exec(req, i, scope, req.len());
    if total == 1 {
        return req[i].name.clone();
    }
    let rank = count_same_exec(req, i, scope, i);
    let mut name = req[i].name.clone();
    match scope {
        CommandKeyScope::NameAndGuild => name.append("-"),
        CommandKeyScope::NameOnly => name.append("~"),
    }
    let number = u64_to_decimal(rank as u64 + 1);
    name.append(number.as_str());
    name
}

fn copy_command(e: &ExistingCommand) -> (r: ExistingCommand)
    ensures
        r.name@ == e.name@,
        r.guild_id == e.guild_id,
        r.id == e.id,
{
    ExistingCommand { name: e.name.clone(), guild_id: e.guild_id, id: e.id }
}

/// The table of registered commands, held in a `hashbrown::HashMap` keyed
/// by name and scoped guild.
#[verifier::external_body]
pub struct CommandTable {
    map: hashbrown::HashMap<(String, Option<u64>), ExistingCommand>,
}

/// What a command table holds: each key with the command filed under it.
pub uninterp spec fn command_table_contents(t: CommandTable) -> Map<CommandKey, CommandView>;

impl CommandTable {
    /// What the table holds.
    pub open spec fn contents(&self) -> Map<CommandKey, CommandView> {
        command_table_contents(*self)
    }
}

/// `hashbrown::HashMap::new`: an empty table.
#[verifier::external_body]
fn table_new() -> (r: CommandTable)
    ensures
        r.contents().dom().is_empty(),
{
    CommandTable { map: hashbrown::HashMap::new() }
}

/// `hashbrown::HashMap::insert`: files the command under the key, replacing
/// what was filed there.
#[verifier::external_body]
fn table_insert(t: &mut CommandTable, name: String, guild: Option<u64>, command: ExistingCommand)
    ensures
        final(t).contents() == old(t).contents().insert((name@, guild), command_view(command)),
{
    t.map.insert((name, guild), command);
}

/// `hashbrown::HashMap::remove`: takes out the command filed under the key,
/// if any.
#[verifier::external_body]
fn table_remove(t: &mut CommandTable, name: &str, guild: Option<u64>) -> (r: Option<ExistingCommand>)
    ensures
        final(t).contents() == old(t).contents().remove((name@, guild)),
        match r {
            Some(c) => old(t).contents().dom().contains((name@, guild))
                && command_view(c) == old(t).contents()[(name@, guild)],
            None => !old(t).contents().dom().contains((name@, guild)),
        },
{
    t.map.remove(&(name.to_string(), guild))
}

/// `hashbrown::HashMap::into_iter`: every key with its command, each once,
/// in an order the map chooses.
#[verifier::external_body]
fn table_entries(t: CommandTable) -> (r: Vec<((String, Option<u64>), ExistingCommand)>)
    ensures
        forall|i: int|
            0 <= i < r@.len() ==> command_table_contents(t).dom().contains((#[trigger] r@[i].0.0@, r@[i].0.1))
                && command_table_contents(t)[(r@[i].0.0@, r@[i].0.1)] == command_view(r@[i].1),
        forall|k: CommandKey|
            #[trigger] command_table_contents(t).dom().contains(k) ==> exists|i: int|
                0 <= i < r@.len() && (r@[i].0.0@, r@[i].0.1) == k,
        forall|i: int, j: int|
            0 <= i < j < r@.len() ==> (r@[i].0.0@, r@[i].0.1) != (r@[j].0.0@, r@[j].0.1),
{
    t.map.into_iter().collect()
}

/// The table of the registered commands.
fn normalize_exec(existing: &Vec<ExistingCommand>, scope: CommandKeyScope) -> (r: CommandTable)
    ensures
        r.contents() == normalize(command_views(existing@), scope),
{
    let mut t = table_new();
    proof {
        assert(t.contents() =~= normalize(command_views(existing@).subrange(0, 0), scope));
    }
    let mut i: usize = 0;
    while i < existing.len()
        invariant
            i <= existing.len(),
            t.contents() == normalize(command_views(existing@).subrange(0, i as int), scope),
        decreases existing.len() - i,
    {
        proof {
            assert(command_views(existing@).subrange(0, i + 1).drop_last() =~= command_views(existing@).subrange(0, i as int));
            assert(command_views(existing@).subrange(0, i + 1).last() == command_view(existing@[i as int]));
        }
        let e = copy_command(&existing[i]);
        let g = scoped(e.guild_id, scope);
        table_insert(&mut t, e.name.clone(), g, e);
        i = i + 1;
    }
    proof {
        assert(command_views(existing@).subrange(0, existing@.len() as int) =~= command_views(existing@));
    }
    t
}

proof fn lemma_normalize_keyed(existing: Seq<CommandView>, scope: CommandKeyScope)
    ensures
        keyed(normalize(existing, scope), scope),
    decreases existing.len(),
{
    if existing.len() > 0 {
        lemma_normalize_keyed(existing.drop_last(), scope);
    }
}

proof fn lemma_plan_upto_keyed(req: Seq<RequestedCommand>, scope: CommandKeyScope, m0: Map<CommandKey, CommandView>, n: int)
    requires
        keyed(m0, scope),
    ensures
        keyed(plan_upto(req, scope, m0, n).1, scope),
        n >= 0 ==> plan_upto(req, scope, m0, n).0.len() == n,
    decreases n,
{
    if n > 0 {
        lemma_plan_upto_keyed(req, scope, m0, n - 1);
    }
}

/// Plans the registration of the requested commands against the registered
/// ones: the final name and target of each request, in request order, and
/// the registered commands to delete (each key once, in no fixed order).
pub fn plan_command_registrations(
    requested: &Vec<RequestedCommand>,
    existing: &Vec<ExistingCommand>,
    scope: CommandKeyScope,
) -> (r: CommandPlan)
    ensures
        r.registrations@.len() == requested@.len(),
        forall|i: int| 0 <= i < requested@.len() ==> {
            let p = #[trigger] r.registrations@[i];
            &&& p.source == i
            &&& p.plugin_uuid == requested@[i].plugin_uuid
            &&& p.name@ == final_name(requested@, i, scope)
            &&& p.guild_id == requested@[i].guild_id
            &&& p.target == spec_plan(requested@, existing@, scope).0[i]
        },
        forall|i: int|
            0 <= i < r.deletions@.len() ==> spec_plan(requested@, existing@, scope).1.dom().contains(
                existing_key(#[trigger] command_view(r.deletions@[i]), scope),
            ) && spec_plan(requested@, existing@, scope).1[existing_key(command_view(r.deletions@[i]), scope)]
                == command_view(r.deletions@[i]),
        forall|k: CommandKey|
            #[trigger] spec_plan(requested@, existing@, scope).1.dom().contains(k) ==> exists|i: int|
                0 <= i < r.deletions@.len() && existing_key(command_view(r.deletions@[i]), scope) == k,
        forall|i: int, j: int|
            0 <= i < j < r.deletions@.len() ==> existing_key(command_view(r.deletions@[i]), scope)
                != existing_key(command_view(r.deletions@[j]), scope),
{
    let ghost m0 = normalize(command_views(existing@), scope);
    proof {
        lemma_normalize_keyed(command_views(existing@), scope);
    }
    let mut table = normalize_exec(existing, scope);
    let mut registrations: Vec<PlannedRegistration> = Vec::new();
    let mut i: usize = 0;
    while i < requested.len()
        invariant
            i <= requested.len(),
            m0 == normalize(command_views(existing@), scope),
            keyed(m0, scope),
            registrations@.len() == i,
            table.contents() == plan_upto(requested@, scope, m0, i as int).1,
            plan_upto(requested@, scope, m0, i as int).0.len() == i,
            forall|k: int| 0 <= k < i ==> {
                let p = #[trigger] registrations@[k];
                &&& p.source == k
                &&& p.plugin_uuid == requested@[k].plugin_uuid
                &&& p.name@ == final_name(requested@, k, scope)
                &&& p.guild_id == requested@[k].guild_id
                &&& p.target == plan_upto(requested@, scope, m0, i as int).0[k]
            },
        decreases requested.len() - i,
    {
        let name = final_name_exec(requested, i, scope);
        let guild = scoped(requested[i].guild_id, scope);
        let ghost prev = plan_upto(requested@, scope, m0, i as int);
        let target = match table_remove(&mut table, name.as_str(), guild) {
            Some(removed) => RegistrationTarget::Update(removed.id),
            None => RegistrationTarget::Create,
        };
        registrations.push(PlannedRegistration {
            source: i,
            plugin_uuid: requested[i].plugin_uuid,
            name: name,
            guild_id: requested[i].guild_id,
            target: target,
        });
        proof {
            let next = plan_upto(requested@, scope, m0, i + 1);
            assert(request_key(requested@, i as int, scope) == (name@, guild));
            assert(next.0 == prev.0.push(target));
            assert(table.contents() =~= next.1);
            assert forall|k: int| 0 <= k < i + 1 implies {
                let p = #[trigger] registrations@[k];
                &&& p.source == k
                &&& p.plugin_uuid == requested@[k].plugin_uuid
                &&& p.name@ == final_name(requested@, k, scope)
                &&& p.guild_id == requested@[k].guild_id
                &&& p.target == next.0[k]
            } by {
                if k < i {
                    assert(next.0[k] == prev.0[k]);
                }
            }
        }
        i = i + 1;
    }
    let ghost mf = plan_upto(requested@, scope, m0, requested@.len() as int).1;
    proof {
        lemma_plan_upto_keyed(requested@, scope, m0, requested@.len() as int);
    }
    let entries = table_entries(table);
    let mut deletions: Vec<ExistingCommand> = Vec::new();
    let mut j: usize = 0;
    while j < entries.len()
        invariant
            j <= entries.len(),
            keyed(mf, scope),
            deletions@.len() == j,
            forall|a: int| 0 <= a < j ==> #[trigger] command_view(deletions@[a]) == command_view(entries@[a].1),
            forall|a: int|
                0 <= a < entries@.len() ==> mf.dom().contains((#[trigger] entries@[a].0.0@, entries@[a].0.1))
                    && mf[(entries@[a].0.0@, entries@[a].0.1)] == command_view(entries@[a].1),
            forall|k: CommandKey|
                #[trigger] mf.dom().contains(k) ==> exists|a: int|
                    0 <= a < entries@.len() && (entries@[a].0.0@, entries@[a].0.1) == k,
            forall|a: int, b: int|
                0 <= a < b < entries@.len() ==> (entries@[a].0.0@, entries@[a].0.1) != (entries@[b].0.0@, entries@[b].0.1),
        decreases entries.len() - j,
    {
        let c = copy_command(&entries[j].1);
        deletions.push(c);
        j = j + 1;
    }
    proof {
        assert forall|a: int| 0 <= a < deletions@.len() implies existing_key(command_view(deletions@[a]), scope)
            == (entries@[a].0.0@, entries@[a].0.1) by {
            let k = (entries@[a].0.0@, entries@[a].0.1);
            assert(mf.dom().contains(k));
            assert(command_view(deletions@[a]) == command_view(entries@[a].1));
        }
        assert(mf == spec_plan(requested@, existing@, scope).1);
        assert forall|k: CommandKey| #[trigger] spec_plan(requested@, existing@, scope).1.dom().contains(k) implies exists|a: int|
            0 <= a < deletions@.len() && existing_key(command_view(deletions@[a]), scope) == k by {
            assert(mf.dom().contains(k));
            let a = choose|a: int| 0 <= a < entries@.len() && (entries@[a].0.0@, entries@[a].0.1) == k;
            assert(0 <= a < deletions@.len());
            assert(existing_key(command_view(deletions@[a]), scope) == (entries@[a].0.0@, entries@[a].0.1));
        }
        assert(mf == spec_plan(requested@, existing@, scope).1);
    }
    let plan = CommandPlan { registrations, deletions };
    proof {
        assert forall|k: CommandKey| #[trigger] spec_plan(requested@, existing@, scope).1.dom().contains(k) implies exists|i: int|
            0 <= i < plan.deletions@.len() && existing_key(command_view(plan.deletions@[i]), scope) == k by {
            let a = choose|a: int| 0 <= a < deletions@.len() && existing_key(command_view(deletions@[a]), scope) == k;
            assert(plan.deletions@[a] == deletions@[a]);
        }
    }
    plan
}

} // verus!

verus! {

proof fn lemma_count_same_monotone(req: Seq<RequestedCommand>, c: RequestedCommand, scope: CommandKeyScope, i: int, j: int)
    requires
        0 <= i <= j,
    ensures
        count_same(req, c, scope, i) <= count_same(req, c, scope, j),
    decreases j - i,
{
    if i < j {
        lemma_count_same_monotone(req, c, scope, i, j - 1);
    }
}

proof fn lemma_count_same_key(req: Seq<RequestedCommand>, a: RequestedCommand, b: RequestedCommand, scope: CommandKeyScope, n: int)
    requires
        same_key(a, b, scope),
    ensures
        count_same(req, a, scope, n) == count_same(req, b, scope, n),
    decreases n,
{
    if n > 0 {
        lemma_count_same_key(req, a, b, scope, n - 1);
    }
}

proof fn lemma_count_same_is_filter(
    req: Seq<RequestedCommand>,
    c: RequestedCommand,
    scope: CommandKeyScope,
    pred: spec_fn(RequestedCommand) -> bool,
    k: int,
)
    requires
        0 <= k <= req.len(),
        forall|r: RequestedCommand| #[trigger] pred(r) == same_key(r, c, scope),
    ensures
        count_same(req, c, scope, k) == req.subrange(0, k).filter(pred).len(),
    decreases k,
{
    reveal(Seq::filter);
    if k == 0 {
        assert(req.subrange(0, 0).len() == 0);
    } else {
        lemma_count_same_is_filter(req, c, scope, pred, k - 1);
        let s = req.subrange(0, k);
        assert(s.drop_last() =~= req.subrange(0, k - 1));
        assert(s.last() == req[k - 1]);
        assert(pred(req[k - 1]) == same_key(req[k - 1], c, scope));
    }
}

/// How duplicates are numbered: among the requests sharing a key (the same
/// name, and under `NameAndGuild` the same guild), the k-th in request order
/// is registered as its name, the scope's separator and k; a request whose
/// key no other request shares keeps its name. The numbers of one key's
/// requests are 1 to their count, whatever the requests of other keys.
pub proof fn law_duplicates_numbered_within_their_key(req: Seq<RequestedCommand>, scope: CommandKeyScope, i: int)
    requires
        0 <= i < req.len(),
    ensures
        ({
            let key = |r: RequestedCommand|
                r.name@ == req[i].name@ && (scope == CommandKeyScope::NameOnly || r.guild_id == req[i].guild_id);
            let n = req.filter(key).len();
            let k = req.subrange(0, i).filter(key).len() + 1;
            let sep = if scope == CommandKeyScope::NameAndGuild { "-"@ } else { "~"@ };
            &&& 1 <= k <= n
            &&& n == 1 ==> final_name(req, i, scope) == req[i].name@
            &&& n > 1 ==> final_name(req, i, scope) == req[i].name@ + sep + decimal(k as nat)
        }),
{
    let c = req[i];
    let key = |r: RequestedCommand|
        r.name@ == req[i].name@ && (scope == CommandKeyScope::NameOnly || r.guild_id == req[i].guild_id);
    assert forall|r: RequestedCommand| #[trigger] key(r) == same_key(r, c, scope) by {}
    lemma_count_same_is_filter(req, c, scope, key, i);
    lemma_count_same_is_filter(req, c, scope, key, req.len() as int);
    assert(req.subrange(0, req.len() as int) =~= req);
    lemma_count_same_monotone(req, c, scope, i + 1, req.len() as int);
    assert(same_key(c, c, scope));
    assert(count_same(req, c, scope, i + 1) == count_same(req, c, scope, i) + 1);
}

/// Requests that share a key are registered under different names: they are
/// numbered by their rank among the requests with that key.
pub proof fn law_shared_keys_get_distinct_names(req: Seq<RequestedCommand>, scope: CommandKeyScope, i: int, j: int)
    requires
        0 <= i < j < req.len(),
        same_key(req[i], req[j], scope),
    ensures
        final_name(req, i, scope) != final_name(req, j, scope),
{
    let c = req[i];
    lemma_count_same_key(req, req[j], c, scope, j);
    lemma_count_same_key(req, req[j], c, scope, req.len() as int);
    lemma_count_same_monotone(req, c, scope, i + 1, j);
    lemma_count_same_monotone(req, c, scope, j + 1, req.len() as int);
    assert(count_same(req, c, scope, i + 1) == count_same(req, c, scope, i) + 1);
    assert(count_same(req, c, scope, j + 1) == count_same(req, c, scope, j) + 1);
    let ri = count_same(req, c, scope, i);
    let rj = count_same(req, c, scope, j);
    assert(rj >= ri + 1);
    assert(count_same(req, c, scope, req.len() as int) >= 2);
    let sep = suffix_separator(scope);
    let ni = req[i].name@ + sep + decimal(ri + 1);
    let nj = req[j].name@ + sep + decimal(rj + 1);
    if ni == nj {
        let p = req[i].name@ + sep;
        assert(req[j].name@ + sep == p);
        assert(ni.subrange(p.len() as int, ni.len() as int) =~= decimal(ri + 1));
        assert(nj.subrange(p.len() as int, nj.len() as int) =~= decimal(rj + 1));
        crate::text::law_decimal_injective(ri + 1, rj + 1);
    }
}

/// Every registered command (one per key) is accounted for: a command the
/// plan leaves to delete is one of the registered ones, unchanged; a
/// registered command it does not leave was claimed by a request with its
/// key, whose target updates it; and every update claims a registered
/// command with the request's key.
pub proof fn law_plan_accounts_for_every_command(
    req: Seq<RequestedCommand>,
    existing: Seq<ExistingCommand>,
    scope: CommandKeyScope,
)
    ensures
        ({
            let m0 = normalize(command_views(existing), scope);
            let (targets, mf) = spec_plan(req, existing, scope);
            &&& forall|k: CommandKey| #[trigger] mf.dom().contains(k) ==> m0.dom().contains(k) && mf[k] == m0[k]
            &&& forall|k: CommandKey|
                #[trigger] m0.dom().contains(k) && !mf.dom().contains(k) ==> exists|i: int|
                    0 <= i < req.len() && request_key(req, i, scope) == k && targets[i]
                        == RegistrationTarget::Update(m0[k].2)
            &&& forall|i: int|
                0 <= i < req.len() && #[trigger] targets[i] is Update ==> m0.dom().contains(request_key(req, i, scope))
                    && !mf.dom().contains(request_key(req, i, scope))
                    && targets[i] == RegistrationTarget::Update(m0[request_key(req, i, scope)].2)
        }),
{
    lemma_plan_upto_accounts(req, scope, normalize(command_views(existing), scope), req.len() as int);
}

proof fn lemma_plan_upto_accounts(req: Seq<RequestedCommand>, scope: CommandKeyScope, m0: Map<CommandKey, CommandView>, n: int)
    requires
        0 <= n <= req.len(),
    ensures
        ({
            let (targets, mf) = plan_upto(req, scope, m0, n);
            &&& targets.len() == n
            &&& forall|k: CommandKey| #[trigger] mf.dom().contains(k) ==> m0.dom().contains(k) && mf[k] == m0[k]
            &&& forall|k: CommandKey|
                #[trigger] m0.dom().contains(k) && !mf.dom().contains(k) ==> exists|i: int|
                    0 <= i < n && request_key(req, i, scope) == k && targets[i] == RegistrationTarget::Update(m0[k].2)
            &&& forall|i: int|
                0 <= i < n && #[trigger] targets[i] is Update ==> m0.dom().contains(request_key(req, i, scope))
                    && !mf.dom().contains(request_key(req, i, scope))
                    && targets[i] == RegistrationTarget::Update(m0[request_key(req, i, scope)].2)
        }),
    decreases n,
{
    if n > 0 {
        lemma_plan_upto_accounts(req, scope, m0, n - 1);
        let (targets, m) = plan_upto(req, scope, m0, n - 1);
        let (t2, m2) = plan_upto(req, scope, m0, n);
        let k = request_key(req, n - 1, scope);
        assert forall|x: CommandKey| #[trigger] m2.dom().contains(x) implies m0.dom().contains(x) && m2[x] == m0[x] by {
            assert(m.dom().contains(x));
        }
        assert forall|x: CommandKey| #[trigger] m0.dom().contains(x) && !m2.dom().contains(x) implies exists|i: int|
            0 <= i < n && request_key(req, i, scope) == x && t2[i] == RegistrationTarget::Update(m0[x].2) by {
            if m.dom().contains(x) {
                assert(x == k);
                assert(t2[n - 1] == RegistrationTarget::Update(m0[x].2));
            } else {
                let i = choose|i: int|
                    0 <= i < n - 1 && request_key(req, i, scope) == x && targets[i] == RegistrationTarget::Update(m0[x].2);
                assert(t2[i] == targets[i]);
            }
        }
        assert forall|i: int| 0 <= i < n && #[trigger] t2[i] is Update implies m0.dom().contains(request_key(req, i, scope))
            && !m2.dom().contains(request_key(req, i, scope))
            && t2[i] == RegistrationTarget::Update(m0[request_key(req, i, scope)].2) by {
            if i < n - 1 {
                assert(t2[i] == targets[i]);
            }
        }
    }
}

} // verus!

verus! {

/// The plugin that a stored command registration request belongs to: its
/// key starts with the plugin's UUID, up to the first `:`.
pub fn parse_command_entry_key(key: &str) -> (r: Option<u128>)
    ensures
        r == match crate::text::spec_split_once(key@, ':') {
            Some((uuid_text, _)) => spec_uuid_parse(uuid_text),
            None => None,
        },
{
    match crate::text::split_once_char(key, ':') {
        Some((uuid_text, _)) => crate::ids::uuid_parse(uuid_text),
        None => None,
    }
}

/// The message reported when a command could not be registered.
pub fn registration_failure_message(name: &str, plugin_uuid: u128) -> (r: String)
    ensures
        r@ == "Failed to register the "@ + name@ + " command from the "@ + spec_uuid_text(plugin_uuid) + " plugin"@,
{
    let mut m = "Failed to register the ".to_string();
    m.append(name);
    m.append(" command from the ");
    let uuid = uuid_to_string(plugin_uuid);
    m.append(uuid.as_str());
    m.append(" plugin");
    m
}

/// The bytes of a command id, least significant first: the database key
/// under which the plugin of a registered command is stored, and under which
/// an interaction with that command is looked up.
pub open spec fn command_key_bytes(command_id: u64) -> Seq<u8> {
    seq![
        command_id as u8,
        (command_id >> 8u64) as u8,
        (command_id >> 16u64) as u8,
        (command_id >> 24u64) as u8,
        (command_id >> 32u64) as u8,
        (command_id >> 40u64) as u8,
        (command_id >> 48u64) as u8,
        (command_id >> 56u64) as u8,
    ]
}

/// The database key of a registered command: the 8 bytes of its id, least
/// significant first.
pub fn command_id_key(command_id: u64) -> (r: Vec<u8>)
    ensures
        r@ == command_key_bytes(command_id),
{
    let r = vec![
        command_id as u8,
        (command_id >> 8u64) as u8,
        (command_id >> 16u64) as u8,
        (command_id >> 24u64) as u8,
        (command_id >> 32u64) as u8,
        (command_id >> 40u64) as u8,
        (command_id >> 48u64) as u8,
        (command_id >> 56u64) as u8,
    ];
    assert(r@ =~= command_key_bytes(command_id));
    r
}

/// Distinct commands get distinct keys, so the key of a command finds the
/// plugin stored for that command and no other.
pub proof fn law_command_key_injective(a: u64, b: u64)
    ensures
        command_key_bytes(a) == command_key_bytes(b) ==> a == b,
{
    if command_key_bytes(a) == command_key_bytes(b) {
        let ka = command_key_bytes(a);
        let kb = command_key_bytes(b);
        assert(ka[0] == kb[0] && ka[1] == kb[1] && ka[2] == kb[2] && ka[3] == kb[3]);
        assert(ka[4] == kb[4] && ka[5] == kb[5] && ka[6] == kb[6] && ka[7] == kb[7]);
        assert(
            (a as u8 == b as u8 && (a >> 8u64) as u8 == (b >> 8u64) as u8 && (a >> 16u64) as u8 == (b >> 16u64) as u8
                && (a >> 24u64) as u8 == (b >> 24u64) as u8 && (a >> 32u64) as u8 == (b >> 32u64) as u8
                && (a >> 40u64) as u8 == (b >> 40u64) as u8 && (a >> 48u64) as u8 == (b >> 48u64) as u8
                && (a >> 56u64) as u8 == (b >> 56u64) as u8) ==> a == b
        ) by (bit_vector);
    }
}

/// The registration outcome of one command: its id, or why it failed.
pub type RegistrationOutcome = Result<u64, String>;

/// The outcomes of one plugin's commands, by registered name.
pub struct PluginRegistrationResults {
    pub plugin_uuid: u128,
    pub results: Vec<(String, RegistrationOutcome)>,
}

/// An outcome as plain values.
pub open spec fn outcome_view(o: RegistrationOutcome) -> Result<u64, Seq<char>> {
    match o {
        Ok(id) => Ok(id),
        Err(m) => Err(m@),
    }
}

/// One plugin's outcomes as plain values.
pub type PluginResultsView = (u128, Seq<(Seq<char>, Result<u64, Seq<char>>)>);

/// All outcomes as plain values.
pub open spec fn results_view(all: Seq<PluginRegistrationResults>) -> Seq<PluginResultsView> {
    all.map_values(|p: PluginRegistrationResults| (
        p.plugin_uuid,
        p.results@.map_values(|e: (String, RegistrationOutcome)| (e.0@, outcome_view(e.1))),
    ))
}

/// The outcomes after recording the outcome of the command `name` of a
/// plugin: the plugin gets an entry if it has none, and the outcome replaces
/// an earlier one for the same name.
pub open spec fn spec_record(
    all: Seq<PluginResultsView>,
    plugin_uuid: u128,
    name: Seq<char>,
    outcome: Result<u64, Seq<char>>,
) -> Seq<PluginResultsView> {
    match position_of(all, plugin_uuid) {
        Some(i) => all.update(i, (plugin_uuid, set_entry(all[i].1, name, outcome))),
        None => all.push((plugin_uuid, seq![(name, outcome)])),
    }
}

/// The outcome recorded for the command `name` of a plugin, if any.
pub open spec fn recorded_outcome(
    all: Seq<PluginResultsView>,
    plugin_uuid: u128,
    name: Seq<char>,
) -> Option<Result<u64, Seq<char>>> {
    match lookup(all, plugin_uuid) {
        Some(entries) => lookup(entries, name),
        None => None,
    }
}

/// What is recorded for a plugin's command reads back as the last outcome
/// recorded for it, and recording leaves every other command's outcome as
/// it was.
pub proof fn law_recorded_outcome_reads_back(
    all: Seq<PluginResultsView>,
    plugin_uuid: u128,
    name: Seq<char>,
    outcome: Result<u64, Seq<char>>,
    other_uuid: u128,
    other_name: Seq<char>,
)
    ensures
        recorded_outcome(spec_record(all, plugin_uuid, name, outcome), plugin_uuid, name) == Some(outcome),
        (other_uuid, other_name) != (plugin_uuid, name) ==> recorded_outcome(
            spec_record(all, plugin_uuid, name, outcome),
            other_uuid,
            other_name,
        ) == recorded_outcome(all, other_uuid, other_name),
{
    let inner = match lookup(all, plugin_uuid) {
        Some(entries) => entries,
        None => Seq::<(Seq<char>, Result<u64, Seq<char>>)>::empty(),
    };
    let new_inner = set_entry(inner, name, outcome);
    lemma_position_of_bounds(all, plugin_uuid);
    assert(spec_record(all, plugin_uuid, name, outcome) == set_entry(all, plugin_uuid, new_inner)) by {
        if position_of(all, plugin_uuid) is None {
            assert(position_of(Seq::<(Seq<char>, Result<u64, Seq<char>>)>::empty(), name) is None);
            assert(new_inner =~= seq![(name, outcome)]);
        }
    }
    lemma_lookup_set_entry(all, plugin_uuid, new_inner, other_uuid);
    lemma_lookup_set_entry(inner, name, outcome, other_name);
    if position_of(all, plugin_uuid) is None {
        assert(position_of(Seq::<(Seq<char>, Result<u64, Seq<char>>)>::empty(), other_name) is None);
    }
}

/// Recording keeps one entry per plugin, and one outcome per command name
/// within each plugin's entry.
pub proof fn law_record_keeps_keys_distinct(
    all: Seq<PluginResultsView>,
    plugin_uuid: u128,
    name: Seq<char>,
    outcome: Result<u64, Seq<char>>,
)
    requires
        keys_distinct(all),
        forall|i: int| 0 <= i < all.len() ==> keys_distinct(#[trigger] all[i].1),
    ensures
        keys_distinct(spec_record(all, plugin_uuid, name, outcome)),
        forall|i: int|
            0 <= i < spec_record(all, plugin_uuid, name, outcome).len() ==> keys_distinct(
                #[trigger] spec_record(all, plugin_uuid, name, outcome)[i].1,
            ),
{
    let inner = match position_of(all, plugin_uuid) {
        Some(i) => all[i].1,
        None => Seq::<(Seq<char>, Result<u64, Seq<char>>)>::empty(),
    };
    let new_inner = set_entry(inner, name, outcome);
    lemma_position_of_bounds(all, plugin_uuid);
    assert(spec_record(all, plugin_uuid, name, outcome) == set_entry(all, plugin_uuid, new_inner)) by {
        if position_of(all, plugin_uuid) is None {
            assert(position_of(Seq::<(Seq<char>, Result<u64, Seq<char>>)>::empty(), name) is None);
            assert(new_inner =~= seq![(name, outcome)]);
        }
    }
    lemma_set_entry_keeps_distinct(all, plugin_uuid, new_inner);
    if position_of(all, plugin_uuid) is Some {
        assert(keys_distinct(inner));
    }
    lemma_set_entry_keeps_distinct(inner, name, outcome);
    let r = spec_record(all, plugin_uuid, name, outcome);
    assert forall|i: int| 0 <= i < r.len() implies keys_distinct(#[trigger] r[i].1) by {
        match position_of(all, plugin_uuid) {
            Some(p) => {
                if i != p {
                    assert(r[i] == all[i]);
                }
            },
            None => {
                if i < all.len() {
                    assert(r[i] == all[i]);
                }
            },
        }
    }
}

fn set_outcome(results: &mut Vec<(String, RegistrationOutcome)>, name: String, outcome: RegistrationOutcome)
    ensures
        final(results)@.map_values(|e: (String, RegistrationOutcome)| (e.0@, outcome_view(e.1))) == set_entry(
            old(results)@.map_values(|e: (String, RegistrationOutcome)| (e.0@, outcome_view(e.1))),
            name@,
            outcome_view(outcome),
        ),
{
    let ghost v = old(results)@.map_values(|e: (String, RegistrationOutcome)| (e.0@, outcome_view(e.1)));
    let ghost nv = name@;
    let ghost ov = outcome_view(outcome);
    let mut i: usize = 0;
    while i < results.len()
        invariant
            i <= results.len(),
            results@ == old(results)@,
            v == old(results)@.map_values(|e: (String, RegistrationOutcome)| (e.0@, outcome_view(e.1))),
            nv == name@,
            ov == outcome_view(outcome),
            position_of(v.subrange(0, i as int), nv) is None,
        decreases results.len() - i,
    {
        proof {
            assert(v.subrange(0, i + 1).drop_last() =~= v.subrange(0, i as int));
        }
        let same = str_eq(results[i].0.as_str(), name.as_str());
        proof {
            assert(same == (results@[i as int].0@ == name@));
        }
        if same {
            proof {
                assert(v[i as int] == (results@[i as int].0@, outcome_view(results@[i as int].1)));
                assert(v[i as int].0 == nv);
                let sub = v.subrange(0, i + 1);
                assert(sub.drop_last() =~= v.subrange(0, i as int));
                assert(sub.last() == v[i as int]);
                assert(position_of(sub, nv) == Some(i as int));
                lemma_position_of_extend(v, nv, i as int);
            }
            let ghost before = results@;
            results.set(i, (name, outcome));
            proof {
                let after = results@.map_values(|e: (String, RegistrationOutcome)| (e.0@, outcome_view(e.1)));
                let expected = v.update(i as int, (nv, ov));
                assert(after.len() == expected.len());
                assert forall|j: int| 0 <= j < after.len() implies after[j] == expected[j] by {
                    if j != i as int {
                        assert(results@[j] == before[j]);
                        assert(after[j] == (results@[j].0@, outcome_view(results@[j].1)));
                        assert(v[j] == (before[j].0@, outcome_view(before[j].1)));
                    } else {
                        assert(results@[j] == (name, outcome));
                    }
                }
                assert(after =~= expected);
            }
            return;
        }
        i = i + 1;
    }
    proof {
        assert(v.subrange(0, v.len() as int) =~= v);
    }
    results.push((name, outcome));
    proof {
        assert(results@.map_values(|e: (String, RegistrationOutcome)| (e.0@, outcome_view(e.1))) =~= v.push((nv, ov)));
    }
}

/// Records the outcome of the command `name` of a plugin.
pub fn record_registration_result(
    all: &mut Vec<PluginRegistrationResults>,
    plugin_uuid: u128,
    name: String,
    outcome: RegistrationOutcome,
)
    ensures
        results_view(final(all)@) == spec_record(results_view(old(all)@), plugin_uuid, name@, outcome_view(outcome)),
{
    let ghost v = results_view(old(all)@);
    let mut i: usize = 0;
    while i < all.len()
        invariant
            i <= all.len(),
            all@ == old(all)@,
            v == results_view(old(all)@),
            position_of(v.subrange(0, i as int), plugin_uuid) is None,
        decreases all.len() - i,
    {
        proof {
            assert(v.subrange(0, i + 1).drop_last() =~= v.subrange(0, i as int));
        }
        if all[i].plugin_uuid == plugin_uuid {
            proof {
                lemma_position_of_extend(v, plugin_uuid, i as int);
            }
            let mut entry = all.remove(i);
            let ghost before = entry.results@.map_values(|e: (String, RegistrationOutcome)| (e.0@, outcome_view(e.1)));
            set_outcome(&mut entry.results, name, outcome);
            all.insert(i, entry);
            proof {
                assert(v[i as int].1 == before);
                assert(results_view(all@) =~= spec_record(v, plugin_uuid, name@, outcome_view(outcome)));
            }
            return;
        }
        i = i + 1;
    }
    proof {
        assert(v.subrange(0, v.len() as int) =~= v);
    }
    let mut results: Vec<(String, RegistrationOutcome)> = Vec::new();
    let ghost nv = name@;
    let ghost ov = outcome_view(outcome);
    results.push((name, outcome));
    all.push(PluginRegistrationResults { plugin_uuid, results });
    proof {
        assert(results@.map_values(|e: (String, RegistrationOutcome)| (e.0@, outcome_view(e.1))) =~= seq![(nv, ov)]);
        assert(results_view(all@) =~= v.push((plugin_uuid, seq![(nv, ov)])));
    }
}

} // verus!
