//! Plugins fetched from registries that publish a listing of their plugins
//! and versions: the lookup of a plugin in a listing, the choice of its
//! version, the grouping of plugins by registry, and the newest version
//! found among cached plugin directories.

use vstd::prelude::*;

use crate::assoc::{
    lemma_lookup_set_entry, lemma_position_of_bounds, lemma_position_of_extend, lemma_position_of_none, lookup,
    position_of, set_entry,
};
use crate::text::str_eq;
use crate::versions::{
    get_plugin_matching_version, spec_matching_version, spec_version_gt, spec_version_gt_zero,
    spec_version_parses, PluginVersion, RegistryPlugin,
};

verus! {

/// A registry's listing of its plugins, by plugin id.
pub struct Registry {
    pub name: String,
    pub description: String,
    pub maintainers: Vec<String>,
    pub plugins: RegistryPlugins,
}

/// The position of the first listed plugin with this id.
pub open spec fn spec_listed_plugin(plugins: Seq<(String, RegistryPlugin)>, id: Seq<char>) -> Option<int>
    decreases plugins.len(),
{
    if plugins.len() == 0 {
        None
    } else {
        match spec_listed_plugin(plugins.drop_last(), id) {
            Some(i) => Some(i),
            None => if plugins.last().0@ == id {
                Some(plugins.len() - 1)
            } else {
                None
            },
        }
    }
}

proof fn lemma_listed_plugin_extend(plugins: Seq<(String, RegistryPlugin)>, id: Seq<char>, i: int)
    requires
        0 <= i < plugins.len(),
        spec_listed_plugin(plugins.subrange(0, i + 1), id) == Some(i),
    ensures
        spec_listed_plugin(plugins, id) == Some(i),
    decreases plugins.len(),
{
    if plugins.len() > i + 1 {
        assert(plugins.drop_last().subrange(0, i + 1) =~= plugins.subrange(0, i + 1));
        lemma_listed_plugin_extend(plugins.drop_last(), id, i);
    } else {
        assert(plugins.subrange(0, i + 1) =~= plugins);
    }
}

/// A plugin listing keyed by plugin id: no id is listed twice.
pub struct RegistryPlugins {
    entries: Vec<(String, RegistryPlugin)>,
}

/// No two entries of a listing share a plugin id.
pub open spec fn ids_distinct(s: Seq<(String, RegistryPlugin)>) -> bool {
    forall|i: int, j: int| 0 <= i < j < s.len() ==> s[i].0@ != s[j].0@
}

/// A listing after adding an entry: it replaces the entry with the same id
/// in place, or is appended when there is none.
pub open spec fn spec_insert_listed(
    s: Seq<(String, RegistryPlugin)>,
    e: (String, RegistryPlugin),
) -> Seq<(String, RegistryPlugin)> {
    match spec_listed_plugin(s, e.0@) {
        Some(i) => s.update(i, e),
        None => s.push(e),
    }
}

/// The listing made of the entries in order, a later entry for an id
/// replacing the earlier one.
pub open spec fn spec_listing(entries: Seq<(String, RegistryPlugin)>) -> Seq<(String, RegistryPlugin)>
    decreases entries.len(),
{
    if entries.len() == 0 {
        Seq::empty()
    } else {
        spec_insert_listed(spec_listing(entries.drop_last()), entries.last())
    }
}

proof fn lemma_listed_plugin_bounds(s: Seq<(String, RegistryPlugin)>, id: Seq<char>)
    ensures
        spec_listed_plugin(s, id) matches Some(i) ==> 0 <= i < s.len() && s[i].0@ == id,
        spec_listed_plugin(s, id) is None ==> forall|j: int| 0 <= j < s.len() ==> s[j].0@ != id,
    decreases s.len(),
{
    if s.len() > 0 {
        lemma_listed_plugin_bounds(s.drop_last(), id);
        if spec_listed_plugin(s, id) is None {
            assert forall|j: int| 0 <= j < s.len() implies s[j].0@ != id by {
                if j < s.len() - 1 {
                    assert(s[j] == s.drop_last()[j]);
                }
            }
        }
    }
}

proof fn lemma_insert_listed_distinct(s: Seq<(String, RegistryPlugin)>, e: (String, RegistryPlugin))
    requires
        ids_distinct(s),
    ensures
        ids_distinct(spec_insert_listed(s, e)),
{
    lemma_listed_plugin_bounds(s, e.0@);
    let r = spec_insert_listed(s, e);
    assert forall|i: int, j: int| 0 <= i < j < r.len() implies r[i].0@ != r[j].0@ by {
        match spec_listed_plugin(s, e.0@) {
            Some(k) => {
                if i != k && j != k {
                    assert(r[i] == s[i] && r[j] == s[j]);
                } else if i == k {
                    assert(r[j] == s[j]);
                } else {
                    assert(r[i] == s[i]);
                }
            },
            None => {
                assert(r[i] == s[i]);
                if j < s.len() {
                    assert(r[j] == s[j]);
                }
            },
        }
    }
}

/// The position of the first entry with this id.
fn listed_position(s: &Vec<(String, RegistryPlugin)>, id: &str) -> (r: Option<usize>)
    ensures
        match r {
            Some(j) => spec_listed_plugin(s@, id@) == Some(j as int) && j < s@.len(),
            None => spec_listed_plugin(s@, id@) is None,
        },
{
    let mut i: usize = 0;
    while i < s.len()
        invariant
            i <= s.len(),
            spec_listed_plugin(s@.subrange(0, i as int), id@) is None,
        decreases s.len() - i,
    {
        proof {
            assert(s@.subrange(0, i + 1).drop_last() =~= s@.subrange(0, i as int));
        }
        if str_eq(s[i].0.as_str(), id) {
            proof {
                lemma_listed_plugin_extend(s@, id@, i as int);
            }
            return Some(i);
        }
        i = i + 1;
    }
    proof {
        assert(s@.subrange(0, s@.len() as int) =~= s@);
    }
    None
}

impl RegistryPlugins {
    #[verifier::type_invariant]
    spec fn distinct(&self) -> bool {
        ids_distinct(self.entries@)
    }

    /// The entries of the listing, each id once.
    pub closed spec fn entries(&self) -> Seq<(String, RegistryPlugin)> {
        self.entries@
    }

    /// The listing of these entries: a later entry for an id replaces the
    /// earlier one in place, as inserting into a map does.
    pub fn from_entries(entries: Vec<(String, RegistryPlugin)>) -> (r: Self)
        ensures
            r.entries() == spec_listing(entries@),
            ids_distinct(r.entries()),
    {
        let ghost all = entries@;
        let mut listed: Vec<(String, RegistryPlugin)> = Vec::new();
        let mut rest = entries;
        let mut n: usize = 0;
        proof {
            assert(all.len() == rest.len());
            assert(rest@ =~= all.subrange(0, all.len() as int));
            assert(spec_listing(all.subrange(0, 0)) =~= listed@);
        }
        while rest.len() > 0
            invariant
                n + rest.len() == all.len(),
                all.len() <= usize::MAX,
                rest@ == all.subrange(n as int, all.len() as int),
                listed@ == spec_listing(all.subrange(0, n as int)),
                ids_distinct(listed@),
            decreases rest.len(),
        {
            let e = rest.remove(0);
            proof {
                assert(all.subrange(0, n + 1).drop_last() =~= all.subrange(0, n as int));
                assert(all.subrange(0, n + 1).last() == e);
                assert(rest@ =~= all.subrange(n + 1, all.len() as int));
                lemma_insert_listed_distinct(listed@, e);
            }
            let ghost before = listed@;
            match listed_position(&listed, e.0.as_str()) {
                Some(i) => {
                    listed.set(i, e);
                },
                None => {
                    listed.push(e);
                },
            }
            proof {
                assert(listed@ =~= spec_insert_listed(before, e));
            }
            n = n + 1;
        }
        proof {
            assert(all.subrange(0, all.len() as int) =~= all);
        }
        RegistryPlugins { entries: listed }
    }

    /// The entry of a plugin id, if it is listed.
    pub fn get(&self, plugin_id: &str) -> (r: Option<&RegistryPlugin>)
        ensures
            ids_distinct(self.entries()),
            match spec_listed_plugin(self.entries(), plugin_id@) {
                Some(i) => r == Some(&self.entries()[i].1),
                None => r is None,
            },
    {
        proof {
            use_type_invariant(self);
        }
        match listed_position(&self.entries, plugin_id) {
            Some(i) => Some(&self.entries[i].1),
            None => None,
        }
    }
}

impl Registry {
    /// The listing entry of a plugin, if the registry lists it.
    pub fn get_plugin(&self, plugin_id: &str) -> (r: Option<&RegistryPlugin>)
        ensures
            match spec_listed_plugin(self.plugins.entries(), plugin_id@) {
                Some(i) => r == Some(&self.plugins.entries()[i].1),
                None => r is None,
            },
    {
        self.plugins.get(plugin_id)
    }
}

/// Why a plugin could not be taken from a registry listing.
#[derive(Debug)]
pub enum RegistryPluginError {
    /// The listing has no entry for the plugin.
    NotListed,
    /// No listed version is usable (and, for an exact request, none matches).
    NoUsableVersion,
    /// A listed version or requirement does not parse.
    Version(String),
}

/// The message of a refusal, as it is reported for the plugin `plugin_uid`
/// of the registry `registry_id`.
pub fn registry_plugin_error_message(
    error: &RegistryPluginError,
    registry_id: &str,
    plugin_id: &str,
    plugin_uid: &str,
) -> (r: String)
    ensures
        error is NotListed ==> r@ == "The "@ + registry_id@ + " registry has no "@ + plugin_id@ + " plugin entry"@,
        error is NoUsableVersion ==> r@ == "The "@ + plugin_uid@
            + " plugin has no version which isn't marked as deprecated and is compatible with this version of the program"@,
        error matches RegistryPluginError::Version(m) ==> r@ == m@,
{
    match error {
        RegistryPluginError::NotListed => {
            let mut m = "The ".to_string();
            m.append(registry_id);
            m.append(" registry has no ");
            m.append(plugin_id);
            m.append(" plugin entry");
            m
        },
        RegistryPluginError::NoUsableVersion => {
            let mut m = "The ".to_string();
            m.append(plugin_uid);
            m.append(" plugin has no version which isn't marked as deprecated and is compatible with this version of the program");
            m
        },
        RegistryPluginError::Version(message) => message.clone(),
    }
}

/// Picks the version of a plugin from a registry listing: the plugin must be
/// listed, and its listing must have a version that satisfies the request.
pub fn select_registry_plugin_version(
    registry: &Registry,
    plugin_id: &str,
    requested_version: &str,
    program_version: &PluginVersion,
) -> (r: Result<PluginVersion, RegistryPluginError>)
    ensures
        match spec_listed_plugin(registry.plugins.entries(), plugin_id@) {
            None => r matches Err(RegistryPluginError::NotListed),
            Some(i) => match spec_matching_version(
                requested_version@,
                registry.plugins.entries()[i].1.versions@,
                program_version@,
            ) {
                Err(()) => r matches Err(RegistryPluginError::Version(_)),
                Ok(None) => r matches Err(RegistryPluginError::NoUsableVersion),
                Ok(Some(t)) => r matches Ok(v) && v@ == t,
            },
        },
{
    let plugin = match registry.get_plugin(plugin_id) {
        Some(p) => p,
        None => return Err(RegistryPluginError::NotListed),
    };
    match get_plugin_matching_version(requested_version, &plugin.versions, program_version) {
        Ok(Some(v)) => Ok(v),
        Ok(None) => Err(RegistryPluginError::NoUsableVersion),
        Err(e) => Err(RegistryPluginError::Version(e.message)),
    }
}

/// The newest version among cached version directory names, read from
/// first to last: a name replaces the current choice when it parses and is
/// greater than it (greater than `0.0.0` when there is none yet); names that
/// do not parse are skipped.
pub open spec fn spec_latest_cached(names: Seq<Seq<char>>) -> Option<Seq<char>>
    decreases names.len(),
{
    if names.len() == 0 {
        None
    } else {
        let cur = spec_latest_cached(names.drop_last());
        let n = names.last();
        if !spec_version_parses(n) {
            cur
        } else {
            let greater = match cur {
                Some(c) => spec_version_gt(n, c),
                None => spec_version_gt_zero(n),
            };
            if greater {
                Some(n)
            } else {
                cur
            }
        }
    }
}

/// The texts of a list of strings.
pub open spec fn texts(v: Seq<String>) -> Seq<Seq<char>> {
    v.map_values(|s: String| s@)
}

/// The newest version among the names of the cached version directories of
/// a plugin.
pub fn latest_cached_version(directory_names: &Vec<String>) -> (r: Option<PluginVersion>)
    ensures
        match spec_latest_cached(texts(directory_names@)) {
            None => r is None,
            Some(t) => r matches Some(v) && v@ == t,
        },
        r matches Some(v) ==> exists|i: int| 0 <= i < directory_names@.len() && #[trigger] directory_names@[i]@ == v@,
        r matches Some(v) ==> forall|i: int|
            0 <= i < directory_names@.len() && spec_version_parses(directory_names@[i]@)
                && spec_version_gt_zero(directory_names@[i]@) ==> !#[trigger] spec_version_gt(directory_names@[i]@, v@),
        r is None ==> forall|i: int|
            0 <= i < directory_names@.len() && #[trigger] spec_version_parses(directory_names@[i]@)
                ==> !spec_version_gt_zero(directory_names@[i]@),
{
    let mut latest: Option<PluginVersion> = None;
    let mut i: usize = 0;
    while i < directory_names.len()
        invariant
            i <= directory_names.len(),
            match spec_latest_cached(texts(directory_names@).subrange(0, i as int)) {
                None => latest is None,
                Some(t) => latest matches Some(v) && v@ == t,
            },
            latest matches Some(c) ==> exists|j: int| 0 <= j < i && #[trigger] directory_names@[j]@ == c@,
            latest matches Some(c) ==> forall|j: int|
                0 <= j < i && spec_version_parses(directory_names@[j]@) && spec_version_gt_zero(directory_names@[j]@)
                    ==> !#[trigger] spec_version_gt(directory_names@[j]@, c@),
            latest is None ==> forall|j: int|
                0 <= j < i && #[trigger] spec_version_parses(directory_names@[j]@) ==> !spec_version_gt_zero(directory_names@[j]@),
        decreases directory_names.len() - i,
    {
        proof {
            assert(texts(directory_names@).subrange(0, i + 1).drop_last() =~= texts(directory_names@).subrange(0, i as int));
            assert(texts(directory_names@).subrange(0, i + 1).last() == directory_names@[i as int]@);
        }
        let ghost old_latest = latest;
        match PluginVersion::parse(directory_names[i].as_str()) {
            Ok(candidate) => {
                let greater = match &latest {
                    Some(cur) => candidate.gt(cur),
                    None => candidate.gt_zero(),
                };
                if greater {
                    proof {
                        let w = candidate@;
                        assert(directory_names@[i as int]@ == w);
                        assert forall|j: int|
                            0 <= j < i + 1 && spec_version_parses(directory_names@[j]@)
                                && spec_version_gt_zero(directory_names@[j]@)
                                implies !#[trigger] spec_version_gt(directory_names@[j]@, w) by {
                            if j < i {
                                if let Some(c) = old_latest {
                                    assert(!spec_version_gt(directory_names@[j]@, c@));
                                }
                            }
                        }
                    }
                    latest = Some(candidate);
                }
            },
            Err(_) => {},
        }
        i = i + 1;
    }
    proof {
        assert(texts(directory_names@).subrange(0, directory_names@.len() as int) =~= texts(directory_names@));
    }
    latest
}

/// The registries in order of first appearance, each with the items that
/// name it, in their order.
pub open spec fn spec_group<T>(items: Seq<(String, T)>) -> Seq<(Seq<char>, Seq<T>)>
    decreases items.len(),
{
    if items.len() == 0 {
        Seq::empty()
    } else {
        let g = spec_group(items.drop_last());
        let (k, t) = (items.last().0@, items.last().1);
        match position_of(g, k) {
            Some(i) => g.update(i, (k, g[i].1.push(t))),
            None => g.push((k, seq![t])),
        }
    }
}

/// The plain values of a grouping.
pub open spec fn group_view<T>(g: Seq<(String, Vec<T>)>) -> Seq<(Seq<char>, Seq<T>)> {
    g.map_values(|e: (String, Vec<T>)| (e.0@, e.1@))
}

fn find_group<T>(groups: &Vec<(String, Vec<T>)>, key: &str) -> (r: Option<usize>)
    ensures
        match (r, position_of(group_view(groups@), key@)) {
            (Some(i), Some(j)) => i == j,
            (None, None) => true,
            _ => false,
        },
        r matches Some(i) ==> i < groups.len(),
{
    let mut i: usize = 0;
    while i < groups.len()
        invariant
            i <= groups.len(),
            position_of(group_view(groups@).subrange(0, i as int), key@) is None,
        decreases groups.len() - i,
    {
        proof {
            assert(group_view(groups@).subrange(0, i + 1).drop_last() =~= group_view(groups@).subrange(0, i as int));
        }
        if str_eq(groups[i].0.as_str(), key) {
            proof {
                lemma_position_of_extend(group_view(groups@), key@, i as int);
            }
            return Some(i);
        }
        i = i + 1;
    }
    proof {
        assert(group_view(groups@).subrange(0, groups@.len() as int) =~= group_view(groups@));
    }
    None
}

/// Groups items by the registry they name, registries in order of first
/// appearance and items in their order.
pub fn group_by_registry<T>(items: Vec<(String, T)>) -> (r: Vec<(String, Vec<T>)>)
    ensures
        group_view(r@) == spec_group(items@),
{
    let ghost all = items@;
    let mut groups: Vec<(String, Vec<T>)> = Vec::new();
    let mut rest = items;
    let mut n: usize = 0;
    proof {
        assert(group_view(groups@) =~= spec_group(all.subrange(0, 0)));
        assert(all.len() == rest.len());
        assert(rest@ =~= all.subrange(0, all.len() as int));
    }
    while rest.len() > 0
        invariant
            n + rest.len() == all.len(),
            all.len() <= usize::MAX,
            rest@ == all.subrange(n as int, all.len() as int),
            group_view(groups@) == spec_group(all.subrange(0, n as int)),
        decreases rest.len(),
    {
        let (key, item) = rest.remove(0);
        proof {
            assert(all.subrange(0, n + 1).drop_last() =~= all.subrange(0, n as int));
            assert(all.subrange(0, n + 1).last() == (key, item));
            assert(rest@ =~= all.subrange(n + 1, all.len() as int));
            lemma_position_of_bounds(group_view(groups@), key@);
        }
        let ghost before = group_view(groups@);
        match find_group(&groups, key.as_str()) {
            Some(i) => {
                let mut entry = groups.remove(i);
                entry.1.push(item);
                groups.insert(i, entry);
                proof {
                    assert(group_view(groups@) =~= before.update(i as int, (key@, before[i as int].1.push(item))));
                }
            },
            None => {
                let mut members: Vec<T> = Vec::new();
                members.push(item);
                groups.push((key, members));
                proof {
                    assert(group_view(groups@) =~= before.push((key@, seq![item])));
                }
            },
        }
        n = n + 1;
    }
    proof {
        assert(all.subrange(0, all.len() as int) =~= all);
    }
    groups
}

/// Each registry gets one group: no two groups of a grouping share a
/// registry.
pub proof fn law_groups_have_distinct_registries<T>(items: Seq<(String, T)>)
    ensures
        forall|a: int, b: int| 0 <= a < b < spec_group(items).len() ==> spec_group(items)[a].0 != spec_group(items)[b].0,
    decreases items.len(),
{
    if items.len() > 0 {
        let g = spec_group(items.drop_last());
        let k = items.last().0@;
        law_groups_have_distinct_registries(items.drop_last());
        lemma_position_of_bounds(g, k);
        lemma_position_of_none(g, k);
        let r = spec_group(items);
        assert forall|a: int, b: int| 0 <= a < b < r.len() implies r[a].0 != r[b].0 by {
            match position_of(g, k) {
                Some(i) => {
                    assert(r[a].0 == g[a].0);
                    assert(r[b].0 == g[b].0);
                },
                None => {
                    assert(r[a] == g[a]);
                    if b < g.len() {
                        assert(r[b] == g[b]);
                    }
                },
            }
        }
    }
}

/// The items that name registry `k`, in their order.
pub open spec fn items_for<T>(items: Seq<(String, T)>, k: Seq<char>) -> Seq<T>
    decreases items.len(),
{
    if items.len() == 0 {
        Seq::empty()
    } else {
        let p = items_for(items.drop_last(), k);
        if items.last().0@ == k {
            p.push(items.last().1)
        } else {
            p
        }
    }
}

/// Grouping loses and invents nothing: the group of a registry holds
/// exactly the items that name it, in their order, and a registry that no
/// item names has no group.
pub proof fn law_group_holds_items_of_its_registry<T>(items: Seq<(String, T)>, k: Seq<char>)
    ensures
        match lookup(spec_group(items), k) {
            Some(g) => g == items_for(items, k) && g.len() > 0,
            None => items_for(items, k).len() == 0,
        },
    decreases items.len(),
{
    if items.len() > 0 {
        let dl = items.drop_last();
        let g = spec_group(dl);
        let kl = items.last().0@;
        let t = items.last().1;
        let newv = match lookup(g, kl) {
            Some(v) => v.push(t),
            None => seq![t],
        };
        law_group_holds_items_of_its_registry(dl, k);
        law_group_holds_items_of_its_registry(dl, kl);
        lemma_position_of_bounds(g, kl);
        assert(spec_group(items) == set_entry(g, kl, newv));
        lemma_lookup_set_entry(g, kl, newv, k);
        if k == kl {
            if lookup(g, kl) is None {
                assert(items_for(dl, k) =~= Seq::<T>::empty());
                assert(items_for(items, k) =~= seq![t]);
            }
        }
    }
}

/// The text of the URL that `url::Url::parse(base)` resolves `path` against
/// with `Url::join`, if both succeed.
pub uninterp spec fn spec_url_join(base: Seq<char>, path: Seq<char>) -> Option<Seq<char>>;

/// `url::Url::parse(base)` followed by `Url::join(path)`, as text: the
/// result depends on the two texts alone.
#[verifier::external_body]
fn url_join(base: &str, path: &str) -> (r: Option<String>)
    ensures
        match r {
            Some(u) => spec_url_join(base@, path@) == Some(u@),
            None => spec_url_join(base@, path@) is None,
        },
{
    url::Url::parse(base).and_then(|b| b.join(path)).ok().map(|u| u.to_string())
}

/// The base URL of a registry: its id served over HTTPS.
pub open spec fn registry_base(registry_id: Seq<char>) -> Seq<char> {
    "https://"@ + registry_id + "/"@
}

/// The URL of a file of a registry, resolved against the registry's base.
pub fn registry_file_url(registry_id: &str, path: &str) -> (r: Option<String>)
    ensures
        match r {
            Some(u) => spec_url_join(registry_base(registry_id@), path@) == Some(u@),
            None => spec_url_join(registry_base(registry_id@), path@) is None,
        },
{
    let mut base = "https://".to_string();
    base.append(registry_id);
    base.append("/");
    url_join(base.as_str(), path)
}

/// The newest cached version is the maximum: when the version order is
/// irreflexive and transitive (as semver's is), the version found is one of
/// the names, it parses, and no name that parses as a version above `0.0.0`
/// is greater; nothing is found only when no name parses as a version above
/// `0.0.0`.
pub proof fn law_latest_cached_is_newest(names: Seq<Seq<char>>)
    requires
        forall|a: Seq<char>| spec_version_parses(a) ==> !#[trigger] spec_version_gt(a, a),
        forall|a: Seq<char>, b: Seq<char>, c: Seq<char>|
            spec_version_parses(a) && spec_version_parses(b) && spec_version_parses(c)
                && #[trigger] spec_version_gt(a, b) && #[trigger] spec_version_gt(b, c) ==> spec_version_gt(a, c),
    ensures
        spec_latest_cached(names) matches Some(v) ==> names.contains(v) && spec_version_parses(v) && forall|i: int|
            0 <= i < names.len() && spec_version_parses(names[i]) && spec_version_gt_zero(names[i])
                ==> !#[trigger] spec_version_gt(names[i], v),
        spec_latest_cached(names) is None ==> forall|i: int|
            0 <= i < names.len() && #[trigger] spec_version_parses(names[i]) ==> !spec_version_gt_zero(names[i]),
    decreases names.len(),
{
    if names.len() > 0 {
        let dl = names.drop_last();
        law_latest_cached_is_newest(dl);
        let n = names.last();
        assert(names[names.len() - 1] == n);
        match spec_latest_cached(names) {
            Some(v) => {
                if spec_latest_cached(dl) == Some(v) {
                    let j = choose|j: int| 0 <= j < dl.len() && dl[j] == v;
                    assert(names[j] == v);
                }
                assert forall|i: int|
                    0 <= i < names.len() && spec_version_parses(names[i]) && spec_version_gt_zero(names[i])
                        implies !#[trigger] spec_version_gt(names[i], v) by {
                    if i < names.len() - 1 {
                        assert(names[i] == dl[i]);
                        if let Some(c) = spec_latest_cached(dl) {
                            assert(!spec_version_gt(dl[i], c));
                        }
                    }
                }
            },
            None => {
                assert forall|i: int| 0 <= i < names.len() && #[trigger] spec_version_parses(names[i])
                    implies !spec_version_gt_zero(names[i]) by {
                    if i < names.len() - 1 {
                        assert(names[i] == dl[i]);
                    }
                }
            },
        }
    }
}

} // verus!
