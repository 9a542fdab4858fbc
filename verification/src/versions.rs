//! Semantic versions of plugins and the choice of a plugin version from a
//! registry listing: a version is usable when it is not deprecated and its
//! requirement on the program version is met; `latest` asks for the greatest
//! usable version.

use vstd::prelude::*;

use crate::text::str_eq;

verus! {

#[verifier::external_type_specification]
#[verifier::external_body]
pub struct ExSemverError(semver::Error);

/// Whether `semver::Version::parse` accepts the text.
pub uninterp spec fn spec_version_parses(text: Seq<char>) -> bool;

/// Whether the version parsed from `a` is greater than the one parsed from
/// `b` (the order of `semver::Version`).
pub uninterp spec fn spec_version_gt(a: Seq<char>, b: Seq<char>) -> bool;

/// Whether the version parsed from `a` is greater than the version
/// `major.minor.patch` (`semver::Version::new`).
pub uninterp spec fn spec_version_gt_parts(a: Seq<char>, major: u64, minor: u64, patch: u64) -> bool;

/// Whether the version parsed from `a` is greater than `0.0.0`, the baseline
/// a version must pass to be picked.
pub open spec fn spec_version_gt_zero(a: Seq<char>) -> bool {
    spec_version_gt_parts(a, 0, 0, 0)
}

/// The text that the version parsed from `text` displays as.
pub uninterp spec fn spec_version_display(text: Seq<char>) -> Seq<char>;

/// Whether `semver::VersionReq::parse` accepts the text.
pub uninterp spec fn spec_requirement_parses(req: Seq<char>) -> bool;

/// Whether the requirement parsed from `req` matches the version parsed from
/// `version`.
pub uninterp spec fn spec_requirement_matches(req: Seq<char>, version: Seq<char>) -> bool;

/// `semver::Version::parse`: succeeds exactly on the texts that
/// `spec_version_parses` holds of, and a version it parses is not greater
/// than itself; the parsed value is dropped, the text stands for it.
#[verifier::external_body]
fn semver_version_parse(text: &str) -> (r: Result<(), semver::Error>)
    ensures
        r is Ok <==> spec_version_parses(text@),
        r is Ok ==> !spec_version_gt(text@, text@),
{
    semver::Version::parse(text).map(|_| ())
}

/// `>` on two `semver::Version` values parsed from the texts. The order is a
/// strict total order (the derived `Ord` of `Version`): a version is not
/// greater than itself, of two versions at most one is greater, and when `a`
/// is greater than `b`, every version greater than `a` is greater than `b`.
#[verifier::external_body]
fn semver_version_gt(a: &str, b: &str) -> (r: bool)
    requires
        spec_version_parses(a@),
        spec_version_parses(b@),
    ensures
        r == spec_version_gt(a@, b@),
        a@ == b@ ==> !r,
        r ==> !spec_version_gt(b@, a@),
        r ==> forall|c: Seq<char>| spec_version_parses(c) && #[trigger] spec_version_gt(c, a@) ==> spec_version_gt(c, b@),
{
    semver::Version::parse(a).unwrap() > semver::Version::parse(b).unwrap()
}

/// `>` between the `semver::Version` parsed from the text and
/// `semver::Version::new(major, minor, patch)`.
#[verifier::external_body]
fn semver_version_gt_parts(a: &str, major: u64, minor: u64, patch: u64) -> (r: bool)
    requires
        spec_version_parses(a@),
    ensures
        r == spec_version_gt_parts(a@, major, minor, patch),
{
    semver::Version::parse(a).unwrap() > semver::Version::new(major, minor, patch)
}

/// `Display` of the version parsed from the text.
#[verifier::external_body]
fn semver_version_display(text: &str) -> (r: String)
    requires
        spec_version_parses(text@),
    ensures
        r@ == spec_version_display(text@),
{
    semver::Version::parse(text).unwrap().to_string()
}

/// `semver::VersionReq::parse` followed by `VersionReq::matches` on the
/// version parsed from `version`: fails exactly when the requirement does
/// not parse, and otherwise tells whether it matches.
#[verifier::external_body]
fn semver_requirement_matches(req: &str, version: &str) -> (r: Result<bool, semver::Error>)
    requires
        spec_version_parses(version@),
    ensures
        r is Ok <==> spec_requirement_parses(req@),
        r matches Ok(b) ==> b == spec_requirement_matches(req@, version@),
{
    semver::VersionReq::parse(req).map(|r| r.matches(&semver::Version::parse(version).unwrap()))
}

/// The message of a `semver::Error`.
#[verifier::external_body]
fn semver_error_message(e: &semver::Error) -> (r: String) {
    e.to_string()
}

/// An error met while reading versions: a version or a version requirement
/// that does not parse.
#[derive(Debug)]
pub struct VersionError {
    pub message: String,
}

/// A semantic version, kept as the text it was parsed from.
pub struct PluginVersion {
    text: String,
}

impl View for PluginVersion {
    type V = Seq<char>;

    closed spec fn view(&self) -> Seq<char> {
        self.text@
    }
}

impl PluginVersion {
    #[verifier::type_invariant]
    spec fn parses(self) -> bool {
        spec_version_parses(self.text@)
    }

    /// Parses a semantic version.
    pub fn parse(text: &str) -> (r: Result<PluginVersion, VersionError>)
        ensures
            r is Ok <==> spec_version_parses(text@),
            r matches Ok(v) ==> v@ == text@ && !spec_version_gt(v@, v@),
    {
        match semver_version_parse(text) {
            Ok(()) => Ok(PluginVersion { text: text.to_string() }),
            Err(e) => Err(VersionError { message: semver_error_message(&e) }),
        }
    }

    /// The text this version was parsed from.
    pub fn as_str(&self) -> (r: &str)
        ensures
            r@ == self@,
            spec_version_parses(r@),
    {
        proof {
            use_type_invariant(self);
        }
        self.text.as_str()
    }

    /// Whether this version is greater than `other`.
    pub fn gt(&self, other: &PluginVersion) -> (r: bool)
        ensures
            r == spec_version_gt(self@, other@),
            r ==> forall|c: Seq<char>|
                spec_version_parses(c) && #[trigger] spec_version_gt(c, self@) ==> spec_version_gt(c, other@),
    {
        semver_version_gt(self.as_str(), other.as_str())
    }

    /// Whether this version is greater than `0.0.0`.
    pub fn gt_zero(&self) -> (r: bool)
        ensures
            r == spec_version_gt_zero(self@),
    {
        semver_version_gt_parts(self.as_str(), 0, 0, 0)
    }

    /// The displayed form of this version.
    pub fn to_string(&self) -> (r: String)
        ensures
            r@ == spec_version_display(self@),
    {
        semver_version_display(self.as_str())
    }

    /// A copy of this version.
    pub fn duplicate(&self) -> (r: PluginVersion)
        ensures
            r@ == self@,
    {
        PluginVersion::parse_known(self.as_str())
    }

    fn parse_known(text: &str) -> (r: PluginVersion)
        requires
            spec_version_parses(text@),
        ensures
            r@ == text@,
    {
        PluginVersion { text: text.to_string() }
    }
}

} // verus!

verus! {

/// One version entry of a plugin in a registry listing.
pub struct RegistryPluginVersion {
    pub version: String,
    pub release_time: String,
    pub compatible_program_version: String,
    pub deprecated: Option<bool>,
    pub deprecation_reason: Option<String>,
}

/// A plugin in a registry listing.
pub struct RegistryPlugin {
    pub versions: Vec<RegistryPluginVersion>,
    pub description: String,
}

/// Whether a version entry may be used by the program of version `program`:
/// `Some(false)` when it is deprecated, `None` when its requirement does not
/// parse, and otherwise whether its requirement matches `program`.
pub open spec fn spec_usable(v: RegistryPluginVersion, program: Seq<char>) -> Option<bool> {
    if v.deprecated == Some(true) {
        Some(false)
    } else if !spec_requirement_parses(v.compatible_program_version@) {
        None
    } else {
        Some(spec_requirement_matches(v.compatible_program_version@, program))
    }
}

/// Checks whether a registry version entry may be used by the program whose
/// version is `program_version`.
pub fn check_plugin_version_usability(
    plugin_version: &RegistryPluginVersion,
    program_version: &PluginVersion,
) -> (r: Result<bool, VersionError>)
    ensures
        match spec_usable(*plugin_version, program_version@) {
            Some(b) => r == Ok::<bool, VersionError>(b),
            None => r is Err,
        },
{
    if let Some(deprecated) = plugin_version.deprecated {
        if deprecated {
            return Ok(false);
        }
    }
    match semver_requirement_matches(plugin_version.compatible_program_version.as_str(), program_version.as_str()) {
        Ok(b) => Ok(b),
        Err(e) => Err(VersionError { message: semver_error_message(&e) }),
    }
}

/// The greatest usable version among the entries, read from first to last:
/// an entry replaces the current choice when it is usable and greater than
/// it (greater than `0.0.0` when there is none yet). `Err(())` when an entry's
/// version, or a requirement that is consulted, does not parse.
pub open spec fn spec_latest(vs: Seq<RegistryPluginVersion>, program: Seq<char>) -> Result<Option<Seq<char>>, ()>
    decreases vs.len(),
{
    if vs.len() == 0 {
        Ok(None)
    } else {
        match spec_latest(vs.drop_last(), program) {
            Err(()) => Err(()),
            Ok(cur) => {
                let v = vs.last();
                if !spec_version_parses(v.version@) {
                    Err(())
                } else {
                    match spec_usable(v, program) {
                        None => Err(()),
                        Some(u) => {
                            let greater = match cur {
                                Some(c) => spec_version_gt(v.version@, c),
                                None => spec_version_gt_zero(v.version@),
                            };
                            if u && greater {
                                Ok(Some(v.version@))
                            } else {
                                Ok(cur)
                            }
                        },
                    }
                }
            },
        }
    }
}

/// The index of the first entry whose version text is `requested`.
pub open spec fn spec_first_with_version(vs: Seq<RegistryPluginVersion>, requested: Seq<char>) -> Option<int>
    decreases vs.len(),
{
    if vs.len() == 0 {
        None
    } else {
        match spec_first_with_version(vs.drop_last(), requested) {
            Some(i) => Some(i),
            None => if vs.last().version@ == requested {
                Some(vs.len() - 1)
            } else {
                None
            },
        }
    }
}

/// The version chosen for a request: for `latest` the greatest usable
/// version; otherwise the first entry whose version text equals the request,
/// if it is usable.
pub open spec fn spec_matching_version(
    requested: Seq<char>,
    vs: Seq<RegistryPluginVersion>,
    program: Seq<char>,
) -> Result<Option<Seq<char>>, ()> {
    if requested == "latest"@ {
        spec_latest(vs, program)
    } else {
        match spec_first_with_version(vs, requested) {
            None => Ok(None),
            Some(i) => match spec_usable(vs[i], program) {
                None => Err(()),
                Some(false) => Ok(None),
                Some(true) => if spec_version_parses(vs[i].version@) {
                    Ok(Some(vs[i].version@))
                } else {
                    Err(())
                },
            },
        }
    }
}

proof fn lemma_first_with_version_prefix(vs: Seq<RegistryPluginVersion>, requested: Seq<char>, i: int)
    requires
        0 <= i <= vs.len(),
        forall|j: int| 0 <= j < i ==> vs[j].version@ != requested,
    ensures
        spec_first_with_version(vs.subrange(0, i), requested) is None,
    decreases i,
{
    if i > 0 {
        lemma_first_with_version_prefix(vs, requested, i - 1);
        assert(vs.subrange(0, i).drop_last() =~= vs.subrange(0, i - 1));
    }
}

proof fn lemma_first_with_version_extend(vs: Seq<RegistryPluginVersion>, requested: Seq<char>, i: int)
    requires
        0 <= i < vs.len(),
        spec_first_with_version(vs.subrange(0, i + 1), requested) == Some(i),
    ensures
        spec_first_with_version(vs, requested) == Some(i),
    decreases vs.len(),
{
    if vs.len() > i + 1 {
        assert(vs.drop_last().subrange(0, i + 1) =~= vs.subrange(0, i + 1));
        lemma_first_with_version_extend(vs.drop_last(), requested, i);
    } else {
        assert(vs.subrange(0, i + 1) =~= vs);
    }
}

/// Picks the registry version that satisfies a version request (`latest` or
/// an exact version text).
pub fn get_plugin_matching_version(
    requested_version: &str,
    plugin_versions: &Vec<RegistryPluginVersion>,
    program_version: &PluginVersion,
) -> (r: Result<Option<PluginVersion>, VersionError>)
    ensures
        match spec_matching_version(requested_version@, plugin_versions@, program_version@) {
            Err(()) => r is Err,
            Ok(None) => r matches Ok(None),
            Ok(Some(t)) => r matches Ok(Some(v)) && v@ == t,
        },
        requested_version@ == "latest"@ ==> (r matches Ok(Some(v)) ==> forall|i: int|
            0 <= i < plugin_versions@.len() && spec_usable(plugin_versions@[i], program_version@) == Some(true)
                && spec_version_gt_zero(plugin_versions@[i].version@)
                ==> !#[trigger] spec_version_gt(plugin_versions@[i].version@, v@)),
{
    if str_eq(requested_version, "latest") {
        let mut latest: Option<PluginVersion> = None;
        let mut i: usize = 0;
        while i < plugin_versions.len()
            invariant
                i <= plugin_versions.len(),
                requested_version@ == "latest"@,
                match spec_latest(plugin_versions@.subrange(0, i as int), program_version@) {
                    Ok(None) => latest is None,
                    Ok(Some(t)) => latest matches Some(v) && v@ == t,
                    Err(()) => false,
                },
                forall|j: int| 0 <= j < i ==> spec_version_parses(#[trigger] plugin_versions@[j].version@),
                latest is None ==> forall|j: int|
                    0 <= j < i && #[trigger] spec_usable(plugin_versions@[j], program_version@) == Some(true)
                        ==> !spec_version_gt_zero(plugin_versions@[j].version@),
                latest matches Some(c) ==> forall|j: int|
                    0 <= j < i && spec_usable(plugin_versions@[j], program_version@) == Some(true)
                        && spec_version_gt_zero(plugin_versions@[j].version@)
                        ==> !#[trigger] spec_version_gt(plugin_versions@[j].version@, c@),
            decreases plugin_versions.len() - i,
        {
            proof {
                assert(plugin_versions@.subrange(0, i + 1).drop_last() =~= plugin_versions@.subrange(0, i as int));
                assert(plugin_versions@.subrange(0, i + 1).last() == plugin_versions@[i as int]);
            }
            let entry = &plugin_versions[i];
            let candidate = match PluginVersion::parse(entry.version.as_str()) {
                Ok(v) => v,
                Err(e) => {
                    proof {
                        assert(spec_latest(plugin_versions@.subrange(0, i + 1), program_version@) is Err);
                        lemma_latest_err_prefix(plugin_versions@, program_version@, i as int + 1);
                        assert(spec_matching_version(requested_version@, plugin_versions@, program_version@) is Err);
                    }
                    return Err(e);
                },
            };
            let usable = match check_plugin_version_usability(entry, program_version) {
                Ok(u) => u,
                Err(e) => {
                    proof {
                        assert(spec_latest(plugin_versions@.subrange(0, i + 1), program_version@) is Err);
                        lemma_latest_err_prefix(plugin_versions@, program_version@, i as int + 1);
                        assert(spec_matching_version(requested_version@, plugin_versions@, program_version@) is Err);
                    }
                    return Err(e);
                },
            };
            let greater = match &latest {
                Some(cur) => candidate.gt(cur),
                None => candidate.gt_zero(),
            };
            let ghost old_latest = latest;
            if usable && greater {
                proof {
                    let vs = plugin_versions@;
                    let p = program_version@;
                    let w = candidate@;
                    assert forall|j: int|
                        0 <= j < i + 1 && spec_usable(vs[j], p) == Some(true) && spec_version_gt_zero(vs[j].version@)
                            implies !#[trigger] spec_version_gt(vs[j].version@, w) by {
                        if j < i {
                            if let Some(c) = old_latest {
                                assert(spec_version_parses(vs[j].version@));
                                assert(!spec_version_gt(vs[j].version@, c@));
                            }
                        }
                    }
                }
                latest = Some(candidate);
            }
            proof {
                assert(spec_version_parses(plugin_versions@[i as int].version@));
            }
            i = i + 1;
        }
        proof {
            assert(plugin_versions@.subrange(0, plugin_versions@.len() as int) =~= plugin_versions@);
        }
        return Ok(latest);
    }
    let mut i: usize = 0;
    while i < plugin_versions.len()
        invariant
            i <= plugin_versions.len(),
            requested_version@ != "latest"@,
            forall|j: int| 0 <= j < i ==> plugin_versions@[j].version@ != requested_version@,
        decreases plugin_versions.len() - i,
    {
        if str_eq(plugin_versions[i].version.as_str(), requested_version) {
            proof {
                lemma_first_with_version_prefix(plugin_versions@, requested_version@, i as int);
                assert(plugin_versions@.subrange(0, i + 1).drop_last() =~= plugin_versions@.subrange(0, i as int));
                lemma_first_with_version_extend(plugin_versions@, requested_version@, i as int);
            }
            let ghost found = spec_first_with_version(plugin_versions@, requested_version@);
            assert(found == Some(i as int));
            let usable = match check_plugin_version_usability(&plugin_versions[i], program_version) {
                Ok(u) => u,
                Err(e) => {
                    assert(spec_matching_version(requested_version@, plugin_versions@, program_version@) is Err);
                    return Err(e);
                },
            };
            if usable {
                return match PluginVersion::parse(plugin_versions[i].version.as_str()) {
                    Ok(v) => Ok(Some(v)),
                    Err(e) => {
                        assert(spec_matching_version(requested_version@, plugin_versions@, program_version@) is Err);
                        Err(e)
                    },
                };
            }
            return Ok(None);
        }
        i = i + 1;
    }
    proof {
        lemma_first_with_version_prefix(plugin_versions@, requested_version@, plugin_versions@.len() as int);
        assert(plugin_versions@.subrange(0, plugin_versions@.len() as int) =~= plugin_versions@);
    }
    Ok(None)
}

/// Once the prefix of length `i` gives an error, every longer prefix does.
proof fn lemma_latest_err_prefix(vs: Seq<RegistryPluginVersion>, program: Seq<char>, i: int)
    requires
        0 <= i <= vs.len(),
        spec_latest(vs.subrange(0, i), program) is Err,
    ensures
        spec_latest(vs, program) is Err,
    decreases vs.len() - i,
{
    if i < vs.len() {
        assert(vs.subrange(0, i + 1).drop_last() =~= vs.subrange(0, i));
        lemma_latest_err_prefix(vs, program, i + 1);
    } else {
        assert(vs.subrange(0, i) =~= vs);
    }
}

} // verus!

verus! {

/// The version that `latest` picks is one of the listed entries, and that
/// entry is usable by the program and greater than `0.0.0`.
pub proof fn law_latest_is_usable_entry(vs: Seq<RegistryPluginVersion>, program: Seq<char>)
    ensures
        spec_latest(vs, program) matches Ok(Some(t)) ==> exists|i: int|
            0 <= i < vs.len() && #[trigger] vs[i].version@ == t && spec_usable(vs[i], program)
                == Some(true) && spec_version_parses(t),
    decreases vs.len(),
{
    if vs.len() > 0 {
        law_latest_is_usable_entry(vs.drop_last(), program);
        if let Ok(Some(t)) = spec_latest(vs, program) {
            if let Ok(Some(c)) = spec_latest(vs.drop_last(), program) {
                if c == t && vs.last().version@ != t {
                    let i = choose|i: int|
                        0 <= i < vs.drop_last().len() && #[trigger] vs.drop_last()[i].version@ == t
                            && spec_usable(vs.drop_last()[i], program) == Some(true)
                            && spec_version_parses(t);
                    assert(vs[i] == vs.drop_last()[i]);
                }
            }
            if vs.last().version@ == t {
                if spec_latest(vs, program) != spec_latest(vs.drop_last(), program) {
                    assert(vs[vs.len() - 1].version@ == t);
                } else {
                    let i = choose|i: int|
                        0 <= i < vs.drop_last().len() && #[trigger] vs.drop_last()[i].version@ == t
                            && spec_usable(vs.drop_last()[i], program) == Some(true)
                            && spec_version_parses(t);
                    assert(vs[i] == vs.drop_last()[i]);
                }
            }
        }
    }
}

/// A request for an exact version yields that very version or nothing.
pub proof fn law_exact_request_yields_requested(
    requested: Seq<char>,
    vs: Seq<RegistryPluginVersion>,
    program: Seq<char>,
)
    requires
        requested != "latest"@,
    ensures
        spec_matching_version(requested, vs, program) matches Ok(Some(t)) ==> t == requested,
{
    lemma_first_with_version_is_match(vs, requested);
}

proof fn lemma_first_with_version_is_match(vs: Seq<RegistryPluginVersion>, requested: Seq<char>)
    ensures
        spec_first_with_version(vs, requested) matches Some(i) ==> 0 <= i < vs.len()
            && vs[i].version@ == requested,
    decreases vs.len(),
{
    if vs.len() > 0 {
        lemma_first_with_version_is_match(vs.drop_last(), requested);
    }
}

/// `latest` finds nothing only when no listed entry is usable by the
/// program with a version greater than `0.0.0`.
pub proof fn law_latest_none_means_nothing_usable(vs: Seq<RegistryPluginVersion>, program: Seq<char>)
    ensures
        spec_latest(vs, program) == Ok::<Option<Seq<char>>, ()>(None) ==> forall|i: int|
            0 <= i < vs.len() && #[trigger] spec_usable(vs[i], program) == Some(true)
                ==> !spec_version_gt_zero(vs[i].version@),
    decreases vs.len(),
{
    if vs.len() > 0 {
        law_latest_none_means_nothing_usable(vs.drop_last(), program);
        if spec_latest(vs, program) == Ok::<Option<Seq<char>>, ()>(None) {
            assert forall|i: int|
                0 <= i < vs.len() && #[trigger] spec_usable(vs[i], program) == Some(true)
                    implies !spec_version_gt_zero(vs[i].version@) by {
                if i < vs.len() - 1 {
                    assert(vs[i] == vs.drop_last()[i]);
                }
            }
        }
    }
}

/// Whatever the request, a version handed back is the version of a listed
/// entry that the program may use: the entry is not deprecated, and its
/// compatibility requirement parses and matches the program's version.
pub proof fn law_returned_version_is_usable(requested: Seq<char>, vs: Seq<RegistryPluginVersion>, program: Seq<char>)
    ensures
        spec_matching_version(requested, vs, program) matches Ok(Some(t)) ==> exists|i: int|
            0 <= i < vs.len() && #[trigger] vs[i].version@ == t && vs[i].deprecated != Some(true)
                && spec_requirement_parses(vs[i].compatible_program_version@)
                && spec_requirement_matches(vs[i].compatible_program_version@, program),
{
    if let Ok(Some(t)) = spec_matching_version(requested, vs, program) {
        if requested == "latest"@ {
            law_latest_is_usable_entry(vs, program);
            let i = choose|i: int|
                0 <= i < vs.len() && #[trigger] vs[i].version@ == t && spec_usable(vs[i], program) == Some(true)
                    && spec_version_parses(t);
            assert(vs[i].version@ == t);
        } else {
            lemma_first_with_version_is_match(vs, requested);
            let i = spec_first_with_version(vs, requested)->0;
            assert(vs[i].version@ == t);
        }
    }
}

/// An exact request finds the first entry listed with that version; when
/// that entry is usable by the program (not deprecated, its requirement
/// parses and matches the program's version) and the version parses, the
/// requested version is handed back.
pub proof fn law_exact_request_finds_usable_entry(
    requested: Seq<char>,
    vs: Seq<RegistryPluginVersion>,
    program: Seq<char>,
    i: int,
)
    requires
        requested != "latest"@,
        0 <= i < vs.len(),
        vs[i].version@ == requested,
        forall|j: int| 0 <= j < i ==> vs[j].version@ != requested,
        vs[i].deprecated != Some(true),
        spec_requirement_parses(vs[i].compatible_program_version@),
        spec_requirement_matches(vs[i].compatible_program_version@, program),
        spec_version_parses(requested),
    ensures
        spec_matching_version(requested, vs, program) == Ok::<Option<Seq<char>>, ()>(Some(requested)),
{
    lemma_first_with_version_prefix(vs, requested, i);
    assert(vs.subrange(0, i + 1).drop_last() =~= vs.subrange(0, i));
    lemma_first_with_version_extend(vs, requested, i);
}

} // verus!
