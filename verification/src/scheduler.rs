//! The job scheduler's bookkeeping: one job per plugin and cron expression,
//! keyed `uuid:cron`. Adding a job that exists already changes nothing;
//! removing one that does not exist is an error.

use vstd::prelude::*;

use crate::ids::{law_uuid_text_injective, lemma_uuid_text_len, spec_uuid_text, uuid_to_string};
use crate::text::str_eq;

verus! {

#[verifier::external_type_specification]
#[verifier::external_body]
pub struct ExCronSchedule(cron::Schedule);

#[verifier::external_type_specification]
#[verifier::external_body]
pub struct ExCronError(cron::error::Error);

/// Whether `cron::Schedule::from_str` accepts the expression.
pub uninterp spec fn spec_cron_parses(expression: Seq<char>) -> bool;

/// `cron::Schedule::from_str`: succeeds exactly on the expressions that
/// `spec_cron_parses` holds of.
#[verifier::external_body]
fn cron_parse(expression: &str) -> (r: Result<cron::Schedule, cron::error::Error>)
    ensures
        r is Ok <==> spec_cron_parses(expression@),
{
    <cron::Schedule as std::str::FromStr>::from_str(expression)
}

/// The message of a `cron::error::Error`.
#[verifier::external_body]
fn cron_error_message(e: &cron::error::Error) -> (r: String) {
    e.to_string()
}

/// The key of the job of a plugin for a cron expression.
pub open spec fn spec_job_key(plugin_uuid: u128, cron: Seq<char>) -> Seq<char> {
    spec_uuid_text(plugin_uuid) + ":"@ + cron
}

/// Builds the key of the job of a plugin for a cron expression.
pub fn job_key(plugin_uuid: u128, cron: &str) -> (r: String)
    ensures
        r@ == spec_job_key(plugin_uuid, cron@),
{
    let mut key = uuid_to_string(plugin_uuid);
    key.append(":");
    key.append(cron);
    key
}

/// Why a job could not be added or removed.
#[derive(Debug)]
pub enum JobError {
    /// The cron expression does not parse; the message says why.
    InvalidCron(String),
    /// There is no job for this plugin and cron expression.
    NotFound,
}

impl JobError {
    /// The message this error reads as.
    pub fn message(&self) -> (r: String)
        ensures
            self is NotFound ==> r@ == "No job with this uuid was found"@,
            self matches JobError::InvalidCron(m) ==> r@ == m@,
    {
        match self {
            JobError::InvalidCron(m) => m.clone(),
            JobError::NotFound => "No job with this uuid was found".to_string(),
        }
    }
}

/// What adding a job did.
pub enum AddJob {
    /// A job with this key runs already; nothing changed.
    AlreadyScheduled,
    /// The job must be started with this schedule and then recorded under
    /// this key with `insert`.
    Start(String, cron::Schedule),
}

/// The running jobs, each recorded under its key together with the handle
/// of the task that runs it.
pub struct JobTable<H> {
    entries: Vec<(String, H)>,
}

/// The keys of a list of entries.
pub open spec fn entry_keys<H>(entries: Seq<(String, H)>) -> Seq<Seq<char>> {
    entries.map_values(|e: (String, H)| e.0@)
}

impl<H> JobTable<H> {
    /// The keys of the recorded jobs.
    pub closed spec fn keys(&self) -> Seq<Seq<char>> {
        entry_keys(self.entries@)
    }

    /// The handles of the recorded jobs, in the order of `keys`.
    pub closed spec fn handles(&self) -> Seq<H> {
        self.entries@.map_values(|e: (String, H)| e.1)
    }

    /// No key is recorded twice.
    #[verifier::type_invariant]
    spec fn keys_distinct(&self) -> bool {
        entry_keys(self.entries@).no_duplicates()
    }

    /// An empty table.
    pub fn new() -> (r: Self)
        ensures
            r.keys() == Seq::<Seq<char>>::empty(),
    {
        let r = JobTable { entries: Vec::new() };
        assert(entry_keys(r.entries@) =~= Seq::<Seq<char>>::empty());
        r
    }

    /// The position of the job with this key, if any.
    fn find(&self, key: &str) -> (r: Option<usize>)
        ensures
            match r {
                Some(i) => i < self.keys().len() && self.keys()[i as int] == key@,
                None => !self.keys().contains(key@),
            },
    {
        let mut i: usize = 0;
        while i < self.entries.len()
            invariant
                i <= self.entries.len(),
                forall|j: int| 0 <= j < i ==> entry_keys(self.entries@)[j] != key@,
            decreases self.entries.len() - i,
        {
            if str_eq(self.entries[i].0.as_str(), key) {
                return Some(i);
            }
            i = i + 1;
        }
        None
    }

    /// Whether a job with this key is recorded.
    pub fn contains(&self, key: &str) -> (r: bool)
        ensures
            r == self.keys().contains(key@),
    {
        self.find(key).is_some()
    }

    /// Starts adding the job of a plugin for a cron expression: nothing to do
    /// when that job exists, an error when the expression does not parse, and
    /// otherwise the key and parsed schedule of the job to start.
    pub fn add_job(&self, plugin_uuid: u128, cron: &str) -> (r: Result<AddJob, JobError>)
        ensures
            self.keys().contains(spec_job_key(plugin_uuid, cron@)) ==> r matches Ok(AddJob::AlreadyScheduled),
            !self.keys().contains(spec_job_key(plugin_uuid, cron@)) ==> {
                if spec_cron_parses(cron@) {
                    r matches Ok(AddJob::Start(k, _)) && k@ == spec_job_key(plugin_uuid, cron@)
                } else {
                    r matches Err(JobError::InvalidCron(_))
                }
            },
    {
        let key = job_key(plugin_uuid, cron);
        if self.contains(key.as_str()) {
            return Ok(AddJob::AlreadyScheduled);
        }
        match cron_parse(cron) {
            Ok(schedule) => Ok(AddJob::Start(key, schedule)),
            Err(e) => Err(JobError::InvalidCron(cron_error_message(&e))),
        }
    }

    /// Records a job under a key that is not recorded yet.
    pub fn insert(&mut self, key: String, handle: H)
        requires
            !old(self).keys().contains(key@),
        ensures
            final(self).keys() == old(self).keys().push(key@),
            final(self).handles() == old(self).handles().push(handle),
    {
        proof {
            use_type_invariant(&*self);
        }
        let ghost k = key@;
        let ghost old_entries = self.entries@;
        let mut entries: Vec<(String, H)> = Vec::new();
        std::mem::swap(&mut entries, &mut self.entries);
        entries.push((key, handle));
        proof {
            let ks = entry_keys(entries@);
            assert(ks =~= entry_keys(old_entries).push(k));
            assert forall|a: int, b: int| 0 <= a < b < ks.len() implies ks[a] != ks[b] by {
                if b == ks.len() - 1 {
                    assert(ks[a] == entry_keys(old_entries)[a]);
                    assert(entry_keys(old_entries).contains(ks[a]));
                } else {
                    assert(ks[a] == entry_keys(old_entries)[a]);
                    assert(ks[b] == entry_keys(old_entries)[b]);
                }
            }
        }
        self.entries = entries;
        proof {
            assert(self.keys() =~= old(self).keys().push(k));
            assert(self.handles() =~= old(self).handles().push(handle));
        }
    }

    /// handle of its task; an error when there is no such job.
    pub fn remove_job(&mut self, plugin_uuid: u128, cron: &str) -> (r: Result<H, JobError>)
        ensures
            old(self).keys().contains(spec_job_key(plugin_uuid, cron@)) <==> r is Ok,
            !final(self).keys().contains(spec_job_key(plugin_uuid, cron@)),
            r is Err ==> (r matches Err(JobError::NotFound) && final(self).keys() == old(self).keys()
                && final(self).handles() == old(self).handles()),
            r is Ok ==> final(self).keys() == old(self).keys().remove(
                old(self).keys().index_of(spec_job_key(plugin_uuid, cron@)),
            ),
            r is Ok ==> final(self).handles() == old(self).handles().remove(
                old(self).keys().index_of(spec_job_key(plugin_uuid, cron@)),
            ),
            r matches Ok(h) ==> h == old(self).handles()[old(self).keys().index_of(spec_job_key(plugin_uuid, cron@))],
    {
        proof {
            use_type_invariant(&*self);
        }
        let key = job_key(plugin_uuid, cron);
        match self.find(key.as_str()) {
            None => Err(JobError::NotFound),
            Some(i) => {
                let ghost old_keys = self.keys();
                let ghost old_handles = self.handles();
                let mut entries: Vec<(String, H)> = Vec::new();
                std::mem::swap(&mut entries, &mut self.entries);
                let entry = entries.remove(i);
                proof {
                    let ks = entry_keys(entries@);
                    assert(ks =~= old_keys.remove(i as int));
                    assert(entries@.map_values(|e: (String, H)| e.1) =~= old_handles.remove(i as int));
                    assert(entry.1 == old_handles[i as int]);
                    old_keys.index_of_first_ensures(key@);
                    lemma_no_duplicates_index(old_keys, i as int, key@);
                    assert forall|a: int, b: int| 0 <= a < b < ks.len() implies ks[a] != ks[b] by {
                        let a0 = if a < i { a } else { a + 1 };
                        let b0 = if b < i { b } else { b + 1 };
                        assert(ks[a] == old_keys[a0]);
                        assert(ks[b] == old_keys[b0]);
                    }
                    assert forall|j: int| 0 <= j < ks.len() implies ks[j] != key@ by {
                        let j0 = if j < i { j } else { j + 1 };
                        assert(ks[j] == old_keys[j0]);
                    }
                }
                self.entries = entries;
                Ok(entry.1)
            },
        }
    }

    /// Removes every job and hands back the handles of their tasks.
    pub fn drain(&mut self) -> (r: Vec<H>)
        ensures
            final(self).keys() == Seq::<Seq<char>>::empty(),
            r@ == old(self).handles(),
    {
        let mut entries: Vec<(String, H)> = Vec::new();
        std::mem::swap(&mut entries, &mut self.entries);
        proof {
            assert(entry_keys(self.entries@) =~= Seq::<Seq<char>>::empty());
        }
        let mut handles: Vec<H> = Vec::new();
        let ghost old_handles = entries@.map_values(|e: (String, H)| e.1);
        while entries.len() > 0
            invariant
                handles@ + entries@.map_values(|e: (String, H)| e.1) == old_handles,
            decreases entries.len(),
        {
            let ghost before = entries@;
            let entry = entries.remove(0);
            proof {
                assert(before.map_values(|e: (String, H)| e.1) =~= seq![entry.1] + entries@.map_values(|e: (String, H)| e.1));
            }
            handles.push(entry.1);
            proof {
                assert(handles@ + entries@.map_values(|e: (String, H)| e.1) =~= old_handles);
            }
        }
        proof {
            assert(handles@ =~= old_handles);
        }
        handles
    }
}

/// Two jobs share a key only when they are the same plugin's jobs with the
/// same cron expression text.
pub proof fn law_job_key_distinguishes_jobs(uuid_a: u128, cron_a: Seq<char>, uuid_b: u128, cron_b: Seq<char>)
    ensures
        spec_job_key(uuid_a, cron_a) == spec_job_key(uuid_b, cron_b) ==> uuid_a == uuid_b && cron_a == cron_b,
{
    lemma_uuid_text_len(uuid_a);
    lemma_uuid_text_len(uuid_b);
    reveal_strlit(":");
    let sa = spec_job_key(uuid_a, cron_a);
    let sb = spec_job_key(uuid_b, cron_b);
    if sa == sb {
        assert(sa.subrange(0, 36) =~= spec_uuid_text(uuid_a));
        assert(sb.subrange(0, 36) =~= spec_uuid_text(uuid_b));
        law_uuid_text_injective(uuid_a, uuid_b);
        assert(sa.subrange(37, sa.len() as int) =~= cron_a);
        assert(sb.subrange(37, sb.len() as int) =~= cron_b);
    }
}

/// Scheduling a job that was not scheduled and then removing it leaves the
/// scheduled keys as they were.
pub proof fn law_insert_then_remove_restores(keys: Seq<Seq<char>>, key: Seq<char>)
    requires
        !keys.contains(key),
    ensures
        keys.push(key).remove(keys.push(key).index_of(key)) == keys,
{
    let s = keys.push(key);
    assert(s[keys.len() as int] == key);
    s.index_of_first_ensures(key);
    let i = s.index_of(key);
    if i < keys.len() {
        assert(keys[i] == s[i]);
        assert(keys.contains(key));
    }
    assert(s.remove(keys.len() as int) =~= keys);
}

proof fn lemma_no_duplicates_index(s: Seq<Seq<char>>, i: int, k: Seq<char>)
    requires
        s.no_duplicates(),
        0 <= i < s.len(),
        s[i] == k,
    ensures
        s.index_of(k) == i,
{
    s.index_of_first_ensures(k);
}

} // verus!
