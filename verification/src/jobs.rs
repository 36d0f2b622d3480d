//! Queued runs and their records.

use vstd::prelude::*;

use crate::agent::{AgentResult, AgentResultView};
use crate::clock::{is_utc_rfc3339_text, utc_now_rfc3339};
use crate::ids::{is_uuid_v4_text, new_job_id};
use crate::keyed::KeyedStore;
use crate::shared::DEFAULT_ROOTFS_IMAGE;
use crate::text::{opt_str_view, strs_view};

verus! {

/// Which kind of sandbox a run uses.
#[derive(Clone, Copy, Debug, PartialEq, Eq, Structural)]
pub enum SandboxTier {
    /// One-shot ephemeral sandbox (free tier).
    Ephemeral,
    /// Named persistent session (paid tier).
    Session,
}

/// Where a run stands.
#[derive(Clone, Copy, Debug, PartialEq, Eq, Structural)]
pub enum JobStatus {
    Queued,
    Running,
    Succeeded,
    Failed,
}

/// A queued, running or finished run.
#[derive(Clone, Debug)]
pub struct JobRecord {
    pub id: String,
    pub status: JobStatus,
    pub tier: SandboxTier,
    pub session_name: Option<String>,
    pub created_at: String,
    pub started_at: Option<String>,
    pub finished_at: Option<String>,
    pub result: Option<AgentResult>,
    pub error: Option<String>,
}

/// A run record, as values.
pub struct JobRecordView {
    pub id: Seq<char>,
    pub status: JobStatus,
    pub tier: SandboxTier,
    pub session_name: Option<Seq<char>>,
    pub created_at: Seq<char>,
    pub started_at: Option<Seq<char>>,
    pub finished_at: Option<Seq<char>>,
    pub result: Option<AgentResultView>,
    pub error: Option<Seq<char>>,
}

impl View for JobRecord {
    type V = JobRecordView;

    open spec fn view(&self) -> JobRecordView {
        JobRecordView {
            id: self.id@,
            status: self.status,
            tier: self.tier,
            session_name: opt_str_view(self.session_name),
            created_at: self.created_at@,
            started_at: opt_str_view(self.started_at),
            finished_at: opt_str_view(self.finished_at),
            result: match &self.result {
                Some(r) => Some(r@),
                None => None,
            },
            error: opt_str_view(self.error),
        }
    }
}

fn copy_opt_string(o: &Option<String>) -> (r: Option<String>)
    ensures
        opt_str_view(r) == opt_str_view(*o),
{
    match o {
        Some(s) => Some(s.clone()),
        None => None,
    }
}

fn copy_strings(v: &Vec<String>) -> (r: Vec<String>)
    ensures
        strs_view(r@) == strs_view(v@),
{
    let mut out: Vec<String> = Vec::new();
    let mut i: usize = 0;
    while i < v.len()
        invariant
            i <= v@.len(),
            strs_view(out@) == strs_view(v@.take(i as int)),
        decreases v@.len() - i,
    {
        let ghost before = out@;
        let item = v[i].clone();
        out.push(item);
        proof {
            assert(v@.take(i + 1) =~= v@.take(i as int).push(v@[i as int]));
            assert(out@ =~= before.push(v@[i as int]));
            assert(strs_view(out@) =~= strs_view(before).push(v@[i as int]@));
            assert(strs_view(v@.take(i + 1)) =~= strs_view(v@.take(i as int)).push(v@[i as int]@));
        }
        i = i + 1;
    }
    assert(v@.take(v@.len() as int) =~= v@);
    out
}

impl AgentResult {
    /// A copy of this result.
    pub fn duplicate(&self) -> (r: AgentResult)
        ensures
            r@ == self@,
    {
        AgentResult {
            stdout: self.stdout.clone(),
            stderr: self.stderr.clone(),
            exit_code: self.exit_code,
            memory_keys: match &self.memory_keys {
                Some(keys) => Some(copy_strings(keys)),
                None => None,
            },
        }
    }
}

impl JobRecord {
    /// A copy of this record.
    pub fn duplicate(&self) -> (r: JobRecord)
        ensures
            r@ == self@,
    {
        JobRecord {
            id: self.id.clone(),
            status: self.status,
            tier: self.tier,
            session_name: copy_opt_string(&self.session_name),
            created_at: self.created_at.clone(),
            started_at: copy_opt_string(&self.started_at),
            finished_at: copy_opt_string(&self.finished_at),
            result: match &self.result {
                Some(r) => Some(r.duplicate()),
                None => None,
            },
            error: copy_opt_string(&self.error),
        }
    }

    /// A freshly queued record.
    pub fn queued(
        id: String,
        created_at: String,
        tier: SandboxTier,
        session_name: Option<String>,
    ) -> (r: JobRecord)
        ensures
            r@ == (JobRecordView {
                id: id@,
                status: JobStatus::Queued,
                tier,
                session_name: opt_str_view(session_name),
                created_at: created_at@,
                started_at: None,
                finished_at: None,
                result: None,
                error: None,
            }),
    {
        JobRecord {
            id,
            status: JobStatus::Queued,
            tier,
            session_name,
            created_at,
            started_at: None,
            finished_at: None,
            result: None,
            error: None,
        }
    }
}

/// How a record changes.
pub enum JobChange {
    /// Started at this time.
    Running { at: String },
    /// Finished at this time with this result.
    Succeeded { at: String, result: AgentResult },
    /// Finished at this time with this error.
    Failed { at: String, error: String },
}

/// A record after a change.
pub open spec fn apply_job_change(
    job: JobRecordView,
    status: JobStatus,
    at: Seq<char>,
    result: Option<AgentResultView>,
    error: Option<Seq<char>>,
) -> JobRecordView {
    if status == JobStatus::Running {
        JobRecordView { status, started_at: Some(at), ..job }
    } else if status == JobStatus::Succeeded {
        JobRecordView { status, finished_at: Some(at), result, ..job }
    } else {
        JobRecordView { status, finished_at: Some(at), error, ..job }
    }
}

/// All queued and finished runs, by id.
pub struct JobStore {
    inner: KeyedStore<JobRecord>,
}

impl View for JobStore {
    type V = Map<Seq<char>, JobRecordView>;

    closed spec fn view(&self) -> Map<Seq<char>, JobRecordView> {
        self.inner@.map_values(|r: JobRecord| r@)
    }
}

impl JobStore {
    pub closed spec fn wf(&self) -> bool {
        &&& self.inner.wf()
        &&& forall|k: Seq<char>| #[trigger] self.inner@.contains_key(k) ==> self.inner@[k]@.id == k
    }

    pub fn new() -> (r: Self)
        ensures
            r.wf(),
            r@ == Map::<Seq<char>, JobRecordView>::empty(),
    {
        let r = JobStore { inner: KeyedStore::new() };
        assert(r@ =~= Map::<Seq<char>, JobRecordView>::empty());
        r
    }

    /// Store a record under its id, replacing any record with that id.
    pub fn insert_record(&mut self, job: JobRecord)
        requires
            old(self).wf(),
        ensures
            final(self).wf(),
            final(self)@ == old(self)@.insert(job@.id, job@),
    {
        let ghost old_inner = self.inner@;
        let key = job.id.clone();
        self.inner.insert(key, job);
        proof {
            assert(self.inner@ == old_inner.insert(job@.id, job));
            assert(self@ =~= old_inner.map_values(|r: JobRecord| r@).insert(job@.id, job@));
        }
    }

    /// Queue a run: a fresh id, the current time, status `Queued`.
    pub fn create(&mut self, tier: SandboxTier, script: String, session_name: Option<String>) -> (r:
        JobRecord)
        requires
            old(self).wf(),
        ensures
            final(self).wf(),
            is_uuid_v4_text(r@.id),
            r@.status == JobStatus::Queued,
            r@.tier == tier,
            r@.session_name == opt_str_view(session_name),
            is_utc_rfc3339_text(r@.created_at),
            r@.started_at is None,
            r@.finished_at is None,
            r@.result is None,
            r@.error is None,
            final(self)@ == old(self)@.insert(r@.id, r@),
    {
        let job = JobRecord::queued(new_job_id(), utc_now_rfc3339(), tier, session_name);
        let copy = job.duplicate();
        self.insert_record(job);
        copy
    }

    /// The record with this id.
    pub fn get(&self, id: &str) -> (r: Option<JobRecord>)
        requires
            self.wf(),
        ensures
            match r {
                Some(job) => self@.contains_key(id@) && self@[id@] == job@,
                None => !self@.contains_key(id@),
            },
    {
        let key = id.to_owned();
        match self.inner.get(&key) {
            Some(job) => Some(job.duplicate()),
            None => None,
        }
    }

    /// Apply a change to the record with this id, if there is one.
    fn update(&mut self, id: &str, change: JobChange) -> (r: bool)
        requires
            old(self).wf(),
        ensures
            final(self).wf(),
            r == old(self)@.contains_key(id@),
            !r ==> final(self)@ == old(self)@,
            r ==> final(self)@ == old(self)@.insert(
                id@,
                match change {
                    JobChange::Running { at } => apply_job_change(
                        old(self)@[id@],
                        JobStatus::Running,
                        at@,
                        None,
                        None,
                    ),
                    JobChange::Succeeded { at, result } => apply_job_change(
                        old(self)@[id@],
                        JobStatus::Succeeded,
                        at@,
                        Some(result@),
                        None,
                    ),
                    JobChange::Failed { at, error } => apply_job_change(
                        old(self)@[id@],
                        JobStatus::Failed,
                        at@,
                        None,
                        Some(error@),
                    ),
                },
            ),
    {
        let key = id.to_owned();
        let ghost old_inner = self.inner@;
        match self.inner.remove(&key) {
            Some(mut job) => {
                match change {
                    JobChange::Running { at } => {
                        job.status = JobStatus::Running;
                        job.started_at = Some(at);
                    },
                    JobChange::Succeeded { at, result } => {
                        job.status = JobStatus::Succeeded;
                        job.finished_at = Some(at);
                        job.result = Some(result);
                    },
                    JobChange::Failed { at, error } => {
                        job.status = JobStatus::Failed;
                        job.finished_at = Some(at);
                        job.error = Some(error);
                    },
                }
                let ghost removed = self.inner@;
                self.inner.insert(key, job);
                proof {
                    assert(old_inner[id@]@.id == id@);
                    assert(self.inner@ == old_inner.remove(id@).insert(id@, job));
                    assert(self.inner@ =~= old_inner.insert(id@, job));
                    assert(self@ =~= old_inner.map_values(|r: JobRecord| r@).insert(id@, job@));
                }
                true
            },
            None => false,
        }
    }

    /// Mark a run as started at `at`.
    pub fn set_running_at(&mut self, id: &str, at: String)
        requires
            old(self).wf(),
        ensures
            final(self).wf(),
            final(self)@ == if old(self)@.contains_key(id@) {
                old(self)@.insert(
                    id@,
                    apply_job_change(old(self)@[id@], JobStatus::Running, at@, None, None),
                )
            } else {
                old(self)@
            },
    {
        self.update(id, JobChange::Running { at });
    }

    /// Mark a run as succeeded at `at` with its result.
    pub fn set_succeeded_at(&mut self, id: &str, result: AgentResult, at: String)
        requires
            old(self).wf(),
        ensures
            final(self).wf(),
            final(self)@ == if old(self)@.contains_key(id@) {
                old(self)@.insert(
                    id@,
                    apply_job_change(
                        old(self)@[id@],
                        JobStatus::Succeeded,
                        at@,
                        Some(result@),
                        None,
                    ),
                )
            } else {
                old(self)@
            },
    {
        self.update(id, JobChange::Succeeded { at, result });
    }

    /// Mark a run as failed at `at` with its error.
    pub fn set_failed_at(&mut self, id: &str, error: String, at: String)
        requires
            old(self).wf(),
        ensures
            final(self).wf(),
            final(self)@ == if old(self)@.contains_key(id@) {
                old(self)@.insert(
                    id@,
                    apply_job_change(old(self)@[id@], JobStatus::Failed, at@, None, Some(error@)),
                )
            } else {
                old(self)@
            },
    {
        self.update(id, JobChange::Failed { at, error });
    }

    /// Mark a run as started now.
    pub fn set_running(&mut self, id: &str)
        requires
            old(self).wf(),
        ensures
            final(self).wf(),
            final(self)@.dom() == old(self)@.dom(),
            old(self)@.contains_key(id@) ==> exists|at: Seq<char>|
                is_utc_rfc3339_text(at) && final(self)@ == old(self)@.insert(
                    id@,
                    #[trigger] apply_job_change(old(self)@[id@], JobStatus::Running, at, None, None),
                ),
            !old(self)@.contains_key(id@) ==> final(self)@ == old(self)@,
    {
        let at = utc_now_rfc3339();
        let ghost a = at@;
        self.set_running_at(id, at);
        proof {
            if old(self)@.contains_key(id@) {
                assert(final(self)@ == old(self)@.insert(
                    id@,
                    apply_job_change(old(self)@[id@], JobStatus::Running, a, None, None),
                ));
            }
            assert(final(self)@.dom() =~= old(self)@.dom());
        }
    }

    /// Mark a run as succeeded now.
    pub fn set_succeeded(&mut self, id: &str, result: AgentResult)
        requires
            old(self).wf(),
        ensures
            final(self).wf(),
            final(self)@.dom() == old(self)@.dom(),
            old(self)@.contains_key(id@) ==> exists|at: Seq<char>|
                is_utc_rfc3339_text(at) && final(self)@ == old(self)@.insert(
                    id@,
                    #[trigger] apply_job_change(
                        old(self)@[id@],
                        JobStatus::Succeeded,
                        at,
                        Some(result@),
                        None,
                    ),
                ),
            !old(self)@.contains_key(id@) ==> final(self)@ == old(self)@,
    {
        let at = utc_now_rfc3339();
        let ghost a = at@;
        let ghost rv = result@;
        self.set_succeeded_at(id, result, at);
        proof {
            if old(self)@.contains_key(id@) {
                assert(final(self)@ == old(self)@.insert(
                    id@,
                    apply_job_change(old(self)@[id@], JobStatus::Succeeded, a, Some(rv), None),
                ));
            }
            assert(final(self)@.dom() =~= old(self)@.dom());
        }
    }

    /// Mark a run as failed now.
    pub fn set_failed(&mut self, id: &str, error: String)
        requires
            old(self).wf(),
        ensures
            final(self).wf(),
            final(self)@.dom() == old(self)@.dom(),
            old(self)@.contains_key(id@) ==> exists|at: Seq<char>|
                is_utc_rfc3339_text(at) && final(self)@ == old(self)@.insert(
                    id@,
                    #[trigger] apply_job_change(
                        old(self)@[id@],
                        JobStatus::Failed,
                        at,
                        None,
                        Some(error@),
                    ),
                ),
            !old(self)@.contains_key(id@) ==> final(self)@ == old(self)@,
    {
        let at = utc_now_rfc3339();
        let ghost a = at@;
        let ghost ev = error@;
        self.set_failed_at(id, error, at);
        proof {
            if old(self)@.contains_key(id@) {
                assert(final(self)@ == old(self)@.insert(
                    id@,
                    apply_job_change(old(self)@[id@], JobStatus::Failed, a, None, Some(ev)),
                ));
            }
            assert(final(self)@.dom() =~= old(self)@.dom());
        }
    }
}

/// Polling a run: once queued, its record is found under its id.
pub proof fn lemma_queued_run_is_found(store: Map<Seq<char>, JobRecordView>, job: JobRecordView)
    ensures
        store.insert(job.id, job).contains_key(job.id),
        store.insert(job.id, job)[job.id] == job,
{
}

/// A run that starts and then succeeds (or fails) keeps its id, tier,
/// session and creation time, and records when it started and finished and
/// its result (or error).
pub proof fn lemma_run_lifecycle(
    job: JobRecordView,
    started: Seq<char>,
    finished: Seq<char>,
    result: AgentResultView,
    error: Seq<char>,
)
    ensures
        ({
            let running = apply_job_change(job, JobStatus::Running, started, None, None);
            let ok = apply_job_change(running, JobStatus::Succeeded, finished, Some(result), None);
            let failed = apply_job_change(running, JobStatus::Failed, finished, None, Some(error));
            &&& running.status == JobStatus::Running
            &&& ok.status == JobStatus::Succeeded && failed.status == JobStatus::Failed
            &&& ok.id == job.id && ok.tier == job.tier && ok.session_name == job.session_name
                && ok.created_at == job.created_at
            &&& failed.id == job.id && failed.tier == job.tier && failed.session_name
                == job.session_name && failed.created_at == job.created_at
            &&& ok.started_at == Some(started) && ok.finished_at == Some(finished)
            &&& ok.result == Some(result) && ok.error == job.error
            &&& failed.started_at == Some(started) && failed.finished_at == Some(finished)
            &&& failed.error == Some(error) && failed.result == job.result
        }),
{
}

/// The rootfs image of a run: the one asked for, else the default.
pub open spec fn run_image(image: Option<Seq<char>>) -> Seq<char> {
    match image {
        Some(i) => i,
        None => DEFAULT_ROOTFS_IMAGE@,
    }
}

/// How a queued run is carried out.
#[derive(Clone, Debug, PartialEq, Eq)]
pub enum RunPlan {
    /// A one-shot sandbox from this image.
    Ephemeral { image: String },
    /// Open (or reuse) the named session from this image, then run in it.
    Session { name: String, image: String, warm: bool },
}

/// The plan of a run of this tier.
pub fn plan_run(tier: SandboxTier, session_name: Option<String>, image: Option<String>, warm: bool) -> (r:
    RunPlan)
    requires
        tier == SandboxTier::Session ==> session_name is Some,
    ensures
        tier == SandboxTier::Ephemeral ==> (r matches RunPlan::Ephemeral { image: i } && i@
            == run_image(opt_str_view(image))),
        tier == SandboxTier::Session ==> (r matches RunPlan::Session { name, image: i, warm: w }
            && Some(name@) == opt_str_view(session_name) && i@ == run_image(opt_str_view(image))
            && w == warm),
{
    let image = match image {
        Some(i) => i,
        None => String::from_str(DEFAULT_ROOTFS_IMAGE),
    };
    match tier {
        SandboxTier::Ephemeral => RunPlan::Ephemeral { image },
        SandboxTier::Session => match session_name {
            Some(name) => RunPlan::Session { name, image, warm },
            None => RunPlan::Ephemeral { image },
        },
    }
}

} // verus!
