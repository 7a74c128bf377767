//! The upload queue: one job per recording that the user chose to send, and
//! the states a job goes through. Nothing is uploaded unless the plugin asks
//! for that job explicitly, and a failed upload is repeated only on `retry`.

use crate::paths::{file_name_text, join_file_name, joined_path, path_file_name};
use crate::random::os_random_bytes;
use crate::telegram::UploadError;
use crate::text::{encode_hex_lower, hex_lower, str_contains_char};
use std::path::PathBuf;
use vstd::prelude::*;
use vstd::string::*;

verus! {

/// The largest recording the local Bot API server accepts: 2 GiB.
pub const MAX_FILE_SIZE_BYTES: u64 = 2 * 1024 * 1024 * 1024;

pub type JobId = String;

/// The file, in the queue's directory, that keeps the queue across restarts.
pub const JOBS_FILE_NAME: &'static str = "upload-jobs.json";

/// The file that keeps the queue stored in `directory`.
pub fn jobs_file_at(directory: &PathBuf) -> (path: PathBuf)
    ensures
        path == joined_path(*directory, JOBS_FILE_NAME@),
{
    join_file_name(directory, JOBS_FILE_NAME)
}

#[derive(Debug, Clone, Copy, PartialEq, Eq, Structural)]
pub enum JobError {
    FileTooLarge,
    FileUnavailable,
    NotFound,
    NotRetryable,
    InvalidDisplayName,
    StorageUnavailable,
}

/// Where a job stands. `Unknown` means an upload may or may not have reached
/// Telegram; such a job is never offered for retry, so a recording is not
/// sent twice.
#[derive(Debug, Clone, Copy, PartialEq, Eq, Structural)]
pub enum JobState {
    Queued,
    Uploading,
    Completed,
    Failed,
    Unknown,
}

/// What the plugin sees of a job.
#[derive(Debug, Clone, PartialEq, Eq)]
pub struct JobStatus {
    pub job_id: JobId,
    pub filename: String,
    pub state: JobState,
    pub size: u64,
    pub retryable_error: Option<String>,
}

/// A job and, while an upload is still possible, the recording it sends.
pub struct Job {
    pub status: JobStatus,
    pub recording_path: Option<PathBuf>,
}

/// The message shown next to a failed job.
pub open spec fn retry_text() -> Seq<char> {
    "Telegram upload failed. Try again."@
}

fn retry_message() -> (m: String)
    ensures
        m@ == retry_text(),
{
    String::from_str("Telegram upload failed. Try again.")
}

/// The error field that goes with a state: the retry message for a failed
/// job, nothing otherwise.
pub open spec fn error_fits(state: JobState, error: Option<String>) -> bool {
    if state == JobState::Failed {
        error matches Some(m) && m@ == retry_text()
    } else {
        error is None
    }
}

/// A job is consistent: its error fits its state, its recording is not over
/// 2 GiB, and a completed job no longer holds the recording's path.
pub open spec fn job_wf(job: Job) -> bool {
    &&& error_fits(job.status.state, job.status.retryable_error)
    &&& job.status.size <= MAX_FILE_SIZE_BYTES
    &&& (job.status.state == JobState::Completed ==> job.recording_path is None)
}

/// No two jobs share an identifier.
pub open spec fn ids_distinct(jobs: Seq<Job>) -> bool {
    forall|i: int, j: int|
        0 <= i < jobs.len() && 0 <= j < jobs.len() && i != j ==> jobs[i].status.job_id@
            != jobs[j].status.job_id@
}

pub open spec fn jobs_wf(jobs: Seq<Job>) -> bool {
    &&& ids_distinct(jobs)
    &&& forall|i: int| 0 <= i < jobs.len() ==> job_wf(#[trigger] jobs[i])
}

/// `jobs[i]` is the job with identifier `id`.
pub open spec fn is_job(jobs: Seq<Job>, id: Seq<char>, i: int) -> bool {
    0 <= i < jobs.len() && jobs[i].status.job_id@ == id
}

/// The position of the job with identifier `id`, if there is one.
pub open spec fn lookup(jobs: Seq<Job>, id: Seq<char>) -> Option<int> {
    if exists|i: int| is_job(jobs, id, i) {
        Some(choose|i: int| is_job(jobs, id, i))
    } else {
        None
    }
}

/// `new` is `old` in another state: same identifier, file name and size, the
/// error that fits the state, and the path kept or dropped.
pub open spec fn moved_to(old: Job, new: Job, state: JobState, keeps_path: bool) -> bool {
    &&& new.status.job_id == old.status.job_id
    &&& new.status.filename == old.status.filename
    &&& new.status.size == old.status.size
    &&& new.status.state == state
    &&& error_fits(state, new.status.retryable_error)
    &&& if keeps_path {
        new.recording_path == old.recording_path
    } else {
        new.recording_path is None
    }
}

/// `new` is `old` with only the job at `i` moved to `state`.
pub open spec fn moved_at(
    old: Seq<Job>,
    new: Seq<Job>,
    i: int,
    state: JobState,
    keeps_path: bool,
) -> bool {
    &&& 0 <= i < old.len()
    &&& new.len() == old.len()
    &&& forall|k: int| 0 <= k < old.len() && k != i ==> new[k] == old[k]
    &&& moved_to(old[i], new[i], state, keeps_path)
}

/// A newly queued job for the recording at `path`.
/// The name a queued job shows: the recording's own file name, or, where the
/// path has none that is valid Unicode, the display name.
pub open spec fn job_name(display_name: Seq<char>, file_name: Option<Seq<char>>) -> Seq<char> {
    match file_name {
        Some(f) => f,
        None => display_name,
    }
}

pub open spec fn fresh_job(job: Job, id: Seq<char>, filename: Seq<char>, size: u64, path: PathBuf) -> bool {
    &&& job.status.job_id@ == id
    &&& job.status.filename@ == filename
    &&& job.status.state == JobState::Queued
    &&& job.status.size == size
    &&& job.status.retryable_error is None
    &&& job.recording_path == Some(path)
}

/// A display name may not hold a path separator.
pub open spec fn display_name_ok(name: Seq<char>) -> bool {
    !name.contains('/') && !name.contains('\\')
}

/// `after` is `before` after queuing a fresh job `id`: a job that already had the
/// identifier is replaced in place, otherwise the job is appended.
pub open spec fn enqueued_into(
    before: Seq<Job>,
    after: Seq<Job>,
    id: Seq<char>,
    name: Seq<char>,
    size: u64,
    path: PathBuf,
) -> bool {
    match lookup(before, id) {
        Some(i) => {
            &&& after.len() == before.len()
            &&& forall|k: int| 0 <= k < before.len() && k != i ==> after[k] == before[k]
            &&& fresh_job(after[i], id, name, size, path)
        },
        None => {
            &&& after.len() == before.len() + 1
            &&& after.drop_last() == before
            &&& fresh_job(after.last(), id, name, size, path)
        },
    }
}

/// Why a recording cannot be queued, checked in this order: its size could
/// not be read, the display name holds a separator, it is over 2 GiB.
pub open spec fn enqueue_error(size: Option<u64>, display_name: Seq<char>) -> Option<JobError> {
    match size {
        None => Some(JobError::FileUnavailable),
        Some(n) => if !display_name_ok(display_name) {
            Some(JobError::InvalidDisplayName)
        } else if n > MAX_FILE_SIZE_BYTES {
            Some(JobError::FileTooLarge)
        } else {
            None
        },
    }
}

/// A display name is refused for a path separator and for nothing else: a
/// recording whose size could be read and is at most 2 GiB is queued whatever
/// else its display name holds, spaces included.
pub proof fn lemma_only_separators_refuse_a_name(size: u64, name: Seq<char>)
    ensures
        enqueue_error(Some(size), name) is None <==> (size <= MAX_FILE_SIZE_BYTES && forall|i: int|
            0 <= i < name.len() ==> name[i] != '/' && name[i] != '\\'),
        enqueue_error(Some(size), name) == Some(JobError::InvalidDisplayName) <==> exists|i: int|
            0 <= i < name.len() && (name[i] == '/' || name[i] == '\\'),
{
    if exists|i: int| 0 <= i < name.len() && (name[i] == '/' || name[i] == '\\') {
        let i = choose|i: int| 0 <= i < name.len() && (name[i] == '/' || name[i] == '\\');
        if name[i] == '/' {
            assert(name.contains('/'));
        } else {
            assert(name.contains('\\'));
        }
    }
}

/// A copy of a status.
pub fn copy_status(status: &JobStatus) -> (copy: JobStatus)
    ensures
        copy == *status,
{
    JobStatus {
        job_id: status.job_id.clone(),
        filename: status.filename.clone(),
        state: status.state,
        size: status.size,
        retryable_error: match &status.retryable_error {
            Some(m) => Some(m.clone()),
            None => None,
        },
    }
}

/// `job` moved to `state`, its path kept or dropped.
fn moved_copy(job: &Job, state: JobState, keeps_path: bool) -> (new: Job)
    requires
        keeps_path ==> state != JobState::Completed,
        job.status.size <= MAX_FILE_SIZE_BYTES,
    ensures
        moved_to(*job, new, state, keeps_path),
        job_wf(new),
{
    let retryable_error = match state {
        JobState::Failed => Some(retry_message()),
        _ => None,
    };
    let recording_path = if keeps_path {
        match &job.recording_path {
            Some(p) => Some(p.clone()),
            None => None,
        }
    } else {
        None
    };
    Job {
        status: JobStatus {
            job_id: job.status.job_id.clone(),
            filename: job.status.filename.clone(),
            state,
            size: job.status.size,
            retryable_error,
        },
        recording_path,
    }
}

/// The state a stored job comes back in after a restart: a job that was
/// waiting becomes a retryable failure, and one that was being uploaded
/// becomes unknown, since its transfer may have completed.
pub open spec fn restored_state(state: JobState) -> JobState {
    match state {
        JobState::Queued => JobState::Failed,
        JobState::Uploading => JobState::Unknown,
        other => other,
    }
}

/// A stored job that `enqueue` could have made: its recording is not over
/// 2 GiB. Other stored jobs are dropped on a restart.
pub open spec fn storable(record: Job) -> bool {
    record.status.size <= MAX_FILE_SIZE_BYTES
}

/// The first storable job with its identifier.
pub open spec fn first_with_id(records: Seq<Job>, i: int) -> bool {
    &&& 0 <= i < records.len()
    &&& storable(records[i])
    &&& forall|k: int|
        0 <= k < i && storable(records[k]) ==> records[k].status.job_id@
            != records[i].status.job_id@
}

/// `job` is what the stored `record` comes back as.
pub open spec fn restored_from(record: Job, job: Job) -> bool {
    let state = restored_state(record.status.state);
    moved_to(record, job, state, state == JobState::Failed)
}

/// A restart changes only jobs that were still in flight: a waiting job comes
/// back as a retryable failure, one being uploaded as unknown, and every
/// other job (a completed one above all) in the state it was stored in, with
/// its identifier, name and size.
pub proof fn lemma_restart_keeps_settled_jobs(record: Job, job: Job)
    requires
        restored_from(record, job),
    ensures
        job.status.job_id == record.status.job_id,
        job.status.filename == record.status.filename,
        job.status.size == record.status.size,
        record.status.state == JobState::Queued ==> (job.status.state == JobState::Failed
            && (job.status.retryable_error matches Some(m) && m@ == retry_text())),
        record.status.state == JobState::Uploading ==> job.status.state == JobState::Unknown
            && job.status.retryable_error is None,
        record.status.state != JobState::Queued && record.status.state != JobState::Uploading
            ==> job.status.state == record.status.state,
        record.status.state == JobState::Completed ==> job.status.retryable_error is None,
{
}

/// `job` is what the first stored job with its identifier comes back as.
pub open spec fn comes_from(records: Seq<Job>, job: Job) -> bool {
    exists|i: int| first_with_id(records, i) && restored_from(records[i], job)
}

/// Some job of `jobs` is what `record` comes back as.
pub open spec fn kept_in(jobs: Seq<Job>, record: Job) -> bool {
    exists|j: int| 0 <= j < jobs.len() && restored_from(record, jobs[j])
}

/// `origin[j]` is the stored job that `jobs[j]` comes back from, and the
/// jobs keep the order in which they were stored.
pub open spec fn restored_in_order(records: Seq<Job>, jobs: Seq<Job>, origin: Seq<int>) -> bool {
    &&& origin.len() == jobs.len()
    &&& forall|a: int, b: int| 0 <= a < b < origin.len() ==> origin[a] < origin[b]
    &&& forall|j: int|
        0 <= j < origin.len() ==> first_with_id(records, #[trigger] origin[j]) && restored_from(
            records[origin[j]],
            jobs[j],
        )
}

/// The upload queue. The gateway is what app code uploads through.
pub struct JobService<G> {
    gateway: G,
    jobs: Vec<Job>,
}

impl<G> JobService<G> {
    /// The jobs, in the order they were queued.
    pub closed spec fn entries(&self) -> Seq<Job> {
        self.jobs@
    }

    pub closed spec fn gateway_spec(&self) -> G {
        self.gateway
    }

    /// What every queue keeps: no two jobs share an identifier and each job
    /// is consistent. It is the type's invariant, so no caller has to carry it.
    #[verifier::type_invariant]
    pub open spec fn wf(&self) -> bool {
        jobs_wf(self.entries())
    }

    /// An empty queue.
    pub fn new(gateway: G) -> (service: Self)
        ensures
            service.entries() == Seq::<Job>::empty(),
            service.gateway_spec() == gateway,
    {
        JobService { gateway, jobs: Vec::new() }
    }

    /// The gateway uploads go through.
    pub fn gateway(&self) -> (gateway: &G)
        ensures
            *gateway == self.gateway_spec(),
    {
        &self.gateway
    }

    /// The jobs with their recording paths, for persisting them.
    pub fn records(&self) -> (records: &Vec<Job>)
        ensures
            records@ == self.entries(),
    {
        &self.jobs
    }

    /// Refuses a recording over 2 GiB before anything is uploaded.
    pub fn validate_size(size: u64) -> (result: Result<(), JobError>)
        ensures
            result == (if size > MAX_FILE_SIZE_BYTES {
                Err(JobError::FileTooLarge)
            } else {
                Ok::<(), JobError>(())
            }),
    {
        if size > MAX_FILE_SIZE_BYTES {
            Err(JobError::FileTooLarge)
        } else {
            Ok(())
        }
    }

    /// Refuses a display name that holds a path separator.
    pub fn validate_display_name(name: &str) -> (result: Result<(), JobError>)
        ensures
            result == (if display_name_ok(name@) {
                Ok::<(), JobError>(())
            } else {
                Err(JobError::InvalidDisplayName)
            }),
    {
        if str_contains_char(name, '/') || str_contains_char(name, '\\') {
            Err(JobError::InvalidDisplayName)
        } else {
            Ok(())
        }
    }

    /// The position of the job `id`.
    fn position(&self, id: &str) -> (found: Option<usize>)
        requires
            self.wf(),
        ensures
            match found {
                Some(k) => is_job(self.entries(), id@, k as int) && lookup(self.entries(), id@)
                    == Some(k as int),
                None => lookup(self.entries(), id@) is None,
            },
    {
        let key = id.to_owned();
        let mut i: usize = 0;
        while i < self.jobs.len()
            invariant
                i <= self.jobs@.len(),
                key@ == id@,
                self.wf(),
                forall|k: int| 0 <= k < i ==> !is_job(self.jobs@, id@, k),
            decreases self.jobs@.len() - i,
        {
            if self.jobs[i].status.job_id == key {
                assert(is_job(self.jobs@, id@, i as int));
                let ghost c = choose|j: int| is_job(self.jobs@, id@, j);
                assert(c == i as int);
                return Some(i);
            }
            i = i + 1;
        }
        assert(!exists|j: int| is_job(self.jobs@, id@, j));
        None
    }

    /// Replaces the job at `i` by the same job moved to `state`.
    fn move_job(&mut self, i: usize, state: JobState, keeps_path: bool)
        requires
            old(self).wf(),
            i < old(self).entries().len(),
            keeps_path ==> state != JobState::Completed,
        ensures
            final(self).wf(),
            final(self).gateway_spec() == old(self).gateway_spec(),
            moved_at(old(self).entries(), final(self).entries(), i as int, state, keeps_path),
    {
        let new = moved_copy(&self.jobs[i], state, keeps_path);
        let ghost o = self.jobs@;
        let mut jobs: Vec<Job> = Vec::new();
        std::mem::swap(&mut jobs, &mut self.jobs);
        jobs.set(i, new);
        proof {
            let n = jobs@;
            assert forall|a: int, b: int|
                0 <= a < n.len() && 0 <= b < n.len() && a != b implies n[a].status.job_id@
                != n[b].status.job_id@ by {
                assert(n[a].status.job_id@ == o[a].status.job_id@);
                assert(n[b].status.job_id@ == o[b].status.job_id@);
            }
            assert forall|k: int| 0 <= k < n.len() implies job_wf(#[trigger] n[k]) by {
                if k != i {
                    assert(job_wf(o[k]));
                }
            }
        }
        self.jobs = jobs;
    }

    /// Queues the recording at `path` as a new job with identifier `job_id`,
    /// named after the recording's own file name (the display name where the
    /// path has no such name); `display_name` is otherwise only checked.
    /// `size` is the recording's size, `None` where it could not be read. A
    /// job that already has this identifier is replaced.
    pub fn enqueue(
        &mut self,
        path: PathBuf,
        display_name: &str,
        size: Option<u64>,
        job_id: JobId,
    ) -> (result: Result<JobId, JobError>)
        ensures
            final(self).gateway_spec() == old(self).gateway_spec(),
            match enqueue_error(size, display_name@) {
                Some(e) => result == Err::<JobId, JobError>(e) && final(self).entries()
                    == old(self).entries(),
                None => {
                    &&& result matches Ok(id) && id@ == job_id@
                    &&& enqueued_into(
                        old(self).entries(),
                        final(self).entries(),
                        job_id@,
                        job_name(display_name@, file_name_text(path)),
                        size.unwrap(),
                        path,
                    )
                },
            },
    {
        proof {
            use_type_invariant(&*self);
        }
        let size = match size {
            None => return Err(JobError::FileUnavailable),
            Some(n) => n,
        };
        if let Err(e) = Self::validate_display_name(display_name) {
            return Err(e);
        }
        if let Err(e) = Self::validate_size(size) {
            return Err(e);
        }
        let filename = match path_file_name(&path) {
            None => display_name.to_owned(),
            Some(name) => name,
        };
        let found = self.position(job_id.as_str());
        let job = Job {
            status: JobStatus {
                job_id: job_id.clone(),
                filename,
                state: JobState::Queued,
                size,
                retryable_error: None,
            },
            recording_path: Some(path),
        };
        let ghost o = self.jobs@;
        let mut jobs: Vec<Job> = Vec::new();
        std::mem::swap(&mut jobs, &mut self.jobs);
        match found {
            Some(i) => {
                jobs.set(i, job);
                proof {
                    let n = jobs@;
                    assert forall|a: int, b: int|
                        0 <= a < n.len() && 0 <= b < n.len() && a != b implies n[a].status.job_id@
                        != n[b].status.job_id@ by {
                        if a == i {
                            assert(o[b].status.job_id@ != o[i as int].status.job_id@);
                        } else if b == i {
                            assert(o[a].status.job_id@ != o[i as int].status.job_id@);
                        }
                    }
                    assert forall|k: int| 0 <= k < n.len() implies job_wf(#[trigger] n[k]) by {
                        if k != i {
                            assert(job_wf(o[k]));
                        }
                    }
                }
            },
            None => {
                jobs.push(job);
                proof {
                    let n = jobs@;
                    assert(n.drop_last() =~= o);
                    assert forall|a: int, b: int|
                        0 <= a < n.len() && 0 <= b < n.len() && a != b implies n[a].status.job_id@
                        != n[b].status.job_id@ by {
                        if a == o.len() {
                            assert(!is_job(o, job_id@, b));
                        } else if b == o.len() {
                            assert(!is_job(o, job_id@, a));
                        }
                    }
                    assert forall|k: int| 0 <= k < n.len() implies job_wf(#[trigger] n[k]) by {
                        if k < o.len() {
                            assert(job_wf(o[k]));
                        }
                    }
                }
            },
        }
        self.jobs = jobs;
        Ok(job_id)
    }

    /// Forgets the job `id`, if there is one: used when a newly queued job
    /// could not be stored.
    pub fn discard(&mut self, id: &str)
        ensures
            final(self).gateway_spec() == old(self).gateway_spec(),
            match lookup(old(self).entries(), id@) {
                Some(i) => final(self).entries() == old(self).entries().remove(i),
                None => final(self).entries() == old(self).entries(),
            },
    {
        proof {
            use_type_invariant(&*self);
        }
        if let Some(i) = self.position(id) {
            let ghost o = self.jobs@;
            let mut jobs: Vec<Job> = Vec::new();
            std::mem::swap(&mut jobs, &mut self.jobs);
            let _ = jobs.remove(i);
            proof {
                let n = jobs@;
                assert forall|a: int, b: int|
                    0 <= a < n.len() && 0 <= b < n.len() && a != b implies n[a].status.job_id@
                    != n[b].status.job_id@ by {
                    let oa = if a < i { a } else { a + 1 };
                    let ob = if b < i { b } else { b + 1 };
                    assert(n[a] == o[oa]);
                    assert(n[b] == o[ob]);
                }
                assert forall|k: int| 0 <= k < n.len() implies job_wf(#[trigger] n[k]) by {
                    let ok = if k < i { k } else { k + 1 };
                    assert(n[k] == o[ok]);
                    assert(job_wf(o[ok]));
                }
            }
            self.jobs = jobs;
        }
    }

    /// The status of the job `id`.
    pub fn status(&self, id: &str) -> (result: Result<JobStatus, JobError>)
        ensures
            match lookup(self.entries(), id@) {
                Some(i) => result == Ok::<JobStatus, JobError>(self.entries()[i].status),
                None => result == Err::<JobStatus, JobError>(JobError::NotFound),
            },
    {
        proof {
            use_type_invariant(&*self);
        }
        match self.position(id) {
            Some(i) => Ok(copy_status(&self.jobs[i].status)),
            None => Err(JobError::NotFound),
        }
    }

    /// The statuses of all jobs, in the order they were queued.
    pub fn jobs(&self) -> (statuses: Vec<JobStatus>)
        ensures
            statuses@.len() == self.entries().len(),
            forall|i: int| 0 <= i < statuses@.len() ==> statuses@[i] == self.entries()[i].status,
            forall|i: int|
                0 <= i < statuses@.len() ==> (#[trigger] statuses@[i]).size <= MAX_FILE_SIZE_BYTES
                    && error_fits(statuses@[i].state, statuses@[i].retryable_error),
            forall|i: int, j: int|
                0 <= i < statuses@.len() && 0 <= j < statuses@.len() && i != j
                    ==> statuses@[i].job_id@ != statuses@[j].job_id@,
    {
        proof {
            use_type_invariant(self);
        }
        let mut statuses: Vec<JobStatus> = Vec::new();
        let mut i: usize = 0;
        while i < self.jobs.len()
            invariant
                i <= self.jobs@.len(),
                statuses@.len() == i,
                forall|k: int| 0 <= k < i ==> statuses@[k] == self.jobs@[k].status,
            decreases self.jobs@.len() - i,
        {
            statuses.push(copy_status(&self.jobs[i].status));
            i = i + 1;
        }
        statuses
    }

    /// Starts the upload of a queued job: the only step that leads to a
    /// recording being sent. It hands back the recording's path and name and
    /// marks the job as uploading.
    pub fn begin_upload(&mut self, id: &str) -> (result: Result<(PathBuf, String), JobError>)
        ensures
            final(self).gateway_spec() == old(self).gateway_spec(),
            match lookup(old(self).entries(), id@) {
                None => result == Err::<(PathBuf, String), JobError>(JobError::NotFound)
                    && final(self).entries() == old(self).entries(),
                Some(i) => if old(self).entries()[i].status.state != JobState::Queued
                    || old(self).entries()[i].recording_path is None {
                    result == Err::<(PathBuf, String), JobError>(JobError::NotRetryable)
                        && final(self).entries() == old(self).entries()
                } else {
                    &&& result matches Ok((path, name)) && Some(path)
                        == old(self).entries()[i].recording_path && name
                        == old(self).entries()[i].status.filename
                    &&& moved_at(
                        old(self).entries(),
                        final(self).entries(),
                        i,
                        JobState::Uploading,
                        true,
                    )
                },
            },
    {
        proof {
            use_type_invariant(&*self);
        }
        let i = match self.position(id) {
            None => return Err(JobError::NotFound),
            Some(i) => i,
        };
        let path = match (&self.jobs[i].status.state, &self.jobs[i].recording_path) {
            (JobState::Queued, Some(p)) => p.clone(),
            _ => return Err(JobError::NotRetryable),
        };
        let name = self.jobs[i].status.filename.clone();
        self.move_job(i, JobState::Uploading, true);
        Ok((path, name))
    }

    /// Marks a job that was about to be uploaded, or whose retry was about to
    /// be stored, as failed and retryable: used when its new state could not
    /// be stored. A job in another state is left as it is.
    pub fn mark_failed(&mut self, id: &str)
        ensures
            final(self).gateway_spec() == old(self).gateway_spec(),
            match lookup(old(self).entries(), id@) {
                Some(i) => if old(self).entries()[i].status.state == JobState::Queued
                    || old(self).entries()[i].status.state == JobState::Uploading {
                    moved_at(old(self).entries(), final(self).entries(), i, JobState::Failed, true)
                } else {
                    final(self).entries() == old(self).entries()
                },
                None => final(self).entries() == old(self).entries(),
            },
    {
        proof {
            use_type_invariant(&*self);
        }
        if let Some(i) = self.position(id) {
            match self.jobs[i].status.state {
                JobState::Queued | JobState::Uploading => self.move_job(i, JobState::Failed, true),
                _ => {},
            }
        }
    }

    /// Records what an upload came to: a success completes the job and drops
    /// its path; a rejection before sending leaves it failed and retryable;
    /// an uncertain transfer leaves it unknown, never to be retried. Only an
    /// uploading job changes.
    pub fn record_upload_result(&mut self, id: &str, outcome: Result<(), UploadError>)
        ensures
            final(self).gateway_spec() == old(self).gateway_spec(),
            match lookup(old(self).entries(), id@) {
                Some(i) => if old(self).entries()[i].status.state == JobState::Uploading {
                    match outcome {
                        Ok(_) => moved_at(
                            old(self).entries(),
                            final(self).entries(),
                            i,
                            JobState::Completed,
                            false,
                        ),
                        Err(UploadError::PreUploadRejected) => moved_at(
                            old(self).entries(),
                            final(self).entries(),
                            i,
                            JobState::Failed,
                            true,
                        ),
                        Err(UploadError::TransportUncertain) => moved_at(
                            old(self).entries(),
                            final(self).entries(),
                            i,
                            JobState::Unknown,
                            false,
                        ),
                    }
                } else {
                    final(self).entries() == old(self).entries()
                },
                None => final(self).entries() == old(self).entries(),
            },
    {
        proof {
            use_type_invariant(&*self);
        }
        if let Some(i) = self.position(id) {
            if matches!(self.jobs[i].status.state, JobState::Uploading) {
                match outcome {
                    Ok(()) => self.move_job(i, JobState::Completed, false),
                    Err(UploadError::PreUploadRejected) => self.move_job(i, JobState::Failed, true),
                    Err(UploadError::TransportUncertain) => self.move_job(
                        i,
                        JobState::Unknown,
                        false,
                    ),
                }
            }
        }
    }

    /// A completed job whose completion could not be stored becomes unknown:
    /// after a restart it could not be told apart from an interrupted upload.
    pub fn completion_not_persisted(&mut self, id: &str)
        ensures
            final(self).gateway_spec() == old(self).gateway_spec(),
            match lookup(old(self).entries(), id@) {
                Some(i) => if old(self).entries()[i].status.state == JobState::Completed {
                    moved_at(old(self).entries(), final(self).entries(), i, JobState::Unknown, false)
                } else {
                    final(self).entries() == old(self).entries()
                },
                None => final(self).entries() == old(self).entries(),
            },
    {
        proof {
            use_type_invariant(&*self);
        }
        if let Some(i) = self.position(id) {
            if matches!(self.jobs[i].status.state, JobState::Completed) {
                self.move_job(i, JobState::Unknown, false);
            }
        }
    }

    /// Queues a failed job again, the only way out of the failed state. The
    /// upload itself waits for `begin_upload`.
    pub fn retry(&mut self, id: &str) -> (result: Result<JobStatus, JobError>)
        ensures
            final(self).gateway_spec() == old(self).gateway_spec(),
            match lookup(old(self).entries(), id@) {
                None => result == Err::<JobStatus, JobError>(JobError::NotFound)
                    && final(self).entries() == old(self).entries(),
                Some(i) => if old(self).entries()[i].status.state != JobState::Failed {
                    result == Err::<JobStatus, JobError>(JobError::NotRetryable)
                        && final(self).entries() == old(self).entries()
                } else {
                    &&& moved_at(
                        old(self).entries(),
                        final(self).entries(),
                        i,
                        JobState::Queued,
                        true,
                    )
                    &&& result == Ok::<JobStatus, JobError>(final(self).entries()[i].status)
                },
            },
    {
        proof {
            use_type_invariant(&*self);
        }
        let i = match self.position(id) {
            None => return Err(JobError::NotFound),
            Some(i) => i,
        };
        if !matches!(self.jobs[i].status.state, JobState::Failed) {
            return Err(JobError::NotRetryable);
        }
        self.move_job(i, JobState::Queued, true);
        Ok(copy_status(&self.jobs[i].status))
    }

    /// The queue as it was stored, after a restart. A stored job over 2 GiB
    /// is dropped; of the others that share an identifier only the first is
    /// kept.
    pub fn restore(gateway: G, records: &Vec<Job>) -> (restored: Self)
        ensures
            restored.gateway_spec() == gateway,
            forall|j: int|
                0 <= j < restored.entries().len() ==> comes_from(
                    records@,
                    #[trigger] restored.entries()[j],
                ),
            forall|i: int|
                first_with_id(records@, i) ==> kept_in(restored.entries(), #[trigger] records@[i]),
            exists|origin: Seq<int>| restored_in_order(records@, restored.entries(), origin),
    {
        let mut service = JobService { gateway, jobs: Vec::new() };
        let ghost mut origin: Seq<int> = Seq::empty();
        let mut idx: usize = 0;
        while idx < records.len()
            invariant
                idx <= records@.len(),
                service.wf(),
                service.gateway_spec() == gateway,
                origin.len() == service.entries().len(),
                forall|a: int, b: int| 0 <= a < b < origin.len() ==> origin[a] < origin[b],
                forall|j: int|
                    0 <= j < origin.len() ==> 0 <= #[trigger] origin[j] < idx && first_with_id(
                        records@,
                        origin[j],
                    ) && restored_from(records@[origin[j]], service.entries()[j]),
                forall|k: int|
                    0 <= k < idx && storable(records@[k]) ==> exists|j: int|
                        0 <= j < service.entries().len() && (#[trigger] records@[k]).status.job_id@
                            == service.entries()[j].status.job_id@,
            decreases records@.len() - idx,
        {
            let record = &records[idx];
            if record.status.size > MAX_FILE_SIZE_BYTES {
                idx = idx + 1;
                continue;
            }
            match service.position(record.status.job_id.as_str()) {
                Some(j) => {
                    proof {
                        let e = service.entries();
                        assert(records@[idx as int].status.job_id@ == e[j as int].status.job_id@);
                        assert forall|k: int| 0 <= k < idx + 1 && storable(records@[k]) implies exists|j: int|
                            0 <= j < e.len() && (#[trigger] records@[k]).status.job_id@
                                == e[j].status.job_id@ by {
                            if k == idx {
                                assert(records@[k].status.job_id@ == e[j as int].status.job_id@);
                            }
                        }
                    }
                    assert(forall|k: int|
                        0 <= k < idx + 1 && storable(records@[k]) ==> exists|j: int|
                            0 <= j < service.entries().len() && (#[trigger] records@[k]).status.job_id@
                                == service.entries()[j].status.job_id@);
                },
                None => {
                    let state = match record.status.state {
                        JobState::Queued => JobState::Failed,
                        JobState::Uploading => JobState::Unknown,
                        other => other,
                    };
                    let keeps = matches!(state, JobState::Failed);
                    let job = moved_copy(record, state, keeps);
                    let ghost o = service.jobs@;
                    proof {
                        assert forall|k: int|
                            0 <= k < idx && storable(records@[k]) implies records@[k].status.job_id@
                            != records@[idx as int].status.job_id@ by {
                            let j = choose|j: int|
                                0 <= j < o.len() && (#[trigger] records@[k]).status.job_id@
                                    == o[j].status.job_id@;
                            assert(!is_job(o, records@[idx as int].status.job_id@, j));
                        }
                        lemma_push_fresh(o, job);
                    }
                    let mut jobs: Vec<Job> = Vec::new();
                    std::mem::swap(&mut jobs, &mut service.jobs);
                    jobs.push(job);
                    service.jobs = jobs;
                    proof {
                        let old_origin = origin;
                        origin = origin.push(idx as int);
                        let n = service.jobs@;
                        assert(restored_from(records@[idx as int], n[o.len() as int]));
                        assert forall|j: int| 0 <= j < origin.len() implies 0 <= #[trigger] origin[j]
                            < idx + 1 && first_with_id(records@, origin[j]) && restored_from(
                            records@[origin[j]],
                            n[j],
                        ) by {
                            if j < o.len() {
                                assert(origin[j] == old_origin[j]);
                                assert(n[j] == o[j]);
                            }
                        }
                        assert(n == service.entries());
                        assert forall|k: int| 0 <= k < idx + 1 && storable(records@[k]) implies exists|j: int|
                            0 <= j < service.entries().len() && (#[trigger] records@[k]).status.job_id@
                                == service.entries()[j].status.job_id@ by {
                            if k == idx {
                                assert(n[o.len() as int].status.job_id@
                                    == records@[k].status.job_id@);
                            } else {
                                let j = choose|j: int|
                                    0 <= j < o.len() && (#[trigger] records@[k]).status.job_id@
                                        == o[j].status.job_id@;
                                assert(n[j] == o[j]);
                            }
                        }
                    }
                    assert(forall|k: int|
                        0 <= k < idx + 1 && storable(records@[k]) ==> exists|j: int|
                            0 <= j < service.entries().len() && (#[trigger] records@[k]).status.job_id@
                                == service.entries()[j].status.job_id@);
                },
            }
            idx = idx + 1;
        }
        proof {
            let e = service.entries();
            assert forall|i: int| first_with_id(records@, i) implies kept_in(
                service.entries(),
                #[trigger] records@[i],
            ) by {
                let j = choose|j: int|
                    0 <= j < e.len() && (#[trigger] records@[i]).status.job_id@
                        == e[j].status.job_id@;
                let o = origin[j];
                if o < i {
                    assert(records@[o].status.job_id@ == records@[i].status.job_id@);
                } else if o > i {
                    assert(records@[i].status.job_id@ == records@[o].status.job_id@);
                }
                assert(o == i);
                assert(restored_from(records@[i], e[j]));
            }
            lemma_every_job_restored(records@, service.entries(), origin);
            assert(restored_in_order(records@, service.entries(), origin));
        }
        service
    }
}

/// Each job was restored from the stored job its origin points at.
proof fn lemma_every_job_restored(records: Seq<Job>, jobs: Seq<Job>, origin: Seq<int>)
    requires
        origin.len() == jobs.len(),
        forall|j: int|
            0 <= j < origin.len() ==> 0 <= #[trigger] origin[j] < records.len() && first_with_id(
                records,
                origin[j],
            ) && restored_from(records[origin[j]], jobs[j]),
    ensures
        forall|j: int| 0 <= j < jobs.len() ==> comes_from(records, #[trigger] jobs[j]),
{
    assert forall|j: int| 0 <= j < jobs.len() implies comes_from(records, #[trigger] jobs[j]) by {
        let i = origin[j];
        assert(first_with_id(records, i) && restored_from(records[i], jobs[j]));
    }
}

/// Appending a consistent job whose identifier is new keeps a queue
/// consistent.
proof fn lemma_push_fresh(jobs: Seq<Job>, job: Job)
    requires
        jobs_wf(jobs),
        job_wf(job),
        forall|k: int| 0 <= k < jobs.len() ==> !is_job(jobs, job.status.job_id@, k),
    ensures
        jobs_wf(jobs.push(job)),
{
    let n = jobs.push(job);
    assert forall|a: int, b: int|
        0 <= a < n.len() && 0 <= b < n.len() && a != b implies n[a].status.job_id@
        != n[b].status.job_id@ by {
        if a == jobs.len() {
            assert(!is_job(jobs, job.status.job_id@, b));
        } else if b == jobs.len() {
            assert(!is_job(jobs, job.status.job_id@, a));
        } else {
            assert(n[a] == jobs[a] && n[b] == jobs[b]);
        }
    }
    assert forall|k: int| 0 <= k < n.len() implies job_wf(#[trigger] n[k]) by {
        if k < jobs.len() {
            assert(n[k] == jobs[k]);
        }
    }
}

/// A new job identifier: 16 bytes from the operating system's generator, in
/// lower-case hexadecimal. `None` where the generator failed.
pub fn new_job_id() -> (id: Option<JobId>)
    ensures
        id matches Some(i) ==> exists|bytes: Seq<u8>| bytes.len() == 16 && i@ == hex_lower(bytes),
{
    match os_random_bytes(16) {
        Some(bytes) => Some(encode_hex_lower(bytes.as_slice())),
        None => None,
    }
}

/// After a restart no job is waiting or being uploaded: nothing is sent
/// again without the user asking.
pub proof fn lemma_restored_jobs_are_not_in_flight(records: Seq<Job>, job: Job)
    requires
        comes_from(records, job),
    ensures
        job.status.state != JobState::Queued,
        job.status.state != JobState::Uploading,
{
}

/// A job that `retry` queued again, and that still holds its recording, is
/// one that `begin_upload` starts.
pub proof fn lemma_retried_job_can_start(before: Seq<Job>, after: Seq<Job>, i: int)
    requires
        moved_at(before, after, i, JobState::Queued, true),
        before[i].recording_path is Some,
    ensures
        after[i].status.state == JobState::Queued,
        after[i].recording_path is Some,
{
}

/// Queuing a job under an identifier that no job has yet adds exactly one
/// job, found under that identifier, waiting, and leaves every other job as
/// it was: with fresh identifiers, the queue holds one job per successful
/// `enqueue`.
pub proof fn lemma_fresh_enqueue_adds_one_job(
    before: Seq<Job>,
    after: Seq<Job>,
    id: Seq<char>,
    name: Seq<char>,
    size: u64,
    path: PathBuf,
)
    requires
        lookup(before, id) is None,
        enqueued_into(before, after, id, name, size, path),
        ids_distinct(after),
    ensures
        after.len() == before.len() + 1,
        forall|k: int| 0 <= k < before.len() ==> after[k] == before[k],
        lookup(after, id) == Some(before.len() as int),
        after[before.len() as int].status.state == JobState::Queued,
{
    let last = before.len() as int;
    assert forall|k: int| 0 <= k < before.len() implies after[k] == before[k] by {
        assert(after.drop_last()[k] == after[k]);
    }
    assert(is_job(after, id, last));
    let c = choose|i: int| is_job(after, id, i);
    assert(c == last);
}

} // verus!
