use vstd::prelude::*;

use crate::clock::{new_uuid, now_micros};
use crate::json::{JsonMap, JsonValue};
use crate::services::step_executor::{JobStepType, step_type_of};
use crate::text::{concat2, copy_opt_string, copy_string, opt_string_model, owned};

verus! {

/// Where an agent job is in its life.
#[derive(Debug, Clone, Copy, PartialEq, Eq, Structural)]
pub enum JobStatus {
    Pending,
    Running,
    Completed,
    Failed,
    Paused,
}

/// The lowercase name of a status, as stored and shown.
pub open spec fn status_name(s: JobStatus) -> Seq<char> {
    match s {
        JobStatus::Pending => "pending"@,
        JobStatus::Running => "running"@,
        JobStatus::Completed => "completed"@,
        JobStatus::Failed => "failed"@,
        JobStatus::Paused => "paused"@,
    }
}

impl JobStatus {
    /// The lowercase name of the status.
    pub fn as_str(self) -> (s: &'static str)
        ensures
            s@ == status_name(self),
    {
        match self {
            JobStatus::Pending => "pending",
            JobStatus::Running => "running",
            JobStatus::Completed => "completed",
            JobStatus::Failed => "failed",
            JobStatus::Paused => "paused",
        }
    }
}

/// One step of a job, with its retry budget and optional time limit.
#[derive(Debug, Clone)]
pub struct JobStep {
    pub id: String,
    pub name: String,
    pub description: Option<String>,
    pub retry_count: u32,
    pub max_retries: u32,
    pub timeout_seconds: Option<u64>,
}

/// The mathematical content of a step.
pub struct StepModel {
    pub id: Seq<char>,
    pub name: Seq<char>,
    pub description: Option<Seq<char>>,
    pub retry_count: u32,
    pub max_retries: u32,
    pub timeout_seconds: Option<u64>,
}

impl View for JobStep {
    type V = StepModel;

    open spec fn view(&self) -> StepModel {
        StepModel {
            id: self.id@,
            name: self.name@,
            description: opt_string_model(self.description),
            retry_count: self.retry_count,
            max_retries: self.max_retries,
            timeout_seconds: self.timeout_seconds,
        }
    }
}

/// The models of a list of steps.
pub open spec fn steps_model(v: Seq<JobStep>) -> Seq<StepModel> {
    v.map_values(|s: JobStep| s@)
}

impl JobStep {
    /// A step named `name` with a fresh random id, no description, no
    /// retries used, three retries allowed and no time limit.
    pub fn new(name: &str) -> (s: Self)
        ensures
            crate::clock::uuid_v4_text(s.id@),
            s.name@ == name@,
            s.description is None,
            s.retry_count == 0,
            s.max_retries == 3,
            s.timeout_seconds is None,
    {
        JobStep {
            id: new_uuid(),
            name: owned(name),
            description: None,
            retry_count: 0,
            max_retries: 3,
            timeout_seconds: None,
        }
    }

    /// The same step with a description.
    pub fn with_description(self, description: &str) -> (s: Self)
        ensures
            s@ == (StepModel { description: Some(description@), ..self@ }),
    {
        JobStep { description: Some(owned(description)), ..self }
    }

    /// The same step with another retry budget.
    pub fn with_max_retries(self, max_retries: u32) -> (s: Self)
        ensures
            s@ == (StepModel { max_retries, ..self@ }),
    {
        JobStep { max_retries, ..self }
    }

    /// The same step with a time limit.
    pub fn with_timeout(self, seconds: u64) -> (s: Self)
        ensures
            s@ == (StepModel { timeout_seconds: Some(seconds), ..self@ }),
    {
        JobStep { timeout_seconds: Some(seconds), ..self }
    }

    /// An identical, independent copy.
    pub fn copied(&self) -> (s: Self)
        ensures
            s@ == self@,
    {
        JobStep {
            id: copy_string(&self.id),
            name: copy_string(&self.name),
            description: copy_opt_string(&self.description),
            retry_count: self.retry_count,
            max_retries: self.max_retries,
            timeout_seconds: self.timeout_seconds,
        }
    }
}

/// The steps of a new job: each keeps its id, and one with an empty id is
/// given a fresh random one; nothing else changes and the order stays.
pub fn assign_step_ids(steps: Vec<JobStep>) -> (r: Vec<JobStep>)
    ensures
        r@.len() == steps@.len(),
        forall|i: int| 0 <= i < steps@.len() ==> {
            let (a, b) = (#[trigger] r@[i]@, steps@[i]@);
            &&& a.name == b.name
            &&& a.description == b.description
            &&& a.retry_count == b.retry_count
            &&& a.max_retries == b.max_retries
            &&& a.timeout_seconds == b.timeout_seconds
            &&& (b.id.len() > 0 ==> a.id == b.id)
            &&& (b.id.len() == 0 ==> crate::clock::uuid_v4_text(a.id))
        },
{
    let mut r: Vec<JobStep> = Vec::new();
    let mut i: usize = 0;
    while i < steps.len()
        invariant
            i <= steps@.len(),
            r@.len() == i,
            forall|k: int| 0 <= k < i ==> {
                let (a, b) = (#[trigger] r@[k]@, steps@[k]@);
                &&& a.name == b.name
                &&& a.description == b.description
                &&& a.retry_count == b.retry_count
                &&& a.max_retries == b.max_retries
                &&& a.timeout_seconds == b.timeout_seconds
                &&& (b.id.len() > 0 ==> a.id == b.id)
                &&& (b.id.len() == 0 ==> crate::clock::uuid_v4_text(a.id))
            },
        decreases steps@.len() - i,
    {
        let mut step = steps[i].copied();
        if step.id.as_str().is_empty() {
            step.id = new_uuid();
        }
        r.push(step);
        i = i + 1;
    }
    r
}

/// A multi-step background job. `results` collects what the steps produce;
/// timestamps are microseconds since the epoch.
#[derive(Debug)]
pub struct AgentJob {
    pub id: Option<String>,
    pub job_id: String,
    pub correlation_id: String,
    pub status: JobStatus,
    pub steps: Vec<JobStep>,
    pub current_step_index: usize,
    pub results: JsonMap,
    pub error_message: Option<String>,
    pub created_at: i64,
    pub started_at: Option<i64>,
    pub completed_at: Option<i64>,
    pub retries_remaining: u32,
}

/// The mathematical content of a job.
pub struct JobModel {
    pub id: Option<Seq<char>>,
    pub job_id: Seq<char>,
    pub correlation_id: Seq<char>,
    pub status: JobStatus,
    pub steps: Seq<StepModel>,
    pub current_step_index: usize,
    pub results: Map<Seq<char>, JsonValue>,
    pub error_message: Option<Seq<char>>,
    pub created_at: i64,
    pub started_at: Option<i64>,
    pub completed_at: Option<i64>,
    pub retries_remaining: u32,
}

impl View for AgentJob {
    type V = JobModel;

    open spec fn view(&self) -> JobModel {
        JobModel {
            id: opt_string_model(self.id),
            job_id: self.job_id@,
            correlation_id: self.correlation_id@,
            status: self.status,
            steps: steps_model(self.steps@),
            current_step_index: self.current_step_index,
            results: self.results@,
            error_message: opt_string_model(self.error_message),
            created_at: self.created_at,
            started_at: self.started_at,
            completed_at: self.completed_at,
            retries_remaining: self.retries_remaining,
        }
    }
}

/// Every step has been run.
pub open spec fn job_complete(j: JobModel) -> bool {
    j.current_step_index >= j.steps.len()
}

/// Starting: only a pending job starts; it becomes running, stamped `now`.
pub open spec fn started(j: JobModel, now: i64) -> Option<JobModel> {
    if j.status != JobStatus::Pending {
        None
    } else {
        Some(JobModel { status: JobStatus::Running, started_at: Some(now), ..j })
    }
}

/// What a step's result adds to the results: an object's entries, each
/// under its own key; any other value under the step's id.
pub open spec fn merged_results(results: Map<Seq<char>, JsonValue>, step_id: Seq<char>, v: JsonValue) -> Map<Seq<char>, JsonValue> {
    match v {
        JsonValue::Object(m) => results.union_prefer_right(m@),
        _ => results.insert(step_id, v),
    }
}

/// Completing the current step of a running job: its result (if any, and
/// if there is a current step) joins the results, the job moves to the next
/// step, and it completes, stamped `now`, once no step is left.
pub open spec fn step_completed(j: JobModel, result: Option<JsonValue>, now: i64) -> Option<JobModel> {
    if j.status != JobStatus::Running {
        None
    } else {
        let results = if j.current_step_index < j.steps.len() && result is Some {
            merged_results(j.results, j.steps[j.current_step_index as int].id, result.unwrap())
        } else {
            j.results
        };
        let next = (j.current_step_index + 1) as usize;
        let done = next >= j.steps.len();
        Some(JobModel {
            results,
            current_step_index: next,
            status: if done { JobStatus::Completed } else { JobStatus::Running },
            completed_at: if done { Some(now) } else { j.completed_at },
            ..j
        })
    }
}

/// Failing the current step of a running job: the step's retry count goes
/// up by one and the error is recorded; once the step has used up its
/// retries (or when there is no current step) the job fails, stamped `now`.
pub open spec fn step_failed(j: JobModel, error: Seq<char>, now: i64) -> Option<JobModel> {
    if j.status != JobStatus::Running {
        None
    } else if j.current_step_index < j.steps.len() {
        let i = j.current_step_index as int;
        let step = StepModel { retry_count: (j.steps[i].retry_count + 1) as u32, ..j.steps[i] };
        let steps = j.steps.update(i, step);
        if step.retry_count >= step.max_retries {
            Some(JobModel { status: JobStatus::Failed, error_message: Some(error), completed_at: Some(now), steps, ..j })
        } else {
            Some(JobModel { error_message: Some(error), steps, ..j })
        }
    } else {
        Some(JobModel { status: JobStatus::Failed, error_message: Some(error), completed_at: Some(now), ..j })
    }
}

/// Pausing: only a running job pauses.
pub open spec fn paused(j: JobModel) -> Option<JobModel> {
    if j.status != JobStatus::Running {
        None
    } else {
        Some(JobModel { status: JobStatus::Paused, ..j })
    }
}

/// Resuming: only a paused job resumes, and runs again.
pub open spec fn resumed(j: JobModel) -> Option<JobModel> {
    if j.status != JobStatus::Paused {
        None
    } else {
        Some(JobModel { status: JobStatus::Running, ..j })
    }
}

/// Marking a job whose steps are all done as completed, stamped `now`.
pub open spec fn finished(j: JobModel, now: i64) -> JobModel {
    JobModel { status: JobStatus::Completed, completed_at: Some(now), ..j }
}

/// What the background worker does next with a running job.
#[derive(Debug)]
pub enum WorkerAction {
    /// Run the current step, of the given kind; `attempt` counts from one.
    ExecuteStep { step_type: JobStepType, step_index: usize, attempt: u32, max_attempts: u32 },
    /// The current step has a name no handler knows: fail it with `error`.
    FailUnknownStep { error: String },
    /// No step is left: mark the job completed.
    CompleteJob,
}

impl AgentJob {
    /// A pending job over `steps` with fresh random job and correlation ids,
    /// at its first step, with no results, created now, and three retries.
    pub fn new(steps: Vec<JobStep>) -> (j: Self)
        ensures
            crate::clock::uuid_v4_text(j.job_id@),
            crate::clock::uuid_v4_text(j.correlation_id@),
            j@.id == Some(j.job_id@),
            j.status == JobStatus::Pending,
            j@.steps == steps_model(steps@),
            j.current_step_index == 0,
            j@.results == Map::<Seq<char>, JsonValue>::empty(),
            j.error_message is None,
            j.started_at is None,
            j.completed_at is None,
            j.retries_remaining == 3,
    {
        let job_id = new_uuid();
        let correlation_id = new_uuid();
        AgentJob::new_with_ids(steps, job_id, correlation_id)
    }

    /// A pending job over `steps` with the given ids, at its first step,
    /// with no results, created now, and three retries.
    pub fn new_with_ids(steps: Vec<JobStep>, job_id: String, correlation_id: String) -> (j: Self)
        ensures
            j@.id == Some(job_id@),
            j.job_id@ == job_id@,
            j.correlation_id@ == correlation_id@,
            j.status == JobStatus::Pending,
            j@.steps == steps_model(steps@),
            j.current_step_index == 0,
            j@.results == Map::<Seq<char>, JsonValue>::empty(),
            j.error_message is None,
            j.started_at is None,
            j.completed_at is None,
            j.retries_remaining == 3,
    {
        AgentJob {
            id: Some(copy_string(&job_id)),
            job_id,
            correlation_id,
            status: JobStatus::Pending,
            steps,
            current_step_index: 0,
            results: JsonMap::new(),
            error_message: None,
            created_at: now_micros(),
            started_at: None,
            completed_at: None,
            retries_remaining: 3,
        }
    }

    /// The step to run next, if any is left.
    pub fn get_current_step(&self) -> (r: Option<&JobStep>)
        ensures
            match r {
                Some(s) => self.current_step_index < self.steps@.len() && *s == self.steps@[self.current_step_index as int],
                None => self.current_step_index >= self.steps@.len(),
            },
    {
        if self.current_step_index < self.steps.len() {
            Some(&self.steps[self.current_step_index])
        } else {
            None
        }
    }

    /// Records `value` under `key` among the job's results, replacing any
    /// value there; nothing else changes.
    pub fn set_metadata(&mut self, key: String, value: JsonValue)
        ensures
            final(self)@ == (JobModel { results: old(self)@.results.insert(key@, value), ..old(self)@ }),
    {
        self.results.insert(key, value);
    }

    /// Whether every step has been run.
    pub fn is_complete(&self) -> (b: bool)
        ensures
            b == job_complete(self@),
    {
        self.current_step_index >= self.steps.len()
    }

    /// Starts a pending job; any other job is refused and left unchanged.
    pub fn start(&mut self, now: i64) -> (r: Result<(), String>)
        ensures
            match r {
                Ok(()) => started(old(self)@, now) == Some(final(self)@),
                Err(e) => started(old(self)@, now) is None && final(self)@ == old(self)@
                    && e@ == "Job is already "@ + status_name(old(self).status),
            },
    {
        if self.status != JobStatus::Pending {
            return Err(concat2("Job is already ", self.status.as_str()));
        }
        self.status = JobStatus::Running;
        self.started_at = Some(now);
        Ok(())
    }

    /// Completes the current step of a running job with its result; any
    /// other job is refused and left unchanged.
    pub fn complete_step(&mut self, result: Option<JsonValue>, now: i64) -> (r: Result<(), String>)
        requires
            old(self).current_step_index < usize::MAX,
        ensures
            match r {
                Ok(()) => step_completed(old(self)@, result, now) == Some(final(self)@),
                Err(e) => step_completed(old(self)@, result, now) is None && final(self)@ == old(self)@
                    && e@ == "Job is not running"@,
            },
    {
        if self.status != JobStatus::Running {
            proof { reveal_strlit("Job is not running"); }
            return Err(owned("Job is not running"));
        }
        let ghost before = self@;
        if self.current_step_index < self.steps.len() {
            match result {
                Some(JsonValue::Object(entries)) => {
                    self.results.merge(entries);
                },
                Some(value) => {
                    let step_id = copy_string(&self.steps[self.current_step_index].id);
                    self.results.insert(step_id, value);
                },
                None => {},
            }
        }
        self.current_step_index = self.current_step_index + 1;
        if self.current_step_index >= self.steps.len() {
            self.status = JobStatus::Completed;
            self.completed_at = Some(now);
        } else {
            self.status = JobStatus::Running;
        }
        proof {
            assert(self@.steps == before.steps);
        }
        Ok(())
    }

    /// Fails the current step of a running job with `error`; any other job
    /// is refused and left unchanged.
    pub fn fail_step(&mut self, error: String, now: i64) -> (r: Result<(), String>)
        requires
            old(self).current_step_index < old(self).steps@.len() ==> old(self).steps@[old(self).current_step_index as int].retry_count < u32::MAX,
        ensures
            match r {
                Ok(()) => step_failed(old(self)@, error@, now) == Some(final(self)@),
                Err(e) => step_failed(old(self)@, error@, now) is None && final(self)@ == old(self)@
                    && e@ == "Job is not running"@,
            },
    {
        if self.status != JobStatus::Running {
            proof { reveal_strlit("Job is not running"); }
            return Err(owned("Job is not running"));
        }
        let ghost before = self@;
        if self.current_step_index < self.steps.len() {
            let i = self.current_step_index;
            let mut step = self.steps[i].copied();
            step.retry_count = step.retry_count + 1;
            let exhausted = step.retry_count >= step.max_retries;
            self.steps.set(i, step);
            proof {
                assert(steps_model(self.steps@) =~= before.steps.update(i as int, StepModel { retry_count: (before.steps[i as int].retry_count + 1) as u32, ..before.steps[i as int] }));
            }
            self.error_message = Some(error);
            if exhausted {
                self.status = JobStatus::Failed;
                self.completed_at = Some(now);
            }
        } else {
            self.status = JobStatus::Failed;
            self.error_message = Some(error);
            self.completed_at = Some(now);
        }
        Ok(())
    }

    /// Pauses a running job; any other job is refused and left unchanged.
    pub fn pause(&mut self) -> (r: Result<(), String>)
        ensures
            match r {
                Ok(()) => paused(old(self)@) == Some(final(self)@),
                Err(e) => paused(old(self)@) is None && final(self)@ == old(self)@ && e@ == "Job is not running"@,
            },
    {
        if self.status != JobStatus::Running {
            proof { reveal_strlit("Job is not running"); }
            return Err(owned("Job is not running"));
        }
        self.status = JobStatus::Paused;
        Ok(())
    }

    /// Resumes a paused job; any other job is refused and left unchanged.
    pub fn resume(&mut self) -> (r: Result<(), String>)
        ensures
            match r {
                Ok(()) => resumed(old(self)@) == Some(final(self)@),
                Err(e) => resumed(old(self)@) is None && final(self)@ == old(self)@ && e@ == "Job is not paused"@,
            },
    {
        if self.status != JobStatus::Paused {
            proof { reveal_strlit("Job is not paused"); }
            return Err(owned("Job is not paused"));
        }
        self.status = JobStatus::Running;
        Ok(())
    }

    /// Marks a job as completed, stamped `now` (the worker does so once no
    /// step is left).
    pub fn finish(&mut self, now: i64)
        ensures
            final(self)@ == finished(old(self)@, now),
    {
        self.status = JobStatus::Completed;
        self.completed_at = Some(now);
    }

    /// What the background worker does with this job next: run the current
    /// step when its name is known, fail it when not, or complete the job
    /// when no step is left.
    pub fn next_worker_action(&self) -> (a: WorkerAction)
        requires
            self.current_step_index < self.steps@.len() ==> {
                &&& self.steps@[self.current_step_index as int].retry_count < u32::MAX
                &&& self.steps@[self.current_step_index as int].max_retries < u32::MAX
            },
        ensures
            self.current_step_index >= self.steps@.len() ==> a is CompleteJob,
            self.current_step_index < self.steps@.len() ==> {
                let step = self@.steps[self.current_step_index as int];
                match step_type_of(step.name) {
                    Some(t) => a == (WorkerAction::ExecuteStep {
                        step_type: t,
                        step_index: self.current_step_index,
                        attempt: (step.retry_count + 1) as u32,
                        max_attempts: (step.max_retries + 1) as u32,
                    }),
                    None => a matches WorkerAction::FailUnknownStep { error } && error@ == "Unknown step type: "@ + step.name,
                }
            },
    {
        match self.get_current_step() {
            None => WorkerAction::CompleteJob,
            Some(step) => match JobStepType::from_step_name(step.name.as_str()) {
                Some(step_type) => WorkerAction::ExecuteStep {
                    step_type,
                    step_index: self.current_step_index,
                    attempt: step.retry_count + 1,
                    max_attempts: step.max_retries + 1,
                },
                None => {
                    proof { reveal_strlit("Unknown step type: "); }
                    WorkerAction::FailUnknownStep { error: concat2("Unknown step type: ", step.name.as_str()) }
                },
            },
        }
    }
}

/// A running job goes back to exactly the same state when it is paused and
/// then resumed.
pub proof fn lemma_pause_then_resume_restores(j: JobModel)
    requires
        j.status == JobStatus::Running,
    ensures
        paused(j) is Some,
        resumed(paused(j).unwrap()) == Some(j),
{
}

/// Jobs that have completed or failed are final: no transition accepts them.
pub proof fn lemma_finished_jobs_are_final(j: JobModel, result: Option<JsonValue>, error: Seq<char>, now: i64)
    requires
        j.status == JobStatus::Completed || j.status == JobStatus::Failed,
    ensures
        started(j, now) is None,
        step_completed(j, result, now) is None,
        step_failed(j, error, now) is None,
        paused(j) is None,
        resumed(j) is None,
{
}

/// Completing a step moves a running job on by exactly one step, keeps its
/// steps, never loses a result key, and leaves it completed exactly when no
/// step is left.
pub proof fn lemma_completion_advances_one_step(j: JobModel, result: Option<JsonValue>, now: i64)
    requires
        j.status == JobStatus::Running,
        j.current_step_index < usize::MAX,
    ensures
        step_completed(j, result, now) matches Some(k) && {
            &&& k.current_step_index == j.current_step_index + 1
            &&& k.steps == j.steps
            &&& j.results.dom().subset_of(k.results.dom())
            &&& (k.status == JobStatus::Completed <==> job_complete(k))
            &&& (k.status == JobStatus::Running <==> !job_complete(k))
        },
{
    let k = step_completed(j, result, now).unwrap();
    if j.current_step_index < j.steps.len() && result is Some {
        match result.unwrap() {
            JsonValue::Object(m) => {
                assert(j.results.dom().subset_of(k.results.dom()));
            },
            _ => {},
        }
    }
}

/// Applies successive step completions, stamped `now`.
pub open spec fn completions(j: JobModel, results: Seq<Option<JsonValue>>, now: i64) -> Option<JobModel>
    decreases results.len(),
{
    if results.len() == 0 {
        Some(j)
    } else {
        match completions(j, results.drop_last(), now) {
            Some(k) => step_completed(k, results.last(), now),
            None => None,
        }
    }
}

/// A running job at its first step completes after exactly as many
/// successful step completions as it has steps, and runs until then.
pub proof fn lemma_every_step_completed_completes_the_job(j: JobModel, results: Seq<Option<JsonValue>>, now: i64)
    requires
        j.status == JobStatus::Running,
        j.current_step_index == 0,
        0 < results.len() <= j.steps.len(),
        j.steps.len() < usize::MAX,
    ensures
        completions(j, results, now) matches Some(k) && {
            &&& k.current_step_index == results.len()
            &&& k.steps == j.steps
            &&& (k.status == JobStatus::Completed <==> results.len() == j.steps.len())
            &&& (k.status == JobStatus::Running <==> results.len() < j.steps.len())
        },
    decreases results.len(),
{
    if results.len() > 1 {
        lemma_every_step_completed_completes_the_job(j, results.drop_last(), now);
    } else {
        assert(completions(j, results.drop_last(), now) == Some(j));
    }
}

/// Applies successive failures of the current step, stamped `now`.
pub open spec fn failures(j: JobModel, errors: Seq<Seq<char>>, now: i64) -> Option<JobModel>
    decreases errors.len(),
{
    if errors.len() == 0 {
        Some(j)
    } else {
        match failures(j, errors.drop_last(), now) {
            Some(k) => step_failed(k, errors.last(), now),
            None => None,
        }
    }
}

/// A step that has not been retried yet fails its job on exactly its
/// `max_retries`-th failure: before that the job keeps running at the same
/// step, with one more retry counted for each failure and the last error
/// recorded.
pub proof fn lemma_retries_exhaust_after_max_failures(j: JobModel, errors: Seq<Seq<char>>, now: i64)
    requires
        j.status == JobStatus::Running,
        j.current_step_index < j.steps.len(),
        j.steps[j.current_step_index as int].retry_count == 0,
        0 < errors.len() <= j.steps[j.current_step_index as int].max_retries,
    ensures
        failures(j, errors, now) matches Some(k) && {
            let i = j.current_step_index as int;
            &&& k.current_step_index == j.current_step_index
            &&& k.steps.len() == j.steps.len()
            &&& k.steps[i].retry_count == errors.len()
            &&& k.steps[i].max_retries == j.steps[i].max_retries
            &&& k.error_message == Some(errors.last())
            &&& (k.status == JobStatus::Failed <==> errors.len() == j.steps[i].max_retries)
            &&& (k.status == JobStatus::Running <==> errors.len() < j.steps[i].max_retries)
        },
    decreases errors.len(),
{
    if errors.len() > 1 {
        lemma_retries_exhaust_after_max_failures(j, errors.drop_last(), now);
    } else {
        assert(failures(j, errors.drop_last(), now) == Some(j));
    }
}

/// Completing the current step with a JSON object as its result makes
/// every key of the object a key of the job's results, holding the
/// object's value for it; every other key keeps its value, and no other key
/// appears.
pub proof fn lemma_object_result_joins_results(j: JobModel, m: JsonMap, now: i64, after: JobModel)
    requires
        step_completed(j, Some(JsonValue::Object(m)), now) == Some(after),
        j.current_step_index < j.steps.len(),
    ensures
        forall|k: Seq<char>| #[trigger] m@.contains_key(k) ==> after.results.contains_key(k) && after.results[k] == m@[k],
        forall|k: Seq<char>|
            #[trigger] j.results.contains_key(k) && !m@.contains_key(k) ==> after.results.contains_key(k)
                && after.results[k] == j.results[k],
        forall|k: Seq<char>| #[trigger] after.results.contains_key(k) ==> m@.contains_key(k) || j.results.contains_key(k),
{
}

} // verus!
