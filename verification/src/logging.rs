//! Structured log messages for model interactions and job workflows, with
//! correlation ids for tracing. The library builds the records; the caller
//! hands them to its logger.

use vstd::prelude::*;

use crate::text::{
    bool_string, bool_text, decimal, opt_string_model, owned, push_decimal,
};

verus! {

/// The severity of a log record.
#[derive(Debug, Clone, Copy, PartialEq, Eq, Structural)]
pub enum LogLevel {
    Debug,
    Info,
    Warn,
    Error,
}

/// A finished log record: where it goes, how severe it is, and its text.
#[derive(Debug)]
pub struct LogRecord {
    pub target: &'static str,
    pub level: LogLevel,
    pub message: String,
}

/// The separator between the fields of a message.
pub open spec fn sep() -> Seq<char> {
    " | "@
}

/// The rendering of an optional text field: nothing when absent, else the
/// separator, the key, `=` and the value.
pub open spec fn text_field(key: Seq<char>, v: Option<Seq<char>>) -> Seq<char> {
    match v {
        Some(x) => sep() + key + "="@ + x,
        None => seq![],
    }
}

/// The rendering of an optional number field.
pub open spec fn number_field(key: Seq<char>, v: Option<nat>) -> Seq<char> {
    match v {
        Some(x) => sep() + key + "="@ + decimal(x),
        None => seq![],
    }
}

/// The rendering of an optional boolean field.
pub open spec fn bool_field(key: Seq<char>, v: Option<bool>) -> Seq<char> {
    match v {
        Some(x) => sep() + key + "="@ + bool_text(x),
        None => seq![],
    }
}

fn push_str(s: &mut String, t: &str)
    ensures
        final(s)@ == old(s)@ + t@,
{
    s.append(t);
}

fn push_text_field(s: &mut String, key: &str, v: &Option<String>)
    ensures
        final(s)@ == old(s)@ + text_field(key@, opt_string_model(*v)),
{
    proof { reveal_strlit(" | "); reveal_strlit("="); }
    match v {
        Some(x) => {
            push_str(s, " | ");
            push_str(s, key);
            push_str(s, "=");
            push_str(s, x.as_str());
            assert(final(s)@ =~= old(s)@ + text_field(key@, opt_string_model(*v)));
        },
        None => {
            assert(s@ =~= old(s)@ + text_field(key@, opt_string_model(*v)));
        },
    }
}

/// The number of an optional count, as a natural number.
pub open spec fn opt_nat<T: Integer>(v: Option<T>) -> Option<nat> {
    match v {
        Some(x) => Some(x as nat),
        None => None,
    }
}

fn push_number_field(s: &mut String, key: &str, v: Option<u64>)
    ensures
        final(s)@ == old(s)@ + number_field(key@, match v { Some(x) => Some(x as nat), None => None }),
{
    proof { reveal_strlit(" | "); reveal_strlit("="); }
    match v {
        Some(x) => {
            push_str(s, " | ");
            push_str(s, key);
            push_str(s, "=");
            push_decimal(s, x);
            assert(final(s)@ =~= old(s)@ + number_field(key@, Some(x as nat)));
        },
        None => {
            assert(s@ =~= old(s)@ + number_field(key@, None));
        },
    }
}

fn push_bool_field(s: &mut String, key: &str, v: Option<bool>)
    ensures
        final(s)@ == old(s)@ + bool_field(key@, v),
{
    proof { reveal_strlit(" | "); reveal_strlit("="); }
    match v {
        Some(x) => {
            push_str(s, " | ");
            push_str(s, key);
            push_str(s, "=");
            push_str(s, bool_string(x));
            assert(final(s)@ =~= old(s)@ + bool_field(key@, v));
        },
        None => {
            assert(s@ =~= old(s)@ + bool_field(key@, v));
        },
    }
}

fn widen32(v: Option<u32>) -> (r: Option<u64>)
    ensures
        match v { Some(x) => r == Some(x as u64), None => r is None },
{
    match v {
        Some(x) => Some(x as u64),
        None => None,
    }
}

fn widen_usize(v: Option<usize>) -> (r: Option<u64>)
    ensures
        match v { Some(x) => r == Some(x as u64), None => r is None },
{
    match v {
        Some(x) => Some(x as u64),
        None => None,
    }
}

/// The fields of one interaction with an AI model.
#[allow(dead_code)]
pub struct ModelInteractionLog {
    interaction_type: String,
    correlation_id: Option<String>,
    model: Option<String>,
    token_count: Option<u32>,
    success: Option<bool>,
    duration_ms: Option<u64>,
    error: Option<String>,
}

/// The mathematical content of a model interaction record.
pub struct ModelLogModel {
    pub interaction_type: Seq<char>,
    pub correlation_id: Option<Seq<char>>,
    pub model: Option<Seq<char>>,
    pub token_count: Option<u32>,
    pub success: Option<bool>,
    pub duration_ms: Option<u64>,
    pub error: Option<Seq<char>>,
}

impl View for ModelInteractionLog {
    type V = ModelLogModel;

    closed spec fn view(&self) -> ModelLogModel {
        ModelLogModel {
            interaction_type: self.interaction_type@,
            correlation_id: opt_string_model(self.correlation_id),
            model: opt_string_model(self.model),
            token_count: self.token_count,
            success: self.success,
            duration_ms: self.duration_ms,
            error: opt_string_model(self.error),
        }
    }
}

/// The message of a model interaction record: the prefix, then each field
/// that is set, in a fixed order, separated by `" | "`.
pub open spec fn model_message(m: ModelLogModel, prefix: Seq<char>) -> Seq<char> {
    prefix
        + text_field("correlation_id"@, m.correlation_id)
        + text_field("model"@, m.model)
        + number_field("tokens"@, opt_nat(m.token_count))
        + bool_field("success"@, m.success)
        + number_field("duration_ms"@, opt_nat(m.duration_ms))
        + text_field("error"@, m.error)
}

impl ModelInteractionLog {
    /// A record of the given kind with no field set.
    pub fn new(interaction_type: &str) -> (l: Self)
        ensures
            l@ == (ModelLogModel {
                interaction_type: interaction_type@,
                correlation_id: None,
                model: None,
                token_count: None,
                success: None,
                duration_ms: None,
                error: None,
            }),
    {
        ModelInteractionLog {
            interaction_type: owned(interaction_type),
            correlation_id: None,
            model: None,
            token_count: None,
            success: None,
            duration_ms: None,
            error: None,
        }
    }

    /// The same record with a correlation id.
    pub fn with_correlation_id(self, correlation_id: &str) -> (l: Self)
        ensures
            l@ == (ModelLogModel { correlation_id: Some(correlation_id@), ..self@ }),
    {
        ModelInteractionLog { correlation_id: Some(owned(correlation_id)), ..self }
    }

    /// The same record with a model name.
    pub fn with_model(self, model: &str) -> (l: Self)
        ensures
            l@ == (ModelLogModel { model: Some(model@), ..self@ }),
    {
        ModelInteractionLog { model: Some(owned(model)), ..self }
    }

    /// The same record with a token count.
    pub fn with_token_count(self, count: u32) -> (l: Self)
        ensures
            l@ == (ModelLogModel { token_count: Some(count), ..self@ }),
    {
        ModelInteractionLog { token_count: Some(count), ..self }
    }

    /// The same record with an outcome.
    pub fn with_success(self, success: bool) -> (l: Self)
        ensures
            l@ == (ModelLogModel { success: Some(success), ..self@ }),
    {
        ModelInteractionLog { success: Some(success), ..self }
    }

    /// The same record with a duration.
    pub fn with_duration_ms(self, duration_ms: u64) -> (l: Self)
        ensures
            l@ == (ModelLogModel { duration_ms: Some(duration_ms), ..self@ }),
    {
        ModelInteractionLog { duration_ms: Some(duration_ms), ..self }
    }

    /// The same record with an error.
    pub fn with_error(self, error: &str) -> (l: Self)
        ensures
            l@ == (ModelLogModel { error: Some(error@), ..self@ }),
    {
        ModelInteractionLog { error: Some(owned(error)), ..self }
    }

    /// The message text for this record under `prefix`.
    pub fn build_message(&self, prefix: &str) -> (s: String)
        ensures
            s@ == model_message(self@, prefix@),
    {
        let mut s = owned(prefix);
        push_text_field(&mut s, "correlation_id", &self.correlation_id);
        push_text_field(&mut s, "model", &self.model);
        push_number_field(&mut s, "tokens", widen32(self.token_count));
        push_bool_field(&mut s, "success", self.success);
        push_number_field(&mut s, "duration_ms", self.duration_ms);
        push_text_field(&mut s, "error", &self.error);
        s
    }

    /// The record of a request to the model, at info level.
    pub fn log_request(&self) -> (r: LogRecord)
        ensures
            r.target@ == "model_service"@,
            r.level == LogLevel::Info,
            r.message@ == model_message(self@, "MODEL_REQUEST"@),
    {
        LogRecord { target: "model_service", level: LogLevel::Info, message: self.build_message("MODEL_REQUEST") }
    }

    /// The record of a model's response: info when it succeeded, an error
    /// when an error is set, debug otherwise.
    pub fn log_response(&self) -> (r: LogRecord)
        ensures
            r.target@ == "model_service"@,
            self@.success == Some(true) ==> r.level == LogLevel::Info && r.message@ == model_message(self@, "MODEL_RESPONSE"@),
            self@.success != Some(true) && self@.error is Some ==> r.level == LogLevel::Error && r.message@ == model_message(self@, "MODEL_ERROR"@),
            self@.success != Some(true) && self@.error is None ==> r.level == LogLevel::Debug && r.message@ == model_message(self@, "MODEL_RESPONSE"@),
    {
        if self.success == Some(true) {
            LogRecord { target: "model_service", level: LogLevel::Info, message: self.build_message("MODEL_RESPONSE") }
        } else if self.error.is_some() {
            LogRecord { target: "model_service", level: LogLevel::Error, message: self.build_message("MODEL_ERROR") }
        } else {
            LogRecord { target: "model_service", level: LogLevel::Debug, message: self.build_message("MODEL_RESPONSE") }
        }
    }
}

/// The fields of one event of an agent job's workflow.
pub struct JobWorkflowLog {
    workflow_type: String,
    correlation_id: Option<String>,
    job_id: Option<String>,
    step_name: Option<String>,
    step_index: Option<usize>,
    attempt: Option<u32>,
    success: Option<bool>,
    error: Option<String>,
    duration_ms: Option<u64>,
}

/// The mathematical content of a workflow record.
pub struct JobLogModel {
    pub workflow_type: Seq<char>,
    pub correlation_id: Option<Seq<char>>,
    pub job_id: Option<Seq<char>>,
    pub step_name: Option<Seq<char>>,
    pub step_index: Option<usize>,
    pub attempt: Option<u32>,
    pub success: Option<bool>,
    pub error: Option<Seq<char>>,
    pub duration_ms: Option<u64>,
}

impl View for JobWorkflowLog {
    type V = JobLogModel;

    closed spec fn view(&self) -> JobLogModel {
        JobLogModel {
            workflow_type: self.workflow_type@,
            correlation_id: opt_string_model(self.correlation_id),
            job_id: opt_string_model(self.job_id),
            step_name: opt_string_model(self.step_name),
            step_index: self.step_index,
            attempt: self.attempt,
            success: self.success,
            error: opt_string_model(self.error),
            duration_ms: self.duration_ms,
        }
    }
}

/// The message of a workflow record: the workflow kind and the prefix
/// joined by `:`, then each field that is set, in a fixed order, separated
/// by `" | "`.
pub open spec fn job_message(m: JobLogModel, prefix: Seq<char>) -> Seq<char> {
    m.workflow_type + ":"@ + prefix
        + text_field("correlation_id"@, m.correlation_id)
        + text_field("job_id"@, m.job_id)
        + text_field("step"@, m.step_name)
        + number_field("step_index"@, opt_nat(m.step_index))
        + number_field("attempt"@, opt_nat(m.attempt))
        + bool_field("success"@, m.success)
        + number_field("duration_ms"@, opt_nat(m.duration_ms))
        + text_field("error"@, m.error)
}

impl JobWorkflowLog {
    /// A record of the given workflow kind with no field set.
    pub fn new(workflow_type: &str) -> (l: Self)
        ensures
            l@ == (JobLogModel {
                workflow_type: workflow_type@,
                correlation_id: None,
                job_id: None,
                step_name: None,
                step_index: None,
                attempt: None,
                success: None,
                error: None,
                duration_ms: None,
            }),
    {
        JobWorkflowLog {
            workflow_type: owned(workflow_type),
            correlation_id: None,
            job_id: None,
            step_name: None,
            step_index: None,
            attempt: None,
            success: None,
            error: None,
            duration_ms: None,
        }
    }

    /// The same record with a correlation id.
    pub fn with_correlation_id(self, correlation_id: &str) -> (l: Self)
        ensures
            l@ == (JobLogModel { correlation_id: Some(correlation_id@), ..self@ }),
    {
        JobWorkflowLog { correlation_id: Some(owned(correlation_id)), ..self }
    }

    /// The same record with a job id.
    pub fn with_job_id(self, job_id: &str) -> (l: Self)
        ensures
            l@ == (JobLogModel { job_id: Some(job_id@), ..self@ }),
    {
        JobWorkflowLog { job_id: Some(owned(job_id)), ..self }
    }

    /// The same record with a step name.
    pub fn with_step_name(self, step_name: &str) -> (l: Self)
        ensures
            l@ == (JobLogModel { step_name: Some(step_name@), ..self@ }),
    {
        JobWorkflowLog { step_name: Some(owned(step_name)), ..self }
    }

    /// The same record with a step index.
    pub fn with_step_index(self, index: usize) -> (l: Self)
        ensures
            l@ == (JobLogModel { step_index: Some(index), ..self@ }),
    {
        JobWorkflowLog { step_index: Some(index), ..self }
    }

    /// The same record with an attempt number.
    pub fn with_attempt(self, attempt: u32) -> (l: Self)
        ensures
            l@ == (JobLogModel { attempt: Some(attempt), ..self@ }),
    {
        JobWorkflowLog { attempt: Some(attempt), ..self }
    }

    /// The same record with an outcome.
    pub fn with_success(self, success: bool) -> (l: Self)
        ensures
            l@ == (JobLogModel { success: Some(success), ..self@ }),
    {
        JobWorkflowLog { success: Some(success), ..self }
    }

    /// The same record with an error.
    pub fn with_error(self, error: &str) -> (l: Self)
        ensures
            l@ == (JobLogModel { error: Some(error@), ..self@ }),
    {
        JobWorkflowLog { error: Some(owned(error)), ..self }
    }

    /// The same record with a duration.
    pub fn with_duration_ms(self, duration_ms: u64) -> (l: Self)
        ensures
            l@ == (JobLogModel { duration_ms: Some(duration_ms), ..self@ }),
    {
        JobWorkflowLog { duration_ms: Some(duration_ms), ..self }
    }

    /// The message text for this record under `prefix`.
    pub fn build_message(&self, prefix: &str) -> (s: String)
        ensures
            s@ == job_message(self@, prefix@),
    {
        proof { reveal_strlit(":"); }
        let mut s = owned(self.workflow_type.as_str());
        push_str(&mut s, ":");
        push_str(&mut s, prefix);
        push_text_field(&mut s, "correlation_id", &self.correlation_id);
        push_text_field(&mut s, "job_id", &self.job_id);
        push_text_field(&mut s, "step", &self.step_name);
        push_number_field(&mut s, "step_index", widen_usize(self.step_index));
        push_number_field(&mut s, "attempt", widen32(self.attempt));
        push_bool_field(&mut s, "success", self.success);
        push_number_field(&mut s, "duration_ms", self.duration_ms);
        push_text_field(&mut s, "error", &self.error);
        s
    }

    /// The record of a job's start, at info level.
    pub fn log_start(&self) -> (r: LogRecord)
        ensures
            r.target@ == "agent_orchestrator"@,
            r.level == LogLevel::Info,
            r.message@ == job_message(self@, "START"@),
    {
        LogRecord { target: "agent_orchestrator", level: LogLevel::Info, message: self.build_message("START") }
    }

    /// The record of a step's start, at info level.
    pub fn log_step_start(&self) -> (r: LogRecord)
        ensures
            r.target@ == "agent_orchestrator"@,
            r.level == LogLevel::Info,
            r.message@ == job_message(self@, "STEP_START"@),
    {
        LogRecord { target: "agent_orchestrator", level: LogLevel::Info, message: self.build_message("STEP_START") }
    }

    /// The record of a step's end: info when it succeeded, error otherwise.
    pub fn log_step_complete(&self) -> (r: LogRecord)
        ensures
            r.target@ == "agent_orchestrator"@,
            self@.success == Some(true) ==> r.level == LogLevel::Info && r.message@ == job_message(self@, "STEP_COMPLETE"@),
            self@.success != Some(true) ==> r.level == LogLevel::Error && r.message@ == job_message(self@, "STEP_FAILED"@),
    {
        if self.success == Some(true) {
            LogRecord { target: "agent_orchestrator", level: LogLevel::Info, message: self.build_message("STEP_COMPLETE") }
        } else {
            LogRecord { target: "agent_orchestrator", level: LogLevel::Error, message: self.build_message("STEP_FAILED") }
        }
    }

    /// The record of a job's end: info when it succeeded, error otherwise.
    pub fn log_complete(&self) -> (r: LogRecord)
        ensures
            r.target@ == "agent_orchestrator"@,
            self@.success == Some(true) ==> r.level == LogLevel::Info && r.message@ == job_message(self@, "COMPLETE"@),
            self@.success != Some(true) ==> r.level == LogLevel::Error && r.message@ == job_message(self@, "FAILED"@),
    {
        if self.success == Some(true) {
            LogRecord { target: "agent_orchestrator", level: LogLevel::Info, message: self.build_message("COMPLETE") }
        } else {
            LogRecord { target: "agent_orchestrator", level: LogLevel::Error, message: self.build_message("FAILED") }
        }
    }

    /// The record of a workflow error, at error level.
    pub fn log_error(&self) -> (r: LogRecord)
        ensures
            r.target@ == "agent_orchestrator"@,
            r.level == LogLevel::Error,
            r.message@ == job_message(self@, "ERROR"@),
    {
        LogRecord { target: "agent_orchestrator", level: LogLevel::Error, message: self.build_message("ERROR") }
    }
}

/// A fresh random identifier tying together the records of one request.
pub fn generate_correlation_id() -> (s: String)
    ensures
        crate::clock::uuid_v4_text(s@),
{
    crate::clock::new_uuid()
}

} // verus!
