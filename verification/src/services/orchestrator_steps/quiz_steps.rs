use vstd::prelude::*;

use crate::services::agent_orchestrator_service::{JobStep, StepModel};

verus! {

/// Seconds allowed to create the draft.
pub const DRAFT_CREATION_TIMEOUT: u64 = 10;
/// Seconds allowed to fetch and summarise the source page.
pub const SUMMARY_FETCH_TIMEOUT: u64 = 60;
/// Seconds allowed to generate the questions.
pub const QUIZ_GENERATION_TIMEOUT: u64 = 120;
/// Seconds allowed to finalise the quiz.
pub const FINALIZATION_TIMEOUT: u64 = 15;

/// Retries allowed for most steps.
pub const DEFAULT_RETRIES: u32 = 3;
/// Retries allowed for the finalisation step.
pub const FINALIZATION_RETRIES: u32 = 2;

/// A fresh, untried step with the given name, description, retry budget and
/// time limit.
pub open spec fn fresh_step(s: StepModel, name: Seq<char>, description: Seq<char>, retries: u32, timeout: u64) -> bool {
    &&& crate::clock::uuid_v4_text(s.id)
    &&& s.name == name
    &&& s.description == Some(description)
    &&& s.retry_count == 0
    &&& s.max_retries == retries
    &&& s.timeout_seconds == Some(timeout)
}

/// The four steps that turn a draft into a ready quiz, in order: create the
/// draft, summarise the source, generate the questions, finalise.
pub fn create_quiz_generation_steps() -> (steps: Vec<JobStep>)
    ensures
        steps@.len() == 4,
        fresh_step(steps@[0]@, "create_quiz_draft"@, "Create new Quiz with draft status and add to database"@, DEFAULT_RETRIES, DRAFT_CREATION_TIMEOUT),
        fresh_step(steps@[1]@, "create_summary_document"@, "Create summary document from provided URL via model service"@, DEFAULT_RETRIES, SUMMARY_FETCH_TIMEOUT),
        fresh_step(steps@[2]@, "create_quiz_questions"@, "Generate quiz questions and fields via model service call"@, DEFAULT_RETRIES, QUIZ_GENERATION_TIMEOUT),
        fresh_step(steps@[3]@, "finalize_quiz"@, "Deserialize quiz JSON, update database with complete quiz model, and change status to active"@, FINALIZATION_RETRIES, FINALIZATION_TIMEOUT),
{
    let mut steps: Vec<JobStep> = Vec::new();
    steps.push(create_draft_step());
    steps.push(create_summary_document_step());
    steps.push(create_quiz_questions_step());
    steps.push(finalize_quiz_step());
    steps
}

fn create_draft_step() -> (s: JobStep)
    ensures
        fresh_step(s@, "create_quiz_draft"@, "Create new Quiz with draft status and add to database"@, DEFAULT_RETRIES, DRAFT_CREATION_TIMEOUT),
{
    JobStep::new("create_quiz_draft")
        .with_description("Create new Quiz with draft status and add to database")
        .with_max_retries(DEFAULT_RETRIES)
        .with_timeout(DRAFT_CREATION_TIMEOUT)
}

fn create_summary_document_step() -> (s: JobStep)
    ensures
        fresh_step(s@, "create_summary_document"@, "Create summary document from provided URL via model service"@, DEFAULT_RETRIES, SUMMARY_FETCH_TIMEOUT),
{
    JobStep::new("create_summary_document")
        .with_description("Create summary document from provided URL via model service")
        .with_max_retries(DEFAULT_RETRIES)
        .with_timeout(SUMMARY_FETCH_TIMEOUT)
}

fn create_quiz_questions_step() -> (s: JobStep)
    ensures
        fresh_step(s@, "create_quiz_questions"@, "Generate quiz questions and fields via model service call"@, DEFAULT_RETRIES, QUIZ_GENERATION_TIMEOUT),
{
    JobStep::new("create_quiz_questions")
        .with_description("Generate quiz questions and fields via model service call")
        .with_max_retries(DEFAULT_RETRIES)
        .with_timeout(QUIZ_GENERATION_TIMEOUT)
}

fn finalize_quiz_step() -> (s: JobStep)
    ensures
        fresh_step(s@, "finalize_quiz"@, "Deserialize quiz JSON, update database with complete quiz model, and change status to active"@, FINALIZATION_RETRIES, FINALIZATION_TIMEOUT),
{
    JobStep::new("finalize_quiz")
        .with_description("Deserialize quiz JSON, update database with complete quiz model, and change status to active")
        .with_max_retries(FINALIZATION_RETRIES)
        .with_timeout(FINALIZATION_TIMEOUT)
}

} // verus!
