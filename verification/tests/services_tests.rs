use tento_server::errors::AppError;
use tento_server::json::JsonValue;
use tento_server::logging::{generate_correlation_id, JobWorkflowLog, LogLevel, ModelInteractionLog};
use tento_server::models::domain::quiz::{Quiz, QuizStatus};
use tento_server::models::domain::quiz_question::{QuizQuestion, QuizQuestionOption, QuizQuestionType};
use tento_server::models::domain::summary_document::SummaryDocument;
use tento_server::models::dto::request::{QuestionAnswerInput, UpdateUserRequestDto};
use tento_server::models::dto::response::attempt_question_results;
use tento_server::services::agent_orchestrator_service::{assign_step_ids, AgentJob, JobStatus, JobStep, WorkerAction};
use tento_server::services::orchestrator_steps::quiz_steps::{
    create_quiz_generation_steps, DEFAULT_RETRIES, DRAFT_CREATION_TIMEOUT, FINALIZATION_RETRIES,
    FINALIZATION_TIMEOUT, QUIZ_GENERATION_TIMEOUT, SUMMARY_FETCH_TIMEOUT,
};
use tento_server::services::quiz_attempt_service::QuizAttemptService;
use tento_server::services::model_service::{inline_schema_refs, response_schema};
use tento_server::services::step_executor::{JobStepType, StepHandler};
use tento_server::services::summary_document_service::prepare_summary_document;
use tento_server::models::domain::user::{User, UserRole};
use tento_server::services::user_service::{deleted_user_message, upserted_user, user_update_fields};

fn make_option(id: &str, correct: bool) -> QuizQuestionOption {
    QuizQuestionOption {
        id: id.to_string(),
        text: format!("Option {}", id),
        correct,
        explanation: "test explanation".to_string(),
    }
}

fn make_question(id: &str, question_type: QuizQuestionType, options: Vec<QuizQuestionOption>) -> QuizQuestion {
    QuizQuestion {
        id: id.to_string(),
        title: format!("Question {}", id),
        description: "test question".to_string(),
        question_type,
        option_count: options.len() as i16,
        options,
        order: 1,
        attempt_limit: 1,
        topic: "test-topic".to_string(),
        created_at: None,
        modified_at: None,
    }
}

fn make_quiz_with_questions(questions: Vec<QuizQuestion>) -> Quiz {
    Quiz {
        id: "quiz-1".to_string(),
        name: "Test Quiz".to_string(),
        created_by_user_id: "user-1".to_string(),
        title: None,
        description: None,
        question_count: questions.len() as i16,
        required_score: 1,
        attempt_limit: 3,
        topic: None,
        status: QuizStatus::Ready,
        questions: Some(questions),
        url: "https://example.com".to_string(),
        created_at: None,
        modified_at: None,
    }
}

#[test]
fn grade_attempt_returns_point_for_correct_single_answer() {
    let question = make_question("q1", QuizQuestionType::Single, vec![make_option("o1", true), make_option("o2", false)]);
    let quiz = make_quiz_with_questions(vec![question]);
    let submitted_answers = vec![QuestionAnswerInput {
        question_id: "q1".to_string(),
        selected_option_ids: vec!["o1".to_string()],
    }];

    let result = QuizAttemptService::grade_attempt(&quiz, &submitted_answers);

    assert!(result.is_ok());
    let (total_points, question_results) = result.expect("grading should succeed");
    assert_eq!(total_points, 1);
    assert_eq!(question_results.len(), 1);
    assert!(question_results[0].is_correct);
    assert_eq!(question_results[0].points_earned, 1);
}

#[test]
fn grade_attempt_returns_zero_for_incorrect_single_answer() {
    let question = make_question("q1", QuizQuestionType::Single, vec![make_option("o1", true), make_option("o2", false)]);
    let quiz = make_quiz_with_questions(vec![question]);
    let submitted_answers = vec![QuestionAnswerInput {
        question_id: "q1".to_string(),
        selected_option_ids: vec!["o2".to_string()],
    }];

    let result = QuizAttemptService::grade_attempt(&quiz, &submitted_answers);

    assert!(result.is_ok());
    let (total_points, question_results) = result.expect("grading should succeed");
    assert_eq!(total_points, 0);
    assert_eq!(question_results.len(), 1);
    assert!(!question_results[0].is_correct);
    assert_eq!(question_results[0].points_earned, 0);
}

#[test]
fn grade_attempt_returns_zero_for_multi_partial_credit_scenario() {
    let question = make_question(
        "q1",
        QuizQuestionType::Multi,
        vec![make_option("o1", true), make_option("o2", true), make_option("o3", false)],
    );
    let quiz = make_quiz_with_questions(vec![question]);
    let submitted_answers = vec![QuestionAnswerInput {
        question_id: "q1".to_string(),
        selected_option_ids: vec!["o1".to_string()],
    }];

    let result = QuizAttemptService::grade_attempt(&quiz, &submitted_answers);

    assert!(result.is_ok());
    let (total_points, question_results) = result.expect("grading should succeed");
    assert_eq!(total_points, 0);
    assert_eq!(question_results.len(), 1);
    assert!(!question_results[0].is_correct);
    assert_eq!(question_results[0].points_earned, 0);
}

#[test]
fn grade_attempt_returns_error_for_unknown_question_id() {
    let question = make_question("q1", QuizQuestionType::Single, vec![make_option("o1", true), make_option("o2", false)]);
    let quiz = make_quiz_with_questions(vec![question]);
    let submitted_answers = vec![QuestionAnswerInput {
        question_id: "missing-question".to_string(),
        selected_option_ids: vec!["o1".to_string()],
    }];

    let result = QuizAttemptService::grade_attempt(&quiz, &submitted_answers);

    assert!(result.is_err());
    match result.expect_err("expected bad request error") {
        AppError::BadRequest(msg) => assert!(msg.contains("Question 'missing-question' not found")),
        other => panic!("expected BadRequest, got {:?}", other),
    }
}

#[test]
fn grade_attempt_returns_error_for_unknown_option_id() {
    let question = make_question("q1", QuizQuestionType::Single, vec![make_option("o1", true), make_option("o2", false)]);
    let quiz = make_quiz_with_questions(vec![question]);
    let submitted_answers = vec![QuestionAnswerInput {
        question_id: "q1".to_string(),
        selected_option_ids: vec!["missing-option".to_string()],
    }];

    let result = QuizAttemptService::grade_attempt(&quiz, &submitted_answers);

    assert!(result.is_err());
    match result.expect_err("expected bad request error") {
        AppError::BadRequest(msg) => assert!(msg.contains("Option 'missing-option' not found")),
        other => panic!("expected BadRequest, got {:?}", other),
    }
}

#[test]
fn grade_attempt_returns_error_when_quiz_has_no_questions() {
    let quiz = Quiz {
        id: "quiz-1".to_string(),
        name: "No Question Quiz".to_string(),
        created_by_user_id: "user-1".to_string(),
        title: None,
        description: None,
        question_count: 0,
        required_score: 1,
        attempt_limit: 1,
        topic: None,
        status: QuizStatus::Ready,
        questions: None,
        url: "https://example.com".to_string(),
        created_at: None,
        modified_at: None,
    };

    let submitted_answers = vec![QuestionAnswerInput {
        question_id: "q1".to_string(),
        selected_option_ids: vec!["o1".to_string()],
    }];

    let result = QuizAttemptService::grade_attempt(&quiz, &submitted_answers);

    assert!(result.is_err());
    match result.expect_err("expected bad request error") {
        AppError::BadRequest(msg) => assert_eq!(msg, "Quiz has no questions"),
        other => panic!("expected BadRequest, got {:?}", other),
    }
}

#[test]
fn grade_attempt_handles_empty_submitted_answers() {
    let question = make_question("q1", QuizQuestionType::Single, vec![make_option("o1", true), make_option("o2", false)]);
    let quiz = make_quiz_with_questions(vec![question]);

    let result = QuizAttemptService::grade_attempt(&quiz, &[]);

    assert!(result.is_ok());
    let (total_points, question_results) = result.expect("grading should succeed");
    assert_eq!(total_points, 0);
    assert!(question_results.is_empty());
}

#[test]
fn grading_score_counts_correct_answers() {
    let q1 = make_question("q1", QuizQuestionType::Single, vec![make_option("o1", true), make_option("o2", false)]);
    let q2 = make_question("q2", QuizQuestionType::Multi, vec![make_option("a", true), make_option("b", true)]);
    let quiz = make_quiz_with_questions(vec![q1, q2]);
    let answers = vec![
        QuestionAnswerInput { question_id: "q1".to_string(), selected_option_ids: vec!["o1".to_string()] },
        QuestionAnswerInput { question_id: "q2".to_string(), selected_option_ids: vec!["b".to_string(), "a".to_string()] },
    ];
    let (points, results) = QuizAttemptService::grade_attempt(&quiz, &answers).unwrap();
    assert_eq!(points, 2);
    assert_eq!(results.iter().filter(|r| r.is_correct).count(), 2);
    let attempt = QuizAttemptService::create_attempt("u", "quiz-1", points, 2, 1, 1, results);
    assert!(attempt.passed);
    let details = attempt_question_results(&attempt, &quiz).unwrap();
    assert_eq!(details.len(), 2);
    assert_eq!(details[1].correct_option_ids, vec!["a".to_string(), "b".to_string()]);
    assert_eq!(details[0].explanation, "test explanation");
}

#[test]
fn review_of_unknown_question_is_not_found() {
    let q1 = make_question("q1", QuizQuestionType::Single, vec![make_option("o1", true)]);
    let quiz = make_quiz_with_questions(vec![q1]);
    let (points, results) = QuizAttemptService::grade_attempt(
        &quiz,
        &[QuestionAnswerInput { question_id: "q1".to_string(), selected_option_ids: vec!["o1".to_string()] }],
    )
    .unwrap();
    let attempt = QuizAttemptService::create_attempt("u", "quiz-1", points, 1, 1, 1, results);
    let other = make_quiz_with_questions(vec![make_question("zz", QuizQuestionType::Single, vec![])]);
    assert!(matches!(attempt_question_results(&attempt, &other), Err(AppError::NotFound(m)) if m == "Question not found"));
}

#[test]
fn create_quiz_generation_steps_returns_expected_order() {
    let steps = create_quiz_generation_steps();

    let names: Vec<&str> = steps.iter().map(|s| s.name.as_str()).collect();
    assert_eq!(
        names,
        vec!["create_quiz_draft", "create_summary_document", "create_quiz_questions", "finalize_quiz"]
    );
}

#[test]
fn create_quiz_generation_steps_has_expected_retries_and_timeouts() {
    let steps = create_quiz_generation_steps();

    assert_eq!(steps[0].max_retries, DEFAULT_RETRIES);
    assert_eq!(steps[0].timeout_seconds, Some(DRAFT_CREATION_TIMEOUT));

    assert_eq!(steps[1].max_retries, DEFAULT_RETRIES);
    assert_eq!(steps[1].timeout_seconds, Some(SUMMARY_FETCH_TIMEOUT));

    assert_eq!(steps[2].max_retries, DEFAULT_RETRIES);
    assert_eq!(steps[2].timeout_seconds, Some(QUIZ_GENERATION_TIMEOUT));

    assert_eq!(steps[3].max_retries, FINALIZATION_RETRIES);
    assert_eq!(steps[3].timeout_seconds, Some(FINALIZATION_TIMEOUT));
}

#[test]
fn create_quiz_generation_steps_have_descriptions_and_unique_ids() {
    let steps = create_quiz_generation_steps();

    let mut ids: Vec<&str> = steps.iter().map(|s| s.id.as_str()).collect();
    let original_len = ids.len();
    ids.sort_unstable();
    ids.dedup();

    assert_eq!(ids.len(), original_len);
    assert!(steps.iter().all(|step| step.description.as_ref().is_some_and(|d| !d.is_empty())));
}

#[test]
fn step_names_map_to_kinds_and_back() {
    for kind in [
        JobStepType::CreateQuizDraft,
        JobStepType::CreateSummaryDocument,
        JobStepType::CreateQuizQuestions,
        JobStepType::FinalizeQuiz,
    ] {
        assert_eq!(JobStepType::from_step_name(kind.step_name()), Some(kind));
    }
    assert_eq!(JobStepType::from_step_name("unknown"), None);
}

#[test]
fn job_runs_its_steps_to_completion() {
    let mut job = AgentJob::new(create_quiz_generation_steps());
    assert_eq!(job.status, JobStatus::Pending);
    job.start(10).unwrap();
    assert_eq!(job.status, JobStatus::Running);
    for i in 0..4 {
        match job.next_worker_action() {
            WorkerAction::ExecuteStep { step_index, attempt, .. } => {
                assert_eq!(step_index, i);
                assert_eq!(attempt, 1);
            }
            other => panic!("unexpected {:?}", other),
        }
        job.complete_step(Some(JsonValue::Bool(true)), 20).unwrap();
    }
    assert!(job.is_complete());
    assert!(matches!(job.next_worker_action(), WorkerAction::CompleteJob));
}

#[test]
fn job_pause_and_resume_restore_running() {
    let mut job = AgentJob::new(vec![JobStep::new("finalize_quiz")]);
    job.start(1).unwrap();
    job.pause().unwrap();
    assert_eq!(job.status, JobStatus::Paused);
    assert!(job.pause().is_err());
    job.resume().unwrap();
    assert_eq!(job.status, JobStatus::Running);
}

#[test]
fn unknown_step_fails_the_job_step() {
    let mut job = AgentJob::new(vec![JobStep::new("mystery")]);
    job.start(1).unwrap();
    match job.next_worker_action() {
        WorkerAction::FailUnknownStep { error } => assert_eq!(error, "Unknown step type: mystery"),
        other => panic!("unexpected {:?}", other),
    }
}

#[test]
fn test_model_interaction_log() {
    let log = ModelInteractionLog::new("chat_completion")
        .with_correlation_id("test-123")
        .with_model("gpt-4")
        .with_token_count(100)
        .with_duration_ms(50);

    let message = log.build_message("TEST");
    assert!(message.contains("correlation_id=test-123"));
    assert!(message.contains("model=gpt-4"));
    assert!(message.contains("tokens=100"));
    assert!(message.contains("duration_ms=50"));
}

#[test]
fn test_job_workflow_log() {
    let log = JobWorkflowLog::new("process_job")
        .with_correlation_id("test-456")
        .with_job_id("job-789")
        .with_step_name("extract")
        .with_step_index(1)
        .with_attempt(2);

    let message = log.build_message("START");
    assert!(message.contains("correlation_id=test-456"));
    assert!(message.contains("job_id=job-789"));
    assert!(message.contains("step=extract"));
    assert!(message.contains("step_index=1"));
    assert!(message.contains("attempt=2"));
}

#[test]
fn failed_model_response_is_logged_as_error() {
    let log = ModelInteractionLog::new("chat").with_success(false).with_error("boom");
    let record = log.log_response();
    assert_eq!(record.level, LogLevel::Error);
    assert!(record.message.contains("boom"));
}

#[test]
fn summary_needs_content_and_gets_timestamps() {
    let mut doc = SummaryDocument::new_summary_document("https://x.io", "quiz", "text");
    doc.created_at = None;
    doc.modified_at = Some(7);
    let ready = prepare_summary_document(doc, 99).unwrap();
    assert_eq!(ready.created_at, Some(99));
    assert_eq!(ready.modified_at, Some(7));
    let blank = SummaryDocument::new_summary_document("https://x.io", "quiz", "  \n");
    assert!(matches!(prepare_summary_document(blank, 1), Err(AppError::ValidationError(m)) if m == "Summary document content cannot be empty"));
}

#[test]
fn user_update_sets_given_fields() {
    let r = UpdateUserRequestDto { first_name: Some("A".to_string()), last_name: None, email: Some("a@b.c".to_string()) };
    let fields = user_update_fields(r).unwrap();
    assert_eq!(fields, vec![("first_name".to_string(), "A".to_string()), ("email".to_string(), "a@b.c".to_string())]);
    let none = UpdateUserRequestDto { first_name: None, last_name: None, email: None };
    assert!(matches!(user_update_fields(none), Err(AppError::ValidationError(m)) if m == "No fields provided to update"));
    assert_eq!(deleted_user_message("bob"), "User 'bob' deleted successfully");
}

#[test]
fn test_assign_step_ids_fills_only_empty_ids() {
    let mut blank = JobStep::new("create_quiz_draft").with_max_retries(5);
    blank.id = String::new();
    let kept = JobStep::new("finalize_quiz");
    let kept_id = kept.id.clone();
    let steps = assign_step_ids(vec![blank, kept]);
    assert_eq!(steps.len(), 2);
    assert_eq!(steps[0].id.len(), 36);
    assert_eq!(steps[0].name, "create_quiz_draft");
    assert_eq!(steps[0].max_retries, 5);
    assert_eq!(steps[1].id, kept_id);
    assert_eq!(steps[1].name, "finalize_quiz");
}

fn from_serde(v: serde_json::Value) -> JsonValue {
    match v {
        serde_json::Value::Null => JsonValue::Null,
        serde_json::Value::Bool(b) => JsonValue::Bool(b),
        serde_json::Value::Number(n) => JsonValue::Number(n.to_string()),
        serde_json::Value::String(t) => JsonValue::Str(t),
        serde_json::Value::Array(items) => JsonValue::Array(items.into_iter().map(from_serde).collect()),
        serde_json::Value::Object(fields) => {
            let mut m = tento_server::json::JsonMap::new();
            for (k, x) in fields {
                m.insert(k, from_serde(x));
            }
            JsonValue::Object(m)
        }
    }
}

fn json(text: &str) -> JsonValue {
    from_serde(serde_json::from_str(text).expect("test JSON parses"))
}

fn same_json(a: &JsonValue, b: &JsonValue) -> bool {
    match (a, b) {
        (JsonValue::Null, JsonValue::Null) => true,
        (JsonValue::Bool(x), JsonValue::Bool(y)) => x == y,
        (JsonValue::Number(x), JsonValue::Number(y)) => x == y,
        (JsonValue::Str(x), JsonValue::Str(y)) => x == y,
        (JsonValue::Array(x), JsonValue::Array(y)) => {
            x.len() == y.len() && x.iter().zip(y.iter()).all(|(p, q)| same_json(p, q))
        }
        (JsonValue::Object(x), JsonValue::Object(y)) => {
            x.len() == y.len()
                && x.keys().iter().all(|k| match (x.get(k), y.get(k)) {
                    (Some(p), Some(q)) => same_json(p, q),
                    _ => false,
                })
        }
        _ => false,
    }
}

#[test]
fn test_inline_schema_refs_replaces_known_refs_recursively() {
    let mut schema = json(r##"{"a": {"$ref": "#/$defs/X"}, "b": [{"$ref": "#/$defs/Y"}], "c": {"$ref": "#/$defs/Missing"}}"##);
    let defs = json(r##"{"X": {"type": "string"}, "Y": {"type": "object", "properties": {"z": {"$ref": "#/$defs/X"}}}}"##);
    inline_schema_refs(&mut schema, &defs);
    let expected = json(
        r##"{"a": {"type": "string"}, "b": [{"type": "object", "properties": {"z": {"type": "string"}}}], "c": {"$ref": "#/$defs/Missing"}}"##,
    );
    assert!(same_json(&schema, &expected));
}

#[test]
fn test_inline_schema_refs_non_object_definition_empties_the_object() {
    let mut schema = json(r##"{"a": {"$ref": "#/$defs/N", "extra": 1}}"##);
    let defs = json(r##"{"N": 5}"##);
    inline_schema_refs(&mut schema, &defs);
    assert!(same_json(&schema, &json(r#"{"a": {}}"#)));
}

#[test]
fn test_response_schema_inlines_and_drops_defs() {
    let schema = json(
        r##"{"type": "object", "properties": {"q": {"$ref": "#/$defs/Q"}}, "$defs": {"Q": {"type": "integer"}}}"##,
    );
    let r = response_schema(&schema);
    let expected = json(r#"{"type": "object", "properties": {"q": {"type": "integer"}}}"#);
    assert!(same_json(&r, &expected));
}

#[test]
fn test_response_schema_without_defs_is_unchanged() {
    let schema = json(r#"{"type": "string"}"#);
    assert!(same_json(&response_schema(&schema), &schema));
}

#[test]
fn test_upserted_user_keeps_identity_of_existing_account() {
    let mut existing = User::new("Old", "Name", "old", "old@example.com");
    existing.id = Some("id-1".to_string());
    existing.github_id = Some("gh-7".to_string());
    existing.created_at = Some(100);
    let mut incoming = User::new("New", "Name", "new", "new@example.com");
    incoming.github_id = Some("gh-7".to_string());
    incoming.role = UserRole::Admin;
    incoming.created_at = Some(200);
    let u = upserted_user(Some(existing), incoming).unwrap();
    assert_eq!(u.id.as_deref(), Some("id-1"));
    assert_eq!(u.created_at, Some(100));
    assert_eq!(u.first_name, "New");
    assert_eq!(u.username, "new");
    assert_eq!(u.email, "new@example.com");
    assert_eq!(u.role, UserRole::Admin);
}

#[test]
fn test_upserted_user_requires_github_id() {
    let r = upserted_user(None, User::new("A", "B", "ab", "ab@example.com"));
    match r {
        Err(AppError::ValidationError(m)) => assert_eq!(m, "User must have a github_id for upsert"),
        _ => panic!("expected a validation error"),
    }
}

#[test]
fn test_correlation_id_generation() {
    let id1 = generate_correlation_id();
    let id2 = generate_correlation_id();

    assert_ne!(id1, id2);
    assert!(id1.len() == 36); // UUID v4 format
}

#[test]
fn test_finalize_step_result() {
    let r = StepHandler::finalize_step_result();
    match r {
        JsonValue::Object(m) => {
            assert_eq!(m.len(), 2);
            assert!(matches!(m.get("status"), Some(JsonValue::Str(s)) if s == "quiz_finalized"));
            assert!(matches!(m.get("quiz_status"), Some(JsonValue::Str(s)) if s == "ready"));
        }
        _ => panic!("expected an object"),
    }
}

#[test]
fn score_fits_counts_only_correct_answers() {
    let question = make_question("q1", QuizQuestionType::Single, vec![make_option("o1", true), make_option("o2", false)]);
    let quiz = make_quiz_with_questions(vec![question]);
    let answer = |o: &str| QuestionAnswerInput { question_id: "q1".to_string(), selected_option_ids: vec![o.to_string()] };
    let wrong: Vec<QuestionAnswerInput> = (0..40_000).map(|_| answer("o2")).collect();
    assert!(QuizAttemptService::score_fits_for(&quiz, &wrong));
    let (total, results) = QuizAttemptService::grade_attempt(&quiz, &wrong).unwrap();
    assert_eq!(total, 0);
    assert_eq!(results.len(), 40_000);
    let right: Vec<QuestionAnswerInput> = (0..32_768).map(|_| answer("o1")).collect();
    assert!(!QuizAttemptService::score_fits_for(&quiz, &right));
    assert!(QuizAttemptService::score_fits_for(&quiz, &right[..32_767]));
}
