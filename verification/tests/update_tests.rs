use tento_server::errors::AppError;
use tento_server::graphql::schema::{attempts_page, check_attempt_limit, page_window, require_quiz_creator, submit_attempt};
use tento_server::models::dto::request::QuestionAnswerInput;
use tento_server::logging::{JobWorkflowLog, LogLevel, ModelInteractionLog};
use tento_server::models::domain::quiz::Quiz;
use tento_server::models::domain::quiz_question::{QuizQuestion, QuizQuestionOption, QuizQuestionType};
use tento_server::models::domain::user::User;
use tento_server::models::dto::request::{UpdateQuizInput, UpdateQuizQuestionInput, UpdateQuizQuestionOptionInput};
use tento_server::services::quiz_service::{apply_quiz_update, quiz_not_found, stamped};
use tento_server::services::user_service::{
    created_user_response, paginated_users, updated_user_response, user_exists_error, user_not_found,
};

fn quiz_with_question() -> Quiz {
    let mut quiz = Quiz::test_quiz("Q", "u");
    quiz.questions = Some(vec![QuizQuestion {
        id: "q1".to_string(),
        title: "Old".to_string(),
        description: "D".to_string(),
        question_type: QuizQuestionType::Single,
        options: vec![
            QuizQuestionOption { id: "a".to_string(), text: "A".to_string(), correct: true, explanation: "e".to_string() },
            QuizQuestionOption { id: "b".to_string(), text: "B".to_string(), correct: false, explanation: "f".to_string() },
        ],
        option_count: 2,
        order: 1,
        attempt_limit: 1,
        topic: "t".to_string(),
        created_at: Some(1),
        modified_at: Some(1),
    }]);
    quiz
}

#[test]
fn partial_update_changes_only_given_fields() {
    let input = UpdateQuizInput {
        id: "x".to_string(),
        title: Some("New title".to_string()),
        description: None,
        questions: Some(vec![UpdateQuizQuestionInput {
            id: "q1".to_string(),
            title: Some("New".to_string()),
            description: None,
            options: Some(vec![UpdateQuizQuestionOptionInput {
                id: "b".to_string(),
                text: None,
                correct: Some(true),
                explanation: None,
            }]),
        }]),
    };
    let updated = apply_quiz_update(quiz_with_question(), &input, 99).unwrap();
    assert_eq!(updated.title.as_deref(), Some("New title"));
    assert_eq!(updated.modified_at, Some(99));
    let qs = updated.questions.unwrap();
    assert_eq!(qs[0].title, "New");
    assert_eq!(qs[0].description, "D");
    // the changed options replace the question's options
    assert_eq!(qs[0].options.len(), 1);
    assert_eq!(qs[0].options[0].id, "b");
    assert!(qs[0].options[0].correct);
    assert_eq!(qs[0].options[0].text, "B");
    assert_eq!(qs[0].modified_at, Some(99));
}

#[test]
fn partial_update_reports_unknown_ids() {
    let bad_question = UpdateQuizInput {
        id: "x".to_string(),
        title: None,
        description: None,
        questions: Some(vec![UpdateQuizQuestionInput { id: "zz".to_string(), title: None, description: None, options: None }]),
    };
    match apply_quiz_update(quiz_with_question(), &bad_question, 1) {
        Err(AppError::NotFound(m)) => assert_eq!(m, "Question with id 'zz' not found"),
        other => panic!("unexpected {:?}", other),
    }
    let bad_option = UpdateQuizInput {
        id: "x".to_string(),
        title: None,
        description: None,
        questions: Some(vec![UpdateQuizQuestionInput {
            id: "q1".to_string(),
            title: None,
            description: None,
            options: Some(vec![UpdateQuizQuestionOptionInput { id: "c".to_string(), text: None, correct: None, explanation: None }]),
        }]),
    };
    match apply_quiz_update(quiz_with_question(), &bad_option, 1) {
        Err(AppError::NotFound(m)) => assert_eq!(m, "Option with id 'c' not found"),
        other => panic!("unexpected {:?}", other),
    }
    let no_questions = Quiz::test_quiz("Q", "u");
    let input = UpdateQuizInput { id: "x".to_string(), title: None, description: None, questions: Some(vec![]) };
    match apply_quiz_update(no_questions, &input, 1) {
        Err(AppError::ValidationError(m)) => assert_eq!(m, "Cannot update questions on quiz without existing questions"),
        other => panic!("unexpected {:?}", other),
    }
}

#[test]
fn quiz_store_helpers() {
    assert!(matches!(quiz_not_found("q"), AppError::NotFound(m) if m == "Quiz with id 'q' not found"));
    let mut quiz = Quiz::test_quiz("Q", "u");
    quiz.created_at = None;
    quiz.modified_at = Some(3);
    let q = stamped(quiz, 7);
    assert_eq!(q.created_at, Some(7));
    assert_eq!(q.modified_at, Some(3));
}

#[test]
fn user_service_answers() {
    let r = created_user_response(User::new("A", "B", "ab", "a@b.c"));
    assert_eq!(r.message, "User created successfully");
    assert_eq!(r.data.full_name, "A B");
    let u = updated_user_response(User::new("A", "B", "ab", "a@b.c"));
    assert_eq!(u.message, "User updated successfully");
    assert!(matches!(user_exists_error("ab"), AppError::AlreadyExists(m) if m == "User with username 'ab' already exists"));
    assert!(matches!(user_not_found("zz"), AppError::NotFound(m) if m == "User with username 'zz' not found"));
    let page = paginated_users(vec![User::new("A", "B", "ab", "a@b.c"), User::new("C", "D", "cd", "c@d.e")], 0, 2, 10);
    assert_eq!(page.data.len(), 2);
    assert_eq!(page.data[1].username, "cd");
    assert_eq!(page.pagination.total, 10);
}

#[test]
fn log_records_have_levels_and_targets() {
    let job = JobWorkflowLog::new("run").with_job_id("j");
    let start = job.log_start();
    assert_eq!(start.target, "agent_orchestrator");
    assert_eq!(start.level, LogLevel::Info);
    assert!(start.message.contains("job_id=j"));
    let failed = JobWorkflowLog::new("run").with_error("boom").log_error();
    assert_eq!(failed.level, LogLevel::Error);
    let step = JobWorkflowLog::new("run").with_step_name("s").log_step_start();
    assert!(step.message.contains("step=s"));
    let done = JobWorkflowLog::new("run").with_success(true).log_step_complete();
    assert_eq!(done.level, LogLevel::Info);
    let complete = JobWorkflowLog::new("run").log_complete();
    assert_eq!(complete.target, "agent_orchestrator");
    let request = ModelInteractionLog::new("chat").with_model("m").log_request();
    assert_eq!(request.target, "model_service");
    assert!(request.message.contains("model=m"));
}

#[test]
fn list_pages_are_clamped() {
    assert_eq!(page_window(None, None, 20, 100), (0, 20));
    assert_eq!(page_window(Some(-5), Some(0), 20, 100), (0, 1));
    assert_eq!(page_window(Some(7), Some(500), 10, 50), (7, 50));
}

#[test]
fn attempts_are_limited_and_numbered() {
    let quiz = quiz_with_question();
    assert!(matches!(check_attempt_limit(3, 3), Err(AppError::BadRequest(m)) if m == "Quiz attempt limit (3) reached"));
    assert!(check_attempt_limit(2, 3).is_ok());
    let answers = vec![QuestionAnswerInput { question_id: "q1".to_string(), selected_option_ids: vec!["a".to_string()] }];
    let attempt = submit_attempt("u", &quiz, &answers, 1).unwrap();
    assert_eq!(attempt.attempt_number, 2);
    assert_eq!(attempt.total_possible, quiz.question_count);
    assert_eq!(attempt.points_earned, 1);
    assert!(submit_attempt("u", &quiz, &answers, 3).is_err());
    let page = attempts_page(vec![attempt], 0, 10, 1);
    assert_eq!(page.data.len(), 1);
    assert_eq!(page.data[0].attempt_number, 2);
    assert!(require_quiz_creator("u", "u").is_ok());
    assert!(matches!(require_quiz_creator("v", "u"), Err(AppError::Forbidden(_))));
}

#[test]
fn test_update_quiz_partial_fields() {
    let input = UpdateQuizInput {
        id: "quiz-123".to_string(),
        title: Some("New Title".to_string()),
        description: None,
        questions: None,
    };

    assert!(input.title.is_some());
    assert!(input.description.is_none());
}
