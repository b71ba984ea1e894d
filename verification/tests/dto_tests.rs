use tento_server::errors::AppError;
use tento_server::models::domain::quiz::{Quiz, QuizStatus};
use tento_server::models::domain::quiz_question::{QuizQuestion, QuizQuestionOption, QuizQuestionType};
use tento_server::models::dto::quiz_dto::{QuizDto, QuizQuestionDto};
use tento_server::models::dto::request::{
    options_to_json, parse_i16, parse_i16_required, parse_options_json, parse_optional_datetime,
    parse_question_type, parse_quiz_status, ChatCompletionRequest, CreateUserRequestDto,
    IntErrorKind, PaginationParams, QuizDraftDto, QuizQuestionRequestDto, QuizRequestDto,
    UpdateUserRequestDto,
};
use tento_server::models::dto::response::{QuizForTaking, UserDto};
use tento_server::models::domain::user::{User, UserRole};

#[test]
fn test_valid_create_user_request() {
    let request = CreateUserRequestDto {
        first_name: "John".to_string(),
        last_name: "Doe".to_string(),
        username: "johndoe".to_string(),
        email: "john@example.com".to_string(),
    };
    assert!(request.validate().is_ok());
}

#[test]
fn test_invalid_email() {
    let request = CreateUserRequestDto {
        first_name: "John".to_string(),
        last_name: "Doe".to_string(),
        username: "johndoe".to_string(),
        email: "invalid-email".to_string(),
    };
    assert!(request.validate().is_err());
}

#[test]
fn test_username_too_short() {
    let request = CreateUserRequestDto {
        first_name: "John".to_string(),
        last_name: "Doe".to_string(),
        username: "ab".to_string(),
        email: "john@example.com".to_string(),
    };
    assert!(request.validate().is_err());
}

#[test]
fn validation_names_each_failing_field_in_order() {
    let request = CreateUserRequestDto {
        first_name: "".to_string(),
        last_name: "Doe".to_string(),
        username: "ab".to_string(),
        email: "nope".to_string(),
    };
    assert_eq!(
        request.validate(),
        Err(vec!["first_name".to_string(), "username".to_string(), "email".to_string()])
    );
}

#[test]
fn update_request_checks_only_given_fields() {
    let empty = UpdateUserRequestDto { first_name: None, last_name: None, email: None };
    assert!(empty.validate().is_ok());
    let bad = UpdateUserRequestDto { first_name: Some("".to_string()), last_name: None, email: Some("x@y.z".to_string()) };
    assert_eq!(bad.validate(), Err(vec!["first_name".to_string()]));
}

#[test]
fn chat_request_limits() {
    let ok = ChatCompletionRequest { prompt: "hi".to_string(), model: "m".to_string() };
    assert!(ok.validate().is_ok());
    let bad = ChatCompletionRequest { prompt: "".to_string(), model: "m".to_string() };
    assert_eq!(bad.validate(), Err(vec!["prompt".to_string()]));
}

#[test]
fn quiz_draft_checks_name_and_url() {
    let draft = QuizDraftDto {
        name: "My Quiz".to_string(),
        question_count: 10,
        required_score: 70,
        attempt_limit: 3,
        url: "https://example.com/article".to_string(),
    };
    assert!(draft.validate().is_ok());
    let bad = QuizDraftDto { name: "".to_string(), question_count: 1, required_score: 1, attempt_limit: 1, url: "nope".to_string() };
    assert_eq!(bad.validate(), Err(vec!["name".to_string(), "url".to_string()]));
}

#[test]
fn pagination_defaults_and_caps() {
    let d = PaginationParams::default();
    assert_eq!(d.offset(), 0);
    assert_eq!(d.limit(), 20);
    let p = PaginationParams { offset: None, limit: Some(500) };
    assert_eq!(p.limit(), 100);
    assert_eq!(p.offset(), 0);
    assert_eq!(p.validate(), Err(vec!["limit".to_string()]));
    let q = PaginationParams { offset: Some(-1), limit: None };
    assert_eq!(q.validate(), Err(vec!["offset".to_string()]));
}

#[test]
fn i16_parsing_follows_std() {
    for s in ["0", "12", "-32768", "32767", "+5", "007", "-0", "x", "", "+", "-", "32768", "-32769", "1x", "99999x", " 1"] {
        let expected = s.parse::<i16>();
        let got = parse_i16(s);
        match (expected, got) {
            (Ok(a), Ok(b)) => assert_eq!(a, b, "{}", s),
            (Err(e), Err(k)) => {
                let msg = match k {
                    IntErrorKind::Empty => "cannot parse integer from empty string",
                    IntErrorKind::InvalidDigit => "invalid digit found in string",
                    IntErrorKind::PosOverflow => "number too large to fit in target type",
                    IntErrorKind::NegOverflow => "number too small to fit in target type",
                };
                assert_eq!(e.to_string(), msg, "{}", s);
            }
            (a, b) => panic!("{}: {:?} vs {:?}", s, a, b),
        }
    }
}

#[test]
fn required_numbers_report_their_field() {
    assert_eq!(parse_i16_required(" 42 ", "order").unwrap(), 42);
    match parse_i16_required("  ", "order") {
        Err(AppError::ValidationError(m)) => assert_eq!(m, "order is required"),
        other => panic!("unexpected {:?}", other),
    }
    match parse_i16_required("4x", "order") {
        Err(AppError::ValidationError(m)) => assert_eq!(m, "Invalid order: invalid digit found in string"),
        other => panic!("unexpected {:?}", other),
    }
}

#[test]
fn names_of_statuses_and_types() {
    assert_eq!(parse_quiz_status(" Ready ").unwrap(), QuizStatus::Ready);
    assert!(matches!(parse_quiz_status("done"), Err(AppError::ValidationError(m)) if m == "Invalid status: done"));
    assert_eq!(parse_question_type("BOOLEAN").unwrap(), QuizQuestionType::Bool);
    assert_eq!(parse_question_type("multi").unwrap(), QuizQuestionType::Multi);
    assert!(parse_question_type("many").is_err());
}

#[test]
fn datetimes_are_optional_and_rfc3339() {
    assert_eq!(parse_optional_datetime("  ").unwrap(), None);
    assert_eq!(parse_optional_datetime("1970-01-01T00:00:01Z").unwrap(), Some(1_000_000));
    assert!(matches!(parse_optional_datetime("yesterday"), Err(AppError::ValidationError(m)) if m.starts_with("Invalid datetime: ")));
}

fn option(id: &str, correct: bool) -> QuizQuestionOption {
    QuizQuestionOption {
        id: id.to_string(),
        text: format!("Option \"{}\"\n", id),
        correct,
        explanation: "because\\".to_string(),
    }
}

#[test]
fn options_json_matches_serde_json() {
    let opts = vec![option("a", true), option("b", false)];
    let text = options_to_json(&opts);
    let expected = r#"[{"id":"a","text":"Option \"a\"\n","correct":true,"explanation":"because\\"},{"id":"b","text":"Option \"b\"\n","correct":false,"explanation":"because\\"}]"#;
    assert_eq!(text, expected);
    assert_eq!(options_to_json(&vec![]), "[]");
    let back = parse_options_json(&text).unwrap();
    assert_eq!(back, opts);
}

#[test]
fn options_json_is_repaired_and_defaults_applied() {
    let opts = parse_options_json(r#"[{"id":"1","text":"one"}"#).unwrap();
    assert_eq!(opts.len(), 1);
    assert!(!opts[0].correct);
    assert_eq!(opts[0].explanation, "No explanation provided.");
    let listed = parse_options_json(r#"{"id":"1","text":"one","correct":true},{"id":"2","text":"two"}"#).unwrap();
    assert_eq!(listed.len(), 2);
    assert!(listed[0].correct);
    assert!(matches!(parse_options_json(r#"{"id":"1","text":"one"}"#), Err(AppError::ValidationError(m)) if m == "Options JSON must be an array"));
    assert!(matches!(parse_options_json(" "), Err(AppError::ValidationError(m)) if m == "Options JSON cannot be empty"));
    assert!(matches!(parse_options_json("{}x"), Err(AppError::ValidationError(m)) if m.starts_with("Invalid options JSON: ")));
    assert!(matches!(parse_options_json("3"), Err(AppError::ValidationError(m)) if m == "Options JSON must be an array"));
    assert!(matches!(parse_options_json("[1]"), Err(AppError::ValidationError(m)) if m == "Option at index 0 must be an object"));
    assert!(matches!(parse_options_json(r#"[{"id":"1","text":"t"},{"text":"t"}]"#), Err(AppError::ValidationError(m)) if m == "Option 1 missing id"));
    assert!(matches!(parse_options_json(r#"[{"id":"1"}]"#), Err(AppError::ValidationError(m)) if m == "Option 0 missing text"));
}

fn question(id: &str) -> QuizQuestion {
    QuizQuestion {
        id: id.to_string(),
        title: "T".to_string(),
        description: "D".to_string(),
        question_type: QuizQuestionType::Single,
        options: vec![option("a", true), option("b", false)],
        option_count: 2,
        order: 1,
        attempt_limit: 3,
        topic: "rust".to_string(),
        created_at: Some(1_000_000),
        modified_at: None,
    }
}

#[test]
fn test_quiz_dto_conversion() {
    let quiz = Quiz::test_quiz_with_title("Test Quiz", "user123", "Quiz Title", "Quiz Description");

    let dto = QuizDto::from(quiz.clone());
    assert_eq!(dto.name, quiz.name);
    assert_eq!(dto.created_by_user_id, quiz.created_by_user_id);
    assert_eq!(dto.title, "Quiz Title");
    assert_eq!(dto.description, "Quiz Description");

    let back_to_quiz: Quiz = Quiz::try_from(dto).unwrap();
    assert_eq!(back_to_quiz.name, quiz.name);
}

#[test]
fn quiz_text_form_round_trips() {
    let mut quiz = Quiz::test_quiz("Q", "u");
    quiz.questions = Some(vec![question("q1")]);
    quiz.created_at = Some(2_000_000);
    quiz.modified_at = Some(3_000_000);
    let dto = QuizDto::from_quiz_at(quiz, 5_000_000);
    assert_eq!(dto.questions[0].modified_at, 5_000_000);
    let text = QuizRequestDto::from(dto);
    assert_eq!(text.status, "draft");
    assert_eq!(text.question_count, "5");
    assert_eq!(text.questions[0].question_type, "Single");
    assert_eq!(text.created_at, "1970-01-01T00:00:02+00:00");
    let back = QuizDto::try_from_request_at(text, 9).unwrap();
    assert_eq!(back.created_at, 2_000_000);
    assert_eq!(back.questions[0].options.len(), 2);
    assert_eq!(back.questions[0].created_at, 1_000_000);
}

#[test]
fn question_text_form_reports_first_bad_field() {
    let mut text = QuizQuestionRequestDto::from(QuizQuestionDto::from_question_at(question("q"), 0));
    text.order = "many".to_string();
    text.question_type = "odd".to_string();
    match QuizQuestionDto::try_from_request_at(text, 0) {
        Err(AppError::ValidationError(m)) => assert_eq!(m, "Invalid question_type: odd"),
        other => panic!("unexpected {:?}", other),
    }
}

#[test]
fn quiz_for_taking_hides_answers() {
    let mut quiz = Quiz::test_quiz("Q", "u");
    quiz.questions = Some(vec![question("q1")]);
    let t = QuizForTaking::from_quiz(quiz);
    let qs = t.questions.unwrap();
    assert_eq!(qs[0].options.len(), 2);
    assert_eq!(qs[0].options[0].id, "a");
    assert_eq!(qs[0].options[1].text, "Option \"b\"\n");
}

#[test]
fn test_user_dto_full_name() {
    let user = User {
        id: None,
        first_name: "John".to_string(),
        last_name: "Doe".to_string(),
        username: "johndoe".to_string(),
        email: "john@example.com".to_string(),
        github_id: None,
        role: UserRole::default(),
        created_at: Some(1),
    };
    let dto = UserDto::from(user);
    assert_eq!(dto.full_name, "John Doe");
    assert_eq!(dto.username, "johndoe");
}
