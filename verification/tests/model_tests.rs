use tento_server::graphql::helpers::{is_quiz_available_for_taking, parse_id, validate_quiz_available_for_taking};
use tento_server::models::domain::quiz::{Quiz, QuizStatus};
use tento_server::models::domain::refresh_token::{hash_token, RefreshToken};
use tento_server::models::domain::user::User;
use tento_server::models::user_model;
use tento_server::services::content_extractor::{
    ContentChunk, ContentExtractor, ContentMetadata, ContentStatus, ExtractedContent, HeadingContent,
    HeadingSection, TableContent,
};
use tento_server::html::HtmlNode;
use tento_server::services::page_structure::{raw_headings, raw_sections, raw_tables};
use tento_server::test_utils::{test_user, test_user_with_username, test_users};

fn now_micros() -> i64 {
    chrono::Utc::now().timestamp_micros()
}

#[test]
fn new_draft_initializes_expected_defaults() {
    let quiz = Quiz::new_draft("Rust Basics", "user-1", 10, 80, 2, "https://example.com/rust");

    assert_eq!(quiz.name, "Rust Basics");
    assert_eq!(quiz.created_by_user_id, "user-1");
    assert_eq!(quiz.question_count, 10);
    assert_eq!(quiz.required_score, 80);
    assert_eq!(quiz.attempt_limit, 2);
    assert_eq!(quiz.status, QuizStatus::Draft);
    assert!(quiz.title.is_none());
    assert!(quiz.description.is_none());
    assert!(quiz.questions.is_none());
    assert!(quiz.created_at.is_some());
    assert!(quiz.modified_at.is_some());
}

#[test]
fn test_quiz_with_title_sets_title_and_description() {
    let quiz = Quiz::test_quiz_with_title("Name", "user-1", "Title", "Description");

    assert_eq!(quiz.title.as_deref(), Some("Title"));
    assert_eq!(quiz.description.as_deref(), Some("Description"));
}

#[test]
fn test_quiz_default_values() {
    let quiz = Quiz::test_quiz("Default Quiz", "user1");

    assert_eq!(quiz.status, QuizStatus::Draft);
    assert_eq!(quiz.question_count, 5);
    assert_eq!(quiz.required_score, 70);
    assert_eq!(quiz.attempt_limit, 3);
    assert!(quiz.title.is_none());
    assert!(quiz.questions.is_none());
}

#[test]
fn test_quiz_id_format() {
    let quiz = Quiz::test_quiz("ID Test", "user1");
    let parts: Vec<&str> = quiz.id.split('-').collect();
    assert_eq!(parts.iter().map(|p| p.len()).collect::<Vec<_>>(), vec![8, 4, 4, 4, 12]);
    assert!(quiz.id.chars().all(|c| c == '-' || c.is_ascii_digit() || ('a'..='f').contains(&c)));
    assert!(parts[2].starts_with('4'));
    assert!(matches!(parts[3].chars().next(), Some('8' | '9' | 'a' | 'b')));
}

#[test]
fn test_refresh_token_creation() {
    let expires_at = now_micros() + 7 * 24 * 3600 * 1_000_000;
    let token = RefreshToken::new("user123".to_string(), "hash123".to_string(), expires_at);

    assert_eq!(token.user_id, "user123");
    assert_eq!(token.token_hash, "hash123");
    assert!(!token.revoked);
    assert!(token.is_valid());
}

#[test]
fn test_refresh_token_expired() {
    let expires_at = now_micros() - 3600 * 1_000_000;
    let token = RefreshToken::new("user123".to_string(), "hash123".to_string(), expires_at);

    assert!(!token.is_valid());
}

#[test]
fn test_refresh_token_revoked() {
    let expires_at = now_micros() + 7 * 24 * 3600 * 1_000_000;
    let mut token = RefreshToken::new("user123".to_string(), "hash123".to_string(), expires_at);
    token.revoked = true;

    assert!(!token.is_valid());
}

#[test]
fn test_hash_token_consistency() {
    let token = "my-secret-token";
    let hash1 = hash_token(token);
    let hash2 = hash_token(token);

    assert_eq!(hash1, hash2);
    assert_eq!(hash1.len(), 64);
}

#[test]
fn test_hash_token_different_inputs() {
    let hash1 = hash_token("token1");
    let hash2 = hash_token("token2");

    assert_ne!(hash1, hash2);
}

#[test]
fn hash_token_is_sha256_hex() {
    assert_eq!(hash_token(""), "e3b0c44298fc1c149afbf4c8996fb92427ae41e4649b934ca495991b7852b855");
    assert_eq!(hash_token("abc"), "ba7816bf8f01cfea414140de5dae2223b00361a396177a9cb410ff61f20015ad");
}

#[test]
fn user_test_user_creation() {
    let user = User::new("John", "Doe", "johndoe", "john@example.com");
    assert_eq!(user.first_name, "John");
    assert_eq!(user.last_name, "Doe");
    assert_eq!(user.username, "johndoe");
    assert_eq!(user.email, "john@example.com");
    assert!(user.created_at.is_some());
}

#[test]
fn test_user_from_request() {
    let request = tento_server::models::dto::request::CreateUserRequestDto {
        first_name: "Jane".to_string(),
        last_name: "Smith".to_string(),
        username: "janesmith".to_string(),
        email: "jane@example.com".to_string(),
    };

    let user = User::from_request(request);
    assert_eq!(user.first_name, "Jane");
    assert_eq!(user.username, "janesmith");
}

#[test]
fn user_model_test_user_creation() {
    let user = user_model::User {
        first_name: "John".to_string(),
        last_name: "Doe".to_string(),
        username: "johndoe".to_string(),
        email: "john@example.com".to_string(),
    };

    assert_eq!(user.first_name, "John");
    assert_eq!(user.last_name, "Doe");
    assert_eq!(user.username, "johndoe");
    assert_eq!(user.email, "john@example.com");
}

#[test]
fn test_user_clone() {
    let user1 = user_model::User {
        first_name: "Jane".to_string(),
        last_name: "Smith".to_string(),
        username: "janesmith".to_string(),
        email: "jane@example.com".to_string(),
    };

    let user2 = user1.clone();
    assert_eq!(user1, user2);
}

#[test]
fn test_user_equality() {
    let user1 = user_model::User {
        first_name: "Test".to_string(),
        last_name: "User".to_string(),
        username: "testuser".to_string(),
        email: "test@example.com".to_string(),
    };

    let user2 = user_model::User {
        first_name: "Test".to_string(),
        last_name: "User".to_string(),
        username: "testuser".to_string(),
        email: "test@example.com".to_string(),
    };

    let user3 = user_model::User {
        first_name: "Different".to_string(),
        last_name: "User".to_string(),
        username: "different".to_string(),
        email: "different@example.com".to_string(),
    };

    assert_eq!(user1, user2);
    assert_ne!(user1, user3);
}

#[test]
fn sample_users_helpers() {
    let u = User::test_user_simple("kim");
    assert_eq!(u.email, "kim@example.com");
    let t = User::test_user("lee", "l@x.io");
    assert_eq!(t.first_name, "Test");
    assert_eq!(t.email, "l@x.io");
}

#[test]
fn test_fixtures_test_user() {
    let user = test_user();
    assert_eq!(user.username, "testuser");
    assert_eq!(user.email, "test@example.com");
}

#[test]
fn test_fixtures_test_user_with_username() {
    let user = test_user_with_username("custom");
    assert_eq!(user.username, "custom");
    assert_eq!(user.email, "custom@example.com");
}

#[test]
fn test_fixtures_test_users() {
    let users = test_users();
    assert_eq!(users.len(), 3);
    assert_eq!(users[0].username, "johndoe");
    assert_eq!(users[1].username, "janesmith");
    assert_eq!(users[2].username, "alice");
}

#[test]
fn ids_are_uuids_or_object_ids() {
    assert!(parse_id("550e8400-e29b-41d4-a716-446655440000").is_ok());
    assert!(parse_id("507f1f77bcf86cd799439011").is_ok());
    assert!(parse_id("507f1f77bcf86cd79943901").is_err());
    assert!(parse_id("zzzf1f77bcf86cd799439011").is_err());
}

#[test]
fn only_ready_or_complete_quizzes_may_be_taken() {
    assert!(is_quiz_available_for_taking(&QuizStatus::Ready));
    assert!(is_quiz_available_for_taking(&QuizStatus::Complete));
    assert!(!is_quiz_available_for_taking(&QuizStatus::Draft));
    assert!(validate_quiz_available_for_taking(&QuizStatus::Pending).is_err());
}

fn content(text: String) -> ExtractedContent {
    ExtractedContent {
        title: "Test".to_string(),
        text_content: text,
        tables: vec![],
        headings: vec![],
        metadata: ContentMetadata {
            source_url: "http://test.com".to_string(),
            extraction_timestamp: "2024-01-01T00:00:00Z".to_string(),
            content_status: ContentStatus::Complete,
            original_length: 100,
            extracted_length: 14,
        },
    }
}

#[test]
fn test_chunk_content_small() {
    let extractor = ContentExtractor::new();
    let content = content("Short content".to_string());

    let chunks = extractor.chunk_content(&content);
    assert_eq!(chunks.len(), 1);
    assert!(chunks[0].is_first);
}

#[test]
fn test_chunk_content_large() {
    let extractor = ContentExtractor::new();
    let content = content("a".repeat(6000));

    let chunks = extractor.chunk_content(&content);
    assert!(chunks.len() > 1);
}

#[test]
fn large_text_chunks_overlap_and_cover() {
    let extractor = ContentExtractor::new();
    let words = "word ".repeat(1200);
    let chunks: Vec<ContentChunk> = extractor.chunk_content(&content(words.clone()));
    assert_eq!(chunks[0].total_chunks, 3);
    assert!(chunks[0].content.starts_with("[CONTENT_START]\nTest\n[END_FIRST_CHUNK]\n"));
    assert!(chunks[1].content.starts_with("[CHUNK_1]\n"));
    assert!(chunks.iter().enumerate().all(|(i, c)| c.index == i && c.is_first == (i == 0)));
    assert!(chunks.last().unwrap().content.ends_with("word "));
}

#[test]
fn llm_text_lists_source_outline_chunks_and_tables() {
    let extractor = ContentExtractor::new();
    let mut c = content("Body".to_string());
    c.metadata.content_status = ContentStatus::Error("timeout".to_string());
    c.headings = vec![HeadingContent { level: 2, text: "Intro".to_string() }];
    c.tables = vec![TableContent {
        caption: Some("Prices".to_string()),
        headers: vec!["a".to_string(), "b".to_string()],
        rows: vec![vec!["1".to_string(), "2".to_string()]],
    }];
    let chunks = extractor.chunk_content(&c);
    let text = extractor.format_for_llm(&c, &chunks);
    let expected = "[SOURCE_URL] http://test.com\n[RETRIEVAL_TIMESTAMP] 2024-01-01T00:00:00Z\n[LIMITATIONS] timeout\n[CONTENT_STATUS] partial\n[CONTENT_LENGTH] 14 chars (original: 100)\n\n### DOCUMENT STRUCTURE\n  - Intro\n\n### CONTENT CHUNKS\nBody\n\n### TABLES\nTable 1: Prices\na | b\n--- | ---\n1 | 2\n\n";
    assert_eq!(text, expected);
}

#[test]
fn tables_and_headings_are_cleaned() {
    let extractor = ContentExtractor::new();
    let raw = vec![
        TableContent { caption: Some(" Cap ".to_string()), headers: vec![" h ".to_string()], rows: vec![vec![], vec![" x ".to_string()]] },
        TableContent { caption: None, headers: vec!["  ".to_string()], rows: vec![vec![]] },
    ];
    let tables = extractor.extract_tables(&raw);
    assert_eq!(tables.len(), 1);
    assert_eq!(tables[0].caption.as_deref(), Some("Cap"));
    assert_eq!(tables[0].headers, vec!["h".to_string()]);
    assert_eq!(tables[0].rows, vec![vec!["x".to_string()]]);
    let headings = extractor.extract_headings(&vec![
        HeadingContent { level: 1, text: " Title ".to_string() },
        HeadingContent { level: 2, text: "   ".to_string() },
    ]);
    assert_eq!(headings.len(), 1);
    assert_eq!(headings[0].text, "Title");
}

#[test]
fn structured_text_joins_sections_and_tables() {
    let extractor = ContentExtractor::new();
    let sections = vec![
        HeadingSection { level: 1, heading: " One ".to_string(), texts: vec![" a ".to_string(), "  ".to_string(), "b".to_string()] },
        HeadingSection { level: 2, heading: "Two".to_string(), texts: vec!["c".to_string()] },
    ];
    let tables = vec![TableContent { caption: Some("T".to_string()), headers: vec![], rows: vec![vec!["1".to_string()]] }];
    let text = extractor.extract_structured_text(&sections, &tables);
    assert_eq!(text, "### One\na b \n\n### Two\nc \n\n### Tables\n#### T\n1");
}

#[test]
fn short_extractions_are_partial() {
    let c = ContentExtractor::extracted_content("http://x", "T".to_string(), "short".to_string(), vec![], vec![], 10, "now".to_string());
    assert_eq!(c.metadata.extracted_length, 5);
    assert!(matches!(c.metadata.content_status, ContentStatus::Partial));
    let long = ContentExtractor::extracted_content("http://x", "T".to_string(), "é".repeat(500), vec![], vec![], 10, "now".to_string());
    assert_eq!(long.metadata.extracted_length, 1000);
    assert!(matches!(long.metadata.content_status, ContentStatus::Complete));
}

#[test]
fn test_schema_creation() {
    let _query = tento_server::graphql::schema::QueryRoot;
    let _mutation = tento_server::graphql::schema::MutationRoot;
}

#[test]
fn test_user_from_github() {
    let u = User::from_github("42".to_string(), "octo".to_string(), "octo@users.noreply.github.com".to_string(), Some("Octo Cat".to_string()));
    assert_eq!(u.github_id.as_deref(), Some("42"));
    assert_eq!(u.username, "octo");
    assert_eq!(u.first_name, "Octo Cat");
    assert_eq!(u.last_name, "");
    assert!(u.id.is_none());
    assert!(u.created_at.is_some());
    let nameless = User::from_github("7".to_string(), "anon".to_string(), "a@b.c".to_string(), None);
    assert_eq!(nameless.first_name, "");
}

#[test]
fn test_extract_html_reads_title_headings_sections_and_tables() {
    let html = "<html><head><title> My Page </title></head><body><h1>Intro</h1>Hello <b>world</b> text<h2>Part</h2>More<table><caption> Cap </caption><thead><tr><th> A </th><th>B</th></tr></thead><tbody><tr><td> 1 </td><td>2</td></tr></tbody></table></body></html>";
    let c = ContentExtractor::new().extract_html("https://example.com/page", html, "2024-01-01T00:00:00Z".to_string());
    assert_eq!(c.title, "My Page");
    assert_eq!(c.headings.len(), 2);
    assert_eq!((c.headings[0].level, c.headings[0].text.as_str()), (1, "Intro"));
    assert_eq!((c.headings[1].level, c.headings[1].text.as_str()), (2, "Part"));
    assert_eq!(c.tables.len(), 1);
    assert_eq!(c.tables[0].caption.as_deref(), Some("Cap"));
    assert_eq!(c.tables[0].headers, vec!["A".to_string(), "B".to_string()]);
    assert_eq!(c.tables[0].rows, vec![vec!["A".to_string(), "B".to_string()], vec!["1".to_string(), "2".to_string()]]);
    assert_eq!(
        c.text_content,
        "### Intro\nHello text \n\n### Part\nMore \n\n### Tables\n#### Cap\nA | B\n--- | ---\nA | B\n1 | 2"
    );
    assert_eq!(c.metadata.source_url, "https://example.com/page");
    assert_eq!(c.metadata.original_length, html.len());
    assert_eq!(c.metadata.extracted_length, c.text_content.len());
}

#[test]
fn test_page_structure_sections_stop_at_two_letter_h_tags() {
    // <html><h2>B</h2>two<h1>A</h1>one<hr>after<table><tr><td>x</td></tr></table></html>
    let page = vec![el(
        "html",
        vec![
            el("h2", vec![tx("B")]),
            tx("two"),
            el("h1", vec![tx("A")]),
            tx("one"),
            el("hr", vec![]),
            tx("after"),
            el("table", vec![el("tr", vec![el("td", vec![tx("x")])])]),
        ],
    )];
    let headings = raw_headings(&page);
    assert_eq!(headings.len(), 2);
    assert_eq!((headings[0].level, headings[0].text.as_str()), (1, "A"));
    assert_eq!((headings[1].level, headings[1].text.as_str()), (2, "B"));
    let sections = raw_sections(&page);
    assert_eq!(sections[0].texts, vec!["one".to_string()]);
    assert_eq!(sections[1].texts, vec!["two".to_string()]);
    let tables = raw_tables(&page);
    assert_eq!(tables.len(), 1);
    assert!(tables[0].headers.is_empty());
    assert_eq!(tables[0].rows, vec![vec!["x".to_string()]]);
}

fn el(name: &str, children: Vec<HtmlNode>) -> HtmlNode {
    HtmlNode::Element { name: name.to_string(), children }
}

fn tx(text: &str) -> HtmlNode {
    HtmlNode::Text(text.to_string())
}

#[test]
fn test_hash_token_is_lowercase_hex_sha256() {
    assert_eq!(hash_token("abc"), "ba7816bf8f01cfea414140de5dae2223b00361a396177a9cb410ff61f20015ad");
    assert_eq!(hash_token(""), "e3b0c44298fc1c149afbf4c8996fb92427ae41e4649b934ca495991b7852b855");
}
