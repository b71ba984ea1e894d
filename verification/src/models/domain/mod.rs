pub mod quiz;
pub mod quiz_attempt;
pub mod quiz_question;
pub mod refresh_token;
pub mod summary_document;
pub mod user;

pub use quiz::{Quiz, QuizStatus};
pub use quiz_attempt::{QuizAttempt, QuizAttemptQuestion};
pub use quiz_question::{QuizQuestion, QuizQuestionOption, QuizQuestionType};
pub use user::User;
pub use refresh_token::{hash_token, RefreshToken};
pub use summary_document::SummaryDocument;
