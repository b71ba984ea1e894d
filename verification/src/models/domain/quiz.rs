use vstd::prelude::*;

use crate::clock::{new_uuid, now_micros};
use crate::models::domain::quiz_question::{QuestionModel, QuizQuestion, questions_model};
use crate::text::{opt_string_model, owned};

verus! {

/// Where a quiz is in its life: drafted, being generated, ready to take, or
/// complete.
#[derive(Clone, Copy, Debug, PartialEq, Eq, Structural)]
pub enum QuizStatus {
    Draft,
    Pending,
    Ready,
    Complete,
}

/// A quiz. Timestamps are microseconds since the epoch.
#[derive(Clone, Debug, PartialEq, Eq)]
pub struct Quiz {
    pub id: String,
    pub name: String,
    pub created_by_user_id: String,
    pub title: Option<String>,
    pub description: Option<String>,
    pub question_count: i16,
    pub required_score: i16,
    pub attempt_limit: i16,
    pub topic: Option<String>,
    pub status: QuizStatus,
    pub questions: Option<Vec<QuizQuestion>>,
    pub url: String,
    pub created_at: Option<i64>,
    pub modified_at: Option<i64>,
}

/// The mathematical content of a quiz.
pub struct QuizModel {
    pub id: Seq<char>,
    pub name: Seq<char>,
    pub created_by_user_id: Seq<char>,
    pub title: Option<Seq<char>>,
    pub description: Option<Seq<char>>,
    pub question_count: i16,
    pub required_score: i16,
    pub attempt_limit: i16,
    pub topic: Option<Seq<char>>,
    pub status: QuizStatus,
    pub questions: Option<Seq<QuestionModel>>,
    pub url: Seq<char>,
    pub created_at: Option<i64>,
    pub modified_at: Option<i64>,
}

/// The models of an optional list of questions.
pub open spec fn opt_questions_model(q: Option<Vec<QuizQuestion>>) -> Option<Seq<QuestionModel>> {
    match q {
        Some(v) => Some(questions_model(v@)),
        None => None,
    }
}

impl View for Quiz {
    type V = QuizModel;

    open spec fn view(&self) -> QuizModel {
        QuizModel {
            id: self.id@,
            name: self.name@,
            created_by_user_id: self.created_by_user_id@,
            title: opt_string_model(self.title),
            description: opt_string_model(self.description),
            question_count: self.question_count,
            required_score: self.required_score,
            attempt_limit: self.attempt_limit,
            topic: opt_string_model(self.topic),
            status: self.status,
            questions: opt_questions_model(self.questions),
            url: self.url@,
            created_at: self.created_at,
            modified_at: self.modified_at,
        }
    }
}

impl Quiz {
    /// A new draft: a fresh random id, the given settings, no title,
    /// description, topic or questions yet, stamped with the current time.
    pub fn new_draft(
        name: &str,
        created_by_user_id: &str,
        question_count: i16,
        required_score: i16,
        attempt_limit: i16,
        url: &str,
    ) -> (q: Self)
        ensures
            crate::clock::uuid_v4_text(q.id@),
            q.name@ == name@,
            q.created_by_user_id@ == created_by_user_id@,
            q.title is None,
            q.description is None,
            q.question_count == question_count,
            q.required_score == required_score,
            q.attempt_limit == attempt_limit,
            q.topic is None,
            q.status == QuizStatus::Draft,
            q.questions is None,
            q.url@ == url@,
            q.created_at is Some,
            q.modified_at is Some,
    {
        Quiz {
            id: new_uuid(),
            name: owned(name),
            created_by_user_id: owned(created_by_user_id),
            title: None,
            description: None,
            question_count,
            required_score,
            attempt_limit,
            topic: None,
            status: QuizStatus::Draft,
            questions: None,
            url: owned(url),
            created_at: Some(now_micros()),
            modified_at: Some(now_micros()),
        }
    }

    /// A draft with the sample settings: five questions, a required score of
    /// 70, three attempts, sourced from `https://example.com`.
    pub fn test_quiz(name: &str, user_id: &str) -> (q: Self)
        ensures
            q.name@ == name@,
            q.created_by_user_id@ == user_id@,
            q.question_count == 5,
            q.required_score == 70,
            q.attempt_limit == 3,
            q.status == QuizStatus::Draft,
            q.title is None,
            q.description is None,
            q.questions is None,
            q.url@ == "https://example.com"@,
    {
        proof { reveal_strlit("https://example.com"); }
        Quiz::new_draft(name, user_id, 5, 70, 3, "https://example.com")
    }

    /// A sample draft as [`Quiz::test_quiz`] makes, with a title and a
    /// description.
    pub fn test_quiz_with_title(name: &str, user_id: &str, title: &str, description: &str) -> (q: Self)
        ensures
            q.name@ == name@,
            q.created_by_user_id@ == user_id@,
            q.question_count == 5,
            q.required_score == 70,
            q.attempt_limit == 3,
            q.status == QuizStatus::Draft,
            opt_string_model(q.title) == Some(title@),
            opt_string_model(q.description) == Some(description@),
            q.questions is None,
            q.url@ == "https://example.com"@,
    {
        proof { reveal_strlit("https://example.com"); }
        let mut quiz = Quiz::new_draft(name, user_id, 5, 70, 3, "https://example.com");
        quiz.title = Some(owned(title));
        quiz.description = Some(owned(description));
        quiz
    }
}

} // verus!
