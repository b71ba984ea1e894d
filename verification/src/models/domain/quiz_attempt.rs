use vstd::prelude::*;

use crate::text::strings_model;

verus! {

/// One graded answer of an attempt.
#[derive(Clone, Debug, PartialEq, Eq)]
pub struct QuizAttemptQuestion {
    pub id: String,
    pub quiz_question_id: String,
    pub selected_option_ids: Vec<String>,
    pub is_correct: bool,
    pub points_earned: i16,
}

/// The mathematical content of a graded answer.
pub struct AttemptQuestionModel {
    pub id: Seq<char>,
    pub quiz_question_id: Seq<char>,
    pub selected_option_ids: Seq<Seq<char>>,
    pub is_correct: bool,
    pub points_earned: i16,
}

impl View for QuizAttemptQuestion {
    type V = AttemptQuestionModel;

    open spec fn view(&self) -> AttemptQuestionModel {
        AttemptQuestionModel {
            id: self.id@,
            quiz_question_id: self.quiz_question_id@,
            selected_option_ids: strings_model(self.selected_option_ids@),
            is_correct: self.is_correct,
            points_earned: self.points_earned,
        }
    }
}

/// A submitted, graded attempt at a quiz. Timestamps are microseconds since
/// the epoch.
#[derive(Clone, Debug, PartialEq, Eq)]
pub struct QuizAttempt {
    pub id: String,
    pub user_id: String,
    pub quiz_id: String,
    pub points_earned: i16,
    pub required_score: i16,
    pub total_possible: i16,
    pub passed: bool,
    pub attempt_number: i16,
    pub question_answers: Vec<QuizAttemptQuestion>,
    pub submitted_at: i64,
    pub created_at: Option<i64>,
    pub modified_at: Option<i64>,
}

/// The models of a list of graded answers.
pub open spec fn attempt_questions_model(v: Seq<QuizAttemptQuestion>) -> Seq<AttemptQuestionModel> {
    v.map_values(|q: QuizAttemptQuestion| q@)
}

} // verus!
