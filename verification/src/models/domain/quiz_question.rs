use vstd::prelude::*;

use crate::text::copy_string;

verus! {

/// How a question is answered.
#[derive(Clone, Copy, Debug, PartialEq, Eq, Structural)]
pub enum QuizQuestionType {
    /// Exactly one option is correct.
    Single,
    /// Several options may be correct.
    Multi,
    /// A true/false question.
    Bool,
}

/// One selectable answer of a question, with the explanation shown after
/// grading.
#[derive(Clone, Debug, PartialEq, Eq)]
pub struct QuizQuestionOption {
    pub id: String,
    pub text: String,
    pub correct: bool,
    pub explanation: String,
}

/// The mathematical content of an option.
pub struct OptionModel {
    pub id: Seq<char>,
    pub text: Seq<char>,
    pub correct: bool,
    pub explanation: Seq<char>,
}

impl View for QuizQuestionOption {
    type V = OptionModel;

    open spec fn view(&self) -> OptionModel {
        OptionModel { id: self.id@, text: self.text@, correct: self.correct, explanation: self.explanation@ }
    }
}

/// A quiz question. Timestamps are microseconds since the epoch.
#[derive(Clone, Debug, PartialEq, Eq)]
pub struct QuizQuestion {
    pub id: String,
    pub title: String,
    pub description: String,
    pub question_type: QuizQuestionType,
    pub options: Vec<QuizQuestionOption>,
    pub option_count: i16,
    pub order: i16,
    pub attempt_limit: i16,
    pub topic: String,
    pub created_at: Option<i64>,
    pub modified_at: Option<i64>,
}

/// The mathematical content of a question.
pub struct QuestionModel {
    pub id: Seq<char>,
    pub title: Seq<char>,
    pub description: Seq<char>,
    pub question_type: QuizQuestionType,
    pub options: Seq<OptionModel>,
    pub option_count: i16,
    pub order: i16,
    pub attempt_limit: i16,
    pub topic: Seq<char>,
    pub created_at: Option<i64>,
    pub modified_at: Option<i64>,
}

/// The models of a list of options.
pub open spec fn options_model(options: Seq<QuizQuestionOption>) -> Seq<OptionModel> {
    options.map_values(|o: QuizQuestionOption| o@)
}

impl View for QuizQuestion {
    type V = QuestionModel;

    open spec fn view(&self) -> QuestionModel {
        QuestionModel {
            id: self.id@,
            title: self.title@,
            description: self.description@,
            question_type: self.question_type,
            options: options_model(self.options@),
            option_count: self.option_count,
            order: self.order,
            attempt_limit: self.attempt_limit,
            topic: self.topic@,
            created_at: self.created_at,
            modified_at: self.modified_at,
        }
    }
}

/// The models of a list of questions.
pub open spec fn questions_model(questions: Seq<QuizQuestion>) -> Seq<QuestionModel> {
    questions.map_values(|q: QuizQuestion| q@)
}

impl QuizQuestionOption {
    /// An identical, independent copy.
    pub fn copied(&self) -> (r: Self)
        ensures
            r@ == self@,
    {
        QuizQuestionOption {
            id: copy_string(&self.id),
            text: copy_string(&self.text),
            correct: self.correct,
            explanation: copy_string(&self.explanation),
        }
    }
}

/// An identical, independent copy of a list of options.
pub fn copy_options(options: &Vec<QuizQuestionOption>) -> (r: Vec<QuizQuestionOption>)
    ensures
        options_model(r@) == options_model(options@),
{
    let mut r: Vec<QuizQuestionOption> = Vec::new();
    for i in 0..options.len()
        invariant
            r@.len() == i,
            forall|j: int| 0 <= j < i ==> #[trigger] r@[j]@ == options@[j]@,
    {
        r.push(options[i].copied());
    }
    assert(options_model(r@) =~= options_model(options@));
    r
}

impl QuizQuestion {
    /// An identical, independent copy.
    pub fn copied(&self) -> (r: Self)
        ensures
            r@ == self@,
    {
        QuizQuestion {
            id: copy_string(&self.id),
            title: copy_string(&self.title),
            description: copy_string(&self.description),
            question_type: self.question_type,
            options: copy_options(&self.options),
            option_count: self.option_count,
            order: self.order,
            attempt_limit: self.attempt_limit,
            topic: copy_string(&self.topic),
            created_at: self.created_at,
            modified_at: self.modified_at,
        }
    }
}

} // verus!
