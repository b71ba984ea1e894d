//! Quizzes and questions as they travel between the service and its
//! clients: every timestamp set, and the text forms with every value
//! written out.

use vstd::prelude::*;

use crate::clock::now_micros;
use crate::errors::{AppError, AppResult};
use crate::models::domain::quiz::{Quiz, QuizModel, QuizStatus};
use crate::models::domain::quiz_question::{
    copy_options, options_model, OptionModel, QuestionModel, QuizQuestion, QuizQuestionOption, QuizQuestionType,
};
use crate::models::dto::request::{
    datetime_result, format_rfc3339, i16_field_result, options_json, options_result, options_to_json,
    parse_i16_required, parse_optional_datetime, parse_options_json, parse_question_type, parse_quiz_status,
    question_type_result, rfc3339_text, status_result, QuizQuestionRequestDto, QuizRequestDto,
};
use crate::text::{opt_string_model, owned, signed_decimal, signed_decimal_string, strings_model};

verus! {

/// A question with both timestamps set (microseconds since the epoch).
#[derive(Debug)]
pub struct QuizQuestionDto {
    pub id: String,
    pub title: String,
    pub description: String,
    pub question_type: QuizQuestionType,
    pub options: Vec<QuizQuestionOption>,
    pub option_count: i16,
    pub order: i16,
    pub attempt_limit: i16,
    pub topic: String,
    pub created_at: i64,
    pub modified_at: i64,
}

/// The mathematical content of a question transfer object.
pub struct QuestionDtoModel {
    pub id: Seq<char>,
    pub title: Seq<char>,
    pub description: Seq<char>,
    pub question_type: QuizQuestionType,
    pub options: Seq<OptionModel>,
    pub option_count: i16,
    pub order: i16,
    pub attempt_limit: i16,
    pub topic: Seq<char>,
    pub created_at: i64,
    pub modified_at: i64,
}

impl View for QuizQuestionDto {
    type V = QuestionDtoModel;

    open spec fn view(&self) -> QuestionDtoModel {
        QuestionDtoModel {
            id: self.id@,
            title: self.title@,
            description: self.description@,
            question_type: self.question_type,
            options: options_model(self.options@),
            option_count: self.option_count,
            order: self.order,
            attempt_limit: self.attempt_limit,
            topic: self.topic@,
            created_at: self.created_at,
            modified_at: self.modified_at,
        }
    }
}

/// The models of a list of question transfer objects.
pub open spec fn question_dtos_model(v: Seq<QuizQuestionDto>) -> Seq<QuestionDtoModel> {
    v.map_values(|q: QuizQuestionDto| q@)
}

/// A quiz with every question and both timestamps set.
#[derive(Debug)]
pub struct QuizDto {
    pub id: String,
    pub name: String,
    pub created_by_user_id: String,
    pub title: String,
    pub description: String,
    pub question_count: i16,
    pub required_score: i16,
    pub attempt_limit: i16,
    pub topic: String,
    pub status: QuizStatus,
    pub questions: Vec<QuizQuestionDto>,
    pub url: String,
    pub created_at: i64,
    pub modified_at: i64,
}

/// The mathematical content of a quiz transfer object.
pub struct QuizDtoModel {
    pub id: Seq<char>,
    pub name: Seq<char>,
    pub created_by_user_id: Seq<char>,
    pub title: Seq<char>,
    pub description: Seq<char>,
    pub question_count: i16,
    pub required_score: i16,
    pub attempt_limit: i16,
    pub topic: Seq<char>,
    pub status: QuizStatus,
    pub questions: Seq<QuestionDtoModel>,
    pub url: Seq<char>,
    pub created_at: i64,
    pub modified_at: i64,
}

impl View for QuizDto {
    type V = QuizDtoModel;

    open spec fn view(&self) -> QuizDtoModel {
        QuizDtoModel {
            id: self.id@,
            name: self.name@,
            created_by_user_id: self.created_by_user_id@,
            title: self.title@,
            description: self.description@,
            question_count: self.question_count,
            required_score: self.required_score,
            attempt_limit: self.attempt_limit,
            topic: self.topic@,
            status: self.status,
            questions: question_dtos_model(self.questions@),
            url: self.url@,
            created_at: self.created_at,
            modified_at: self.modified_at,
        }
    }
}

/// The transfer form of a question, a missing timestamp taken as `now`.
pub open spec fn question_dto_of(q: QuestionModel, now: i64) -> QuestionDtoModel {
    QuestionDtoModel {
        id: q.id,
        title: q.title,
        description: q.description,
        question_type: q.question_type,
        options: q.options,
        option_count: q.option_count,
        order: q.order,
        attempt_limit: q.attempt_limit,
        topic: q.topic,
        created_at: match q.created_at {
            Some(t) => t,
            None => now,
        },
        modified_at: match q.modified_at {
            Some(t) => t,
            None => now,
        },
    }
}

/// The question of a transfer form.
pub open spec fn question_of_dto(d: QuestionDtoModel) -> QuestionModel {
    QuestionModel {
        id: d.id,
        title: d.title,
        description: d.description,
        question_type: d.question_type,
        options: d.options,
        option_count: d.option_count,
        order: d.order,
        attempt_limit: d.attempt_limit,
        topic: d.topic,
        created_at: Some(d.created_at),
        modified_at: Some(d.modified_at),
    }
}

/// The text of an optional string, empty when absent.
pub open spec fn or_empty(s: Option<Seq<char>>) -> Seq<char> {
    match s {
        Some(v) => v,
        None => seq![],
    }
}

/// The transfer form of a quiz: missing texts empty, missing questions
/// none, missing timestamps `now`.
pub open spec fn quiz_dto_of(q: QuizModel, now: i64) -> QuizDtoModel {
    QuizDtoModel {
        id: q.id,
        name: q.name,
        created_by_user_id: q.created_by_user_id,
        title: or_empty(q.title),
        description: or_empty(q.description),
        question_count: q.question_count,
        required_score: q.required_score,
        attempt_limit: q.attempt_limit,
        topic: or_empty(q.topic),
        status: q.status,
        questions: match q.questions {
            Some(qs) => Seq::new(qs.len(), |i: int| question_dto_of(qs[i], now)),
            None => seq![],
        },
        url: q.url,
        created_at: match q.created_at {
            Some(t) => t,
            None => now,
        },
        modified_at: match q.modified_at {
            Some(t) => t,
            None => now,
        },
    }
}

/// The quiz of a transfer form: texts present, no questions when the list
/// is empty.
pub open spec fn quiz_of_dto(d: QuizDtoModel) -> QuizModel {
    QuizModel {
        id: d.id,
        name: d.name,
        created_by_user_id: d.created_by_user_id,
        title: Some(d.title),
        description: Some(d.description),
        question_count: d.question_count,
        required_score: d.required_score,
        attempt_limit: d.attempt_limit,
        topic: Some(d.topic),
        status: d.status,
        questions: if d.questions.len() == 0 {
            None
        } else {
            Some(Seq::new(d.questions.len(), |i: int| question_of_dto(d.questions[i])))
        },
        url: d.url,
        created_at: Some(d.created_at),
        modified_at: Some(d.modified_at),
    }
}

impl QuizQuestionDto {
    /// The transfer form of a question, a missing timestamp taken as
    /// `now`.
    pub fn from_question_at(question: QuizQuestion, now: i64) -> (d: Self)
        ensures
            d@ == question_dto_of(question@, now),
    {
        QuizQuestionDto {
            id: question.id,
            title: question.title,
            description: question.description,
            question_type: question.question_type,
            options: question.options,
            option_count: question.option_count,
            order: question.order,
            attempt_limit: question.attempt_limit,
            topic: question.topic,
            created_at: match question.created_at {
                Some(t) => t,
                None => now,
            },
            modified_at: match question.modified_at {
                Some(t) => t,
                None => now,
            },
        }
    }

    /// The transfer form of a question, a missing timestamp taken as the
    /// current time.
    pub fn from(question: QuizQuestion) -> (d: Self)
        ensures
            exists|now: i64| d@ == question_dto_of(question@, now),
    {
        let now = now_micros();
        QuizQuestionDto::from_question_at(question, now)
    }
}

impl QuizQuestion {
    /// The question of a transfer form; this never fails.
    pub fn try_from(dto: QuizQuestionDto) -> (r: AppResult<QuizQuestion>)
        ensures
            r matches Ok(q) && q@ == question_of_dto(dto@),
    {
        Ok(
            QuizQuestion {
                id: dto.id,
                title: dto.title,
                description: dto.description,
                question_type: dto.question_type,
                options: dto.options,
                option_count: dto.option_count,
                order: dto.order,
                attempt_limit: dto.attempt_limit,
                topic: dto.topic,
                created_at: Some(dto.created_at),
                modified_at: Some(dto.modified_at),
            },
        )
    }
}

fn or_empty_string(s: Option<String>) -> (r: String)
    ensures
        r@ == or_empty(opt_string_model(s)),
{
    match s {
        Some(v) => v,
        None => String::new(),
    }
}

impl QuizDto {
    /// The transfer form of a quiz: missing texts empty, missing questions
    /// none, missing timestamps `now`.
    pub fn from_quiz_at(quiz: Quiz, now: i64) -> (d: Self)
        ensures
            d@ == quiz_dto_of(quiz@, now),
    {
        let ghost qm = quiz@;
        let mut questions: Vec<QuizQuestionDto> = Vec::new();
        match quiz.questions {
            Some(qs) => {
                let ghost all = qs@;
                let mut k: usize = 0;
                let mut it = qs;
                let _total = it.len();
                while it.len() > 0
                    invariant
                        k + it@.len() == all.len(),
                        all.len() <= usize::MAX,
                        it@ == all.skip(k as int),
                        questions@.len() == k,
                        forall|j: int| 0 <= j < k ==> (#[trigger] questions@[j])@ == question_dto_of(all[j]@, now),
                    decreases it.len(),
                {
                    let q = it.remove(0);
                    assert(q == all[k as int]);
                    questions.push(QuizQuestionDto::from_question_at(q, now));
                    k += 1;
                    assert(it@ =~= all.skip(k as int));
                }
                assert(question_dtos_model(questions@) =~= quiz_dto_of(qm, now).questions);
            },
            None => {
                assert(question_dtos_model(questions@) =~= quiz_dto_of(qm, now).questions);
            },
        }
        QuizDto {
            id: quiz.id,
            name: quiz.name,
            created_by_user_id: quiz.created_by_user_id,
            title: or_empty_string(quiz.title),
            description: or_empty_string(quiz.description),
            question_count: quiz.question_count,
            required_score: quiz.required_score,
            attempt_limit: quiz.attempt_limit,
            topic: or_empty_string(quiz.topic),
            status: quiz.status,
            questions,
            url: quiz.url,
            created_at: match quiz.created_at {
                Some(t) => t,
                None => now,
            },
            modified_at: match quiz.modified_at {
                Some(t) => t,
                None => now,
            },
        }
    }

    /// The transfer form of a quiz, missing timestamps taken as the
    /// current time.
    pub fn from(quiz: Quiz) -> (d: Self)
        ensures
            exists|now: i64| d@ == quiz_dto_of(quiz@, now),
    {
        let now = now_micros();
        QuizDto::from_quiz_at(quiz, now)
    }
}

impl Quiz {
    /// The quiz of a transfer form; this never fails.
    pub fn try_from(dto: QuizDto) -> (r: AppResult<Quiz>)
        ensures
            r matches Ok(q) && q@ == quiz_of_dto(dto@),
    {
        let ghost dm = dto@;
        let questions = if dto.questions.len() == 0 {
            None
        } else {
            let ghost all = dto.questions@;
            let mut out: Vec<QuizQuestion> = Vec::new();
            let mut it = dto.questions;
            let _total = it.len();
            let mut k: usize = 0;
            while it.len() > 0
                invariant
                    k + it@.len() == all.len(),
                    all.len() <= usize::MAX,
                    it@ == all.skip(k as int),
                    out@.len() == k,
                    forall|j: int| 0 <= j < k ==> (#[trigger] out@[j])@ == question_of_dto(all[j]@),
                decreases it.len(),
            {
                let q = it.remove(0);
                assert(q == all[k as int]);
                match QuizQuestion::try_from(q) {
                    Ok(x) => {
                        out.push(x);
                    },
                    Err(_) => {},
                }
                k += 1;
                assert(it@ =~= all.skip(k as int));
            }
            Some(out)
        };
        let quiz = Quiz {
            id: dto.id,
            name: dto.name,
            created_by_user_id: dto.created_by_user_id,
            title: Some(dto.title),
            description: Some(dto.description),
            question_count: dto.question_count,
            required_score: dto.required_score,
            attempt_limit: dto.attempt_limit,
            topic: Some(dto.topic),
            status: dto.status,
            questions,
            url: dto.url,
            created_at: Some(dto.created_at),
            modified_at: Some(dto.modified_at),
        };
        assert(quiz@.questions =~= quiz_of_dto(dm).questions) by {
            match quiz@.questions {
                Some(qs) => {
                    assert(qs =~= quiz_of_dto(dm).questions->Some_0);
                },
                None => {},
            }
        }
        Ok(quiz)
    }
}

/// A transfer form read back into a quiz and written out again is the
/// same transfer form, whatever time is taken as now.
pub proof fn lemma_transfer_form_round_trip(d: QuizDtoModel, now: i64)
    ensures
        quiz_dto_of(quiz_of_dto(d), now) == d,
{
    let back = quiz_dto_of(quiz_of_dto(d), now);
    assert forall|i: int| 0 <= i < d.questions.len() implies #[trigger] back.questions[i] == d.questions[i] by {
        assert(question_dto_of(question_of_dto(d.questions[i]), now) == d.questions[i]);
    }
    assert(back.questions =~= d.questions);
}

/// A quiz written out as a transfer form and read back is the same quiz,
/// for every quiz whose texts and timestamps are all set and whose
/// question list, if any, is not empty: a missing text comes back empty,
/// a missing timestamp as the time of writing, and an empty list as none.
pub proof fn lemma_quiz_round_trip(q: QuizModel, now: i64)
    requires
        q.title is Some,
        q.description is Some,
        q.topic is Some,
        q.created_at is Some,
        q.modified_at is Some,
        q.questions matches Some(qs) ==> qs.len() > 0 && forall|i: int| 0 <= i < qs.len()
            ==> (#[trigger] qs[i]).created_at is Some && qs[i].modified_at is Some,
    ensures
        quiz_of_dto(quiz_dto_of(q, now)) == q,
{
    let back = quiz_of_dto(quiz_dto_of(q, now));
    match q.questions {
        Some(qs) => {
            let bqs = back.questions->0;
            assert forall|i: int| 0 <= i < qs.len() implies #[trigger] bqs[i] == qs[i] by {
                assert(question_of_dto(question_dto_of(qs[i], now)) == qs[i]);
            }
            assert(bqs =~= qs);
        },
        None => {},
    }
}

} // verus!
