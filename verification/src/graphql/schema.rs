//! The roots of the GraphQL schema, and what their resolvers decide
//! between the calls to storage.

use vstd::prelude::*;

use crate::errors::{is_bad_request, AppError, AppResult};
use crate::models::domain::quiz::Quiz;
use crate::models::domain::quiz_attempt::{QuizAttempt, QuizAttemptQuestion};
use crate::models::domain::quiz_question::questions_model;
use crate::models::dto::request::answers_model;
use crate::models::dto::response::{attempt_response_of, PaginatedQuizAttemptResponse, PaginationMetadata, QuizAttemptResponse};
use crate::services::quiz_attempt_service::{grading_outcome, QuizAttemptService};
use crate::text::{owned, str_eq};

verus! {

/// The root of the GraphQL queries: users, quizzes, attempts and summaries.
#[derive(Debug)]
pub struct QueryRoot;

/// The root of the GraphQL mutations.
#[derive(Debug)]
pub struct MutationRoot;

/// The page asked for: the offset given (never below zero, zero when
/// absent) and the limit given (between one and `max_limit`, `default_limit`
/// when absent).
pub open spec fn page_of(offset: Option<i64>, limit: Option<i64>, default_limit: i64, max_limit: i64) -> (i64, i64) {
    let o = match offset {
        Some(v) => v,
        None => 0,
    };
    let l = match limit {
        Some(v) => v,
        None => default_limit,
    };
    (if o < 0 { 0 } else { o }, if l < 1 { 1 } else if l > max_limit { max_limit } else { l })
}

/// The page a list query asks for.
pub fn page_window(offset: Option<i64>, limit: Option<i64>, default_limit: i64, max_limit: i64) -> (r: (i64, i64))
    requires
        1 <= max_limit,
    ensures
        r == page_of(offset, limit, default_limit, max_limit),
{
    let o = match offset {
        Some(v) => v,
        None => 0,
    };
    let l = match limit {
        Some(v) => v,
        None => default_limit,
    };
    let o = if o < 0 { 0 } else { o };
    let l = if l < 1 {
        1
    } else if l > max_limit {
        max_limit
    } else {
        l
    };
    (o, l)
}

/// Only the creator of a quiz sees it with its answers.
pub fn require_quiz_creator(user_id: &str, created_by_user_id: &str) -> (r: AppResult<()>)
    ensures
        user_id@ == created_by_user_id@ ==> r is Ok,
        user_id@ != created_by_user_id@ ==> (r matches Err(AppError::Forbidden(m))
            && m@ == "Only quiz creator can view full quiz with answers"@),
{
    if !str_eq(user_id, created_by_user_id) {
        return Err(AppError::Forbidden(owned("Only quiz creator can view full quiz with answers")));
    }
    Ok(())
}

/// A user may make another attempt while the number made is below the
/// quiz's limit.
pub fn check_attempt_limit(attempt_count: usize, attempt_limit: i16) -> (r: AppResult<()>)
    ensures
        attempt_count < attempt_limit as usize ==> r is Ok,
        attempt_count >= attempt_limit as usize ==> (r matches Err(AppError::BadRequest(m))
            && m@ == "Quiz attempt limit ("@ + crate::text::signed_decimal(attempt_limit as int) + ") reached"@),
{
    if attempt_count >= attempt_limit as usize {
        let mut m = owned("Quiz attempt limit (");
        let n = crate::text::signed_decimal_string(attempt_limit as i64);
        m.append(n.as_str());
        m.append(") reached");
        return Err(AppError::BadRequest(m));
    }
    Ok(())
}

/// `a` records, as attempt number `number` of `user_id` on `quiz`, the
/// graded answers `graded` worth `points`.
pub open spec fn attempt_recorded(a: QuizAttempt, user_id: Seq<char>, quiz: &Quiz, number: i16, points: i16, graded: Seq<QuizAttemptQuestion>) -> bool {
    &&& crate::clock::uuid_v4_text(a.id@)
    &&& a.user_id@ == user_id
    &&& a.quiz_id@ == quiz.id@
    &&& a.points_earned == points
    &&& a.total_possible == quiz.question_count
    &&& a.required_score == quiz.required_score
    &&& a.passed == (points >= quiz.required_score)
    &&& a.attempt_number == number
    &&& a.question_answers@ == graded
    &&& a.created_at is Some
    &&& a.modified_at is Some
}

/// Grades a submission and records it as the user's next attempt: the
/// limit must not have been reached; the points are out of the quiz's
/// question count; the attempt is numbered after the ones made; a grading
/// error is handed on.
pub fn submit_attempt(
    user_id: &str,
    quiz: &Quiz,
    answers: &[crate::models::dto::request::QuestionAnswerInput],
    attempt_count: usize,
) -> (r: AppResult<QuizAttempt>)
    requires
        quiz.questions matches Some(q) ==> crate::services::quiz_attempt_service::score_fits(
            questions_model(q@),
            answers_model(answers@),
        ),
    ensures
        attempt_count >= quiz.attempt_limit as usize ==> (r matches Err(AppError::BadRequest(m))
            && m@ == "Quiz attempt limit ("@ + crate::text::signed_decimal(quiz.attempt_limit as int) + ") reached"@),
        attempt_count < quiz.attempt_limit as usize && quiz.questions is None ==> is_bad_request(r, "Quiz has no questions"@),
        attempt_count < quiz.attempt_limit as usize && quiz.questions is Some ==> exists|g: AppResult<(i16, Vec<QuizAttemptQuestion>)>| {
            &&& #[trigger] grading_outcome(questions_model(quiz.questions.unwrap()@), answers_model(answers@), g)
            &&& match g {
                Ok((points, graded)) => r matches Ok(a) && attempt_recorded(a, user_id@, quiz, (attempt_count + 1) as i16, points, graded@),
                Err(e) => r == Err::<QuizAttempt, AppError>(e),
            }
        },
{
    match check_attempt_limit(attempt_count, quiz.attempt_limit) {
        Ok(()) => {},
        Err(e) => {
            return Err(e);
        },
    }
    let graded_result = QuizAttemptService::grade_attempt(quiz, answers);
    let ghost g = graded_result;
    let (points, graded) = match graded_result {
        Ok(x) => x,
        Err(e) => {
            assert(quiz.questions is Some ==> grading_outcome(questions_model(quiz.questions.unwrap()@), answers_model(answers@), g));
            return Err(e);
        },
    };
    assert(quiz.questions is Some ==> grading_outcome(questions_model(quiz.questions.unwrap()@), answers_model(answers@), g));
    let number = (attempt_count as u64 + 1) as i16;
    let ghost graded_seq = graded@;
    let a = QuizAttemptService::create_attempt(
        user_id,
        quiz.id.as_str(),
        points,
        quiz.question_count,
        number,
        quiz.required_score,
        graded,
    );
    assert(attempt_recorded(a, user_id@, quiz, (attempt_count + 1) as i16, points, graded_seq));
    Ok(a)
}

/// A page of attempts, each in its response form, with where the page
/// sits.
pub fn attempts_page(attempts: Vec<QuizAttempt>, offset: i64, limit: i64, total: i64) -> (r: PaginatedQuizAttemptResponse)
    ensures
        r.data@.len() == attempts@.len(),
        forall|i: int| 0 <= i < attempts@.len() ==> attempt_response_of(#[trigger] r.data@[i], attempts@[i]),
        r.pagination.offset == offset,
        r.pagination.limit == limit,
        r.pagination.total == total,
{
    let ghost all = attempts@;
    let mut data: Vec<QuizAttemptResponse> = Vec::new();
    let mut it = attempts;
    let _n = it.len();
    let mut k: usize = 0;
    while it.len() > 0
        invariant
            k + it@.len() == all.len(),
            all.len() <= usize::MAX,
            it@ == all.skip(k as int),
            data@.len() == k,
            forall|j: int| 0 <= j < k ==> attempt_response_of(#[trigger] data@[j], all[j]),
        decreases it.len(),
    {
        let a = it.remove(0);
        assert(a == all[k as int]);
        data.push(QuizAttemptResponse::from(a));
        k += 1;
        assert(it@ =~= all.skip(k as int));
    }
    PaginatedQuizAttemptResponse { data, pagination: PaginationMetadata { offset, limit, total } }
}

} // verus!
