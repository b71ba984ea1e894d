//! What the service answers: users, quizzes (in full, or as a taker sees
//! them), attempts and their review, pages of lists.

use vstd::prelude::*;

use crate::auth::claims::{subject_for, subject_of};
use crate::errors::{AppError, AppResult};
use crate::models::domain::quiz::{Quiz, QuizModel, QuizStatus};
use crate::models::domain::quiz_attempt::{attempt_questions_model, AttemptQuestionModel, QuizAttempt};
use crate::models::domain::quiz_question::{
    options_model, questions_model, OptionModel, QuestionModel, QuizQuestion, QuizQuestionType,
};
use crate::models::domain::user::User;
use crate::services::quiz_attempt_service::correct_option_ids;
use crate::text::{concat3, copy_string, copy_strings, opt_string_model, strings_model};

verus! {

/// A user as clients see it.
#[derive(Debug)]
pub struct UserDto {
    pub id: String,
    pub username: String,
    pub email: String,
    pub full_name: String,
    pub created_at: Option<i64>,
}

/// `d` is the public form of `user`: its stored id (else its username),
/// username, email, first and last name joined by a space, and creation
/// time.
pub open spec fn public_form(d: UserDto, user: User) -> bool {
    &&& d.id@ == subject_of(&user)
    &&& d.username@ == user.username@
    &&& d.email@ == user.email@
    &&& d.full_name@ == user.first_name@ + " "@ + user.last_name@
    &&& d.created_at == user.created_at
}

impl UserDto {
    /// The public form of a user: its stored id (else its username), and
    /// its first and last name joined by a space.
    pub fn from(user: User) -> (d: UserDto)
        ensures
            public_form(d, user),
    {
        let id = subject_for(&user);
        let full_name = concat3(user.first_name.as_str(), " ", user.last_name.as_str());
        UserDto { id, username: user.username, email: user.email, full_name, created_at: user.created_at }
    }
}

/// A quiz with everything in it, for its owner.
#[derive(Debug)]
pub struct QuizResponseDto {
    pub id: String,
    pub name: String,
    pub created_by_user_id: String,
    pub title: Option<String>,
    pub description: Option<String>,
    pub question_count: i16,
    pub required_score: i16,
    pub attempt_limit: i16,
    pub topic: Option<String>,
    pub status: QuizStatus,
    pub questions: Option<Vec<QuizQuestion>>,
    pub url: String,
    pub created_at: Option<i64>,
    pub modified_at: Option<i64>,
}

/// `d` is the owner's view of `quiz`, field for field.
pub open spec fn quiz_response_of(d: QuizResponseDto, quiz: Quiz) -> bool {
    &&& d.id == quiz.id
    &&& d.name == quiz.name
    &&& d.created_by_user_id == quiz.created_by_user_id
    &&& d.title == quiz.title
    &&& d.description == quiz.description
    &&& d.question_count == quiz.question_count
    &&& d.required_score == quiz.required_score
    &&& d.attempt_limit == quiz.attempt_limit
    &&& d.topic == quiz.topic
    &&& d.status == quiz.status
    &&& d.questions == quiz.questions
    &&& d.url == quiz.url
    &&& d.created_at == quiz.created_at
    &&& d.modified_at == quiz.modified_at
}

impl QuizResponseDto {
    /// The response form of a quiz, field for field.
    pub fn from(quiz: Quiz) -> (d: QuizResponseDto)
        ensures
            quiz_response_of(d, quiz),
    {
        QuizResponseDto {
            id: quiz.id,
            name: quiz.name,
            created_by_user_id: quiz.created_by_user_id,
            title: quiz.title,
            description: quiz.description,
            question_count: quiz.question_count,
            required_score: quiz.required_score,
            attempt_limit: quiz.attempt_limit,
            topic: quiz.topic,
            status: quiz.status,
            questions: quiz.questions,
            url: quiz.url,
            created_at: quiz.created_at,
            modified_at: quiz.modified_at,
        }
    }
}

/// A payload with a message.
#[derive(Debug)]
pub struct ApiResponse<T> {
    pub data: T,
    pub message: String,
}

/// What creating a quiz draft answers: the draft and the job that fills it.
#[derive(Debug)]
pub struct CreateQuizDraftResponseData {
    pub quiz: QuizResponseDto,
    pub job_id: String,
}

/// What a deletion answers.
#[derive(Debug)]
pub struct DeleteResponse {
    pub message: String,
}

/// A model's answer to a prompt.
#[derive(Debug)]
pub struct ChatCompletionResponse {
    pub content: String,
    pub model: String,
}

/// Where a page sits in a list, and how long the list is.
#[derive(Debug, Clone, Copy)]
pub struct PaginationMetadata {
    pub offset: i64,
    pub limit: i64,
    pub total: i64,
}

/// A page of a list.
#[derive(Debug)]
pub struct PaginatedResponse<T> {
    pub data: Vec<T>,
    pub pagination: PaginationMetadata,
}

/// A page of users.
#[derive(Debug)]
pub struct PaginatedUserResponse {
    pub data: Vec<UserDto>,
    pub pagination: PaginationMetadata,
}

/// An option as a quiz taker sees it: no correctness, no explanation.
#[derive(Debug)]
pub struct QuizQuestionOptionForTaking {
    pub id: String,
    pub text: String,
}

/// A question as a quiz taker sees it.
#[derive(Debug)]
pub struct QuizQuestionForTaking {
    pub id: String,
    pub title: String,
    pub description: String,
    pub question_type: QuizQuestionType,
    pub options: Vec<QuizQuestionOptionForTaking>,
    pub option_count: i16,
    pub order: i16,
    pub topic: String,
    pub created_at: Option<i64>,
}

/// A quiz as a quiz taker sees it: without the attempt limit and without
/// what would give the answers away.
#[derive(Debug)]
pub struct QuizForTaking {
    pub id: String,
    pub name: String,
    pub created_by_user_id: String,
    pub title: Option<String>,
    pub description: Option<String>,
    pub question_count: i16,
    pub required_score: i16,
    pub topic: Option<String>,
    pub status: QuizStatus,
    pub questions: Option<Vec<QuizQuestionForTaking>>,
    pub url: String,
    pub created_at: Option<i64>,
}

/// Whether a taker's option shows exactly the identifier and text of the
/// option.
pub open spec fn option_shown_as(o: OptionModel, t: QuizQuestionOptionForTaking) -> bool {
    t.id@ == o.id && t.text@ == o.text
}

/// Whether a taker's question shows the question: same identifier, texts,
/// type, counts, order, topic and creation time, and its options in order,
/// each by identifier and text only.
pub open spec fn question_shown_as(q: QuestionModel, t: QuizQuestionForTaking) -> bool {
    &&& t.id@ == q.id
    &&& t.title@ == q.title
    &&& t.description@ == q.description
    &&& t.question_type == q.question_type
    &&& t.option_count == q.option_count
    &&& t.order == q.order
    &&& t.topic@ == q.topic
    &&& t.created_at == q.created_at
    &&& t.options@.len() == q.options.len()
    &&& forall|j: int| 0 <= j < q.options.len() ==> option_shown_as(q.options[j], #[trigger] t.options@[j])
}

/// Whether a taker's quiz shows the quiz, question for question.
pub open spec fn quiz_shown_as(q: QuizModel, t: &QuizForTaking) -> bool {
    &&& t.id@ == q.id
    &&& t.name@ == q.name
    &&& t.created_by_user_id@ == q.created_by_user_id
    &&& opt_string_model(t.title) == q.title
    &&& opt_string_model(t.description) == q.description
    &&& t.question_count == q.question_count
    &&& t.required_score == q.required_score
    &&& opt_string_model(t.topic) == q.topic
    &&& t.status == q.status
    &&& t.url@ == q.url
    &&& t.created_at == q.created_at
    &&& match (q.questions, t.questions) {
        (None, None) => true,
        (Some(qs), Some(ts)) => ts@.len() == qs.len() && forall|i: int|
            0 <= i < qs.len() ==> question_shown_as(qs[i], #[trigger] ts@[i]),
        _ => false,
    }
}

fn question_for_taking(q: QuizQuestion) -> (t: QuizQuestionForTaking)
    ensures
        question_shown_as(q@, t),
{
    let ghost qm = q@;
    let ghost all = q.options@;
    let mut options: Vec<QuizQuestionOptionForTaking> = Vec::new();
    let mut it = q.options;
    let _total = it.len();
    let mut k: usize = 0;
    while it.len() > 0
        invariant
            k + it@.len() == all.len(),
            all.len() <= usize::MAX,
            it@ == all.skip(k as int),
            options@.len() == k,
            qm.options == options_model(all),
            forall|j: int| 0 <= j < k ==> option_shown_as(all[j]@, #[trigger] options@[j]),
        decreases it.len(),
    {
        let o = it.remove(0);
        assert(o == all[k as int]);
        options.push(QuizQuestionOptionForTaking { id: o.id, text: o.text });
        k += 1;
        assert(it@ =~= all.skip(k as int));
    }
    QuizQuestionForTaking {
        id: q.id,
        title: q.title,
        description: q.description,
        question_type: q.question_type,
        options,
        option_count: q.option_count,
        order: q.order,
        topic: q.topic,
        created_at: q.created_at,
    }
}

impl QuizForTaking {
    /// The quiz as a taker sees it: every option reduced to its identifier
    /// and text, so that neither which options are correct nor their
    /// explanations are shown; the attempt limit and modification time
    /// are left out.
    pub fn from_quiz(quiz: Quiz) -> (t: QuizForTaking)
        ensures
            quiz_shown_as(quiz@, &t),
    {
        let ghost qm = quiz@;
        let questions = match quiz.questions {
            Some(qs) => {
                let ghost all = qs@;
                let mut out: Vec<QuizQuestionForTaking> = Vec::new();
                let mut it = qs;
                let _total = it.len();
                let mut k: usize = 0;
                while it.len() > 0
                    invariant
                        k + it@.len() == all.len(),
                        all.len() <= usize::MAX,
                        it@ == all.skip(k as int),
                        out@.len() == k,
                        forall|j: int| 0 <= j < k ==> question_shown_as(all[j]@, #[trigger] out@[j]),
                    decreases it.len(),
                {
                    let q = it.remove(0);
                    assert(q == all[k as int]);
                    out.push(question_for_taking(q));
                    k += 1;
                    assert(it@ =~= all.skip(k as int));
                }
                Some(out)
            },
            None => None,
        };
        QuizForTaking {
            id: quiz.id,
            name: quiz.name,
            created_by_user_id: quiz.created_by_user_id,
            title: quiz.title,
            description: quiz.description,
            question_count: quiz.question_count,
            required_score: quiz.required_score,
            topic: quiz.topic,
            status: quiz.status,
            questions,
            url: quiz.url,
            created_at: quiz.created_at,
        }
    }
}

/// The outcome of an attempt as its taker sees it.
#[derive(Debug)]
pub struct QuizAttemptResponse {
    pub id: String,
    pub quiz_id: String,
    pub points_earned: i16,
    pub total_possible: i16,
    pub required_score: i16,
    pub passed: bool,
    pub attempt_number: i16,
    pub submitted_at: i64,
}

/// `r` is the response form of `attempt`, field for field.
pub open spec fn attempt_response_of(r: QuizAttemptResponse, attempt: QuizAttempt) -> bool {
    &&& r.id == attempt.id
    &&& r.quiz_id == attempt.quiz_id
    &&& r.points_earned == attempt.points_earned
    &&& r.total_possible == attempt.total_possible
    &&& r.required_score == attempt.required_score
    &&& r.passed == attempt.passed
    &&& r.attempt_number == attempt.attempt_number
    &&& r.submitted_at == attempt.submitted_at
}

impl QuizAttemptResponse {
    /// The response form of an attempt, field for field.
    pub fn from(attempt: QuizAttempt) -> (r: QuizAttemptResponse)
        ensures
            attempt_response_of(r, attempt),
    {
        QuizAttemptResponse {
            id: attempt.id,
            quiz_id: attempt.quiz_id,
            points_earned: attempt.points_earned,
            total_possible: attempt.total_possible,
            required_score: attempt.required_score,
            passed: attempt.passed,
            attempt_number: attempt.attempt_number,
            submitted_at: attempt.submitted_at,
        }
    }
}

/// How one question of an attempt went, for its review.
#[derive(Debug)]
pub struct QuestionAttemptDetail {
    pub question_id: String,
    pub user_selected_option_ids: Vec<String>,
    pub correct_option_ids: Vec<String>,
    pub is_correct: bool,
    pub points_earned: i16,
    pub explanation: String,
}

/// An attempt with its quiz and how each question went.
#[derive(Debug)]
pub struct QuizAttemptReview {
    pub attempt: QuizAttemptResponse,
    pub quiz: QuizResponseDto,
    pub question_results: Vec<QuestionAttemptDetail>,
}

/// A page of attempts.
#[derive(Debug)]
pub struct PaginatedQuizAttemptResponse {
    pub data: Vec<QuizAttemptResponse>,
    pub pagination: PaginationMetadata,
}

/// The position of the first question with identifier `id`, if any.
pub open spec fn first_match(qs: Seq<QuestionModel>, id: Seq<char>) -> Option<int>
    decreases qs.len(),
{
    if qs.len() == 0 {
        None
    } else {
        match first_match(qs.drop_last(), id) {
            Some(k) => Some(k),
            None => if qs.last().id == id {
                Some(qs.len() - 1)
            } else {
                None
            },
        }
    }
}

/// The explanation of the first correct option, or nothing.
pub open spec fn first_correct_explanation(opts: Seq<OptionModel>) -> Seq<char>
    decreases opts.len(),
{
    if opts.len() == 0 {
        seq![]
    } else {
        let front = first_correct_explanation(opts.drop_last());
        if correct_option_ids(opts.drop_last()).len() > 0 {
            front
        } else if opts.last().correct {
            opts.last().explanation
        } else {
            seq![]
        }
    }
}

/// Whether `d` reviews the graded answer `a` against question `q`.
pub open spec fn detail_of(a: AttemptQuestionModel, q: QuestionModel, d: QuestionAttemptDetail) -> bool {
    &&& d.question_id@ == a.quiz_question_id
    &&& strings_model(d.user_selected_option_ids@) == a.selected_option_ids
    &&& strings_model(d.correct_option_ids@) == correct_option_ids(q.options)
    &&& d.is_correct == a.is_correct
    &&& d.points_earned == a.points_earned
    &&& d.explanation@ == first_correct_explanation(q.options)
}

/// Whether every graded answer's question is among `qs`.
pub open spec fn all_answers_found(qs: Seq<QuestionModel>, answers: Seq<AttemptQuestionModel>) -> bool {
    forall|i: int| 0 <= i < answers.len() ==> (#[trigger] first_match(qs, answers[i].quiz_question_id)) is Some
}

fn find_first_question(qs: &Vec<QuizQuestion>, id: &String) -> (r: Option<usize>)
    ensures
        match r {
            Some(k) => first_match(questions_model(qs@), id@) == Some(k as int) && k < qs@.len(),
            None => first_match(questions_model(qs@), id@) is None,
        },
{
    let ghost qm = questions_model(qs@);
    assert(qm.take(0) =~= Seq::<QuestionModel>::empty());
    for i in 0..qs.len()
        invariant
            qm == questions_model(qs@),
            first_match(qm.take(i as int), id@) is None,
    {
        let ghost pre = qm.take(i + 1);
        assert(pre.drop_last() =~= qm.take(i as int));
        if qs[i].id == *id {
            assert(first_match(pre, id@) == Some(i as int));
            proof { lemma_first_match_prefix(qm, i + 1, id@); }
            return Some(i);
        }
        assert(first_match(pre, id@) is None);
    }
    assert(qm.take(qs.len() as int) =~= qm);
    None
}

proof fn lemma_first_match_prefix(qs: Seq<QuestionModel>, k: int, id: Seq<char>)
    requires
        0 <= k <= qs.len(),
        first_match(qs.take(k), id) is Some,
    ensures
        first_match(qs, id) == first_match(qs.take(k), id),
    decreases qs.len() - k,
{
    if k < qs.len() {
        assert(qs.take(k + 1).drop_last() =~= qs.take(k));
        lemma_first_match_prefix(qs, k + 1, id);
    } else {
        assert(qs.take(k) =~= qs);
    }
}

fn correct_ids_and_explanation(opts: &Vec<crate::models::domain::quiz_question::QuizQuestionOption>) -> (r: (Vec<String>, String))
    ensures
        strings_model(r.0@) == correct_option_ids(options_model(opts@)),
        r.1@ == first_correct_explanation(options_model(opts@)),
{
    let ghost om = options_model(opts@);
    let mut ids: Vec<String> = Vec::new();
    let mut explanation = String::new();
    assert(om.take(0) =~= Seq::<OptionModel>::empty());
    for i in 0..opts.len()
        invariant
            om == options_model(opts@),
            strings_model(ids@) == correct_option_ids(om.take(i as int)),
            explanation@ == first_correct_explanation(om.take(i as int)),
    {
        let ghost pre = om.take(i + 1);
        assert(pre.drop_last() =~= om.take(i as int));
        if opts[i].correct {
            if ids.len() == 0 {
                explanation = copy_string(&opts[i].explanation);
            }
            let ghost before = ids@;
            ids.push(copy_string(&opts[i].id));
            assert(strings_model(ids@) =~= strings_model(before).push(opts@[i as int].id@));
        }
    }
    assert(om.take(opts.len() as int) =~= om);
    (ids, explanation)
}

/// How each graded answer of an attempt went, in order: the question it
/// answers (the first of the quiz with that identifier), the options
/// picked, the correct options, the grade, and the explanation of the
/// first correct option. An answer whose question is not in the quiz is
/// reported as not found.
#[verifier::loop_isolation(false)]
pub fn attempt_question_results(attempt: &QuizAttempt, quiz: &Quiz) -> (r: AppResult<Vec<QuestionAttemptDetail>>)
    ensures
        ({
            let answers = attempt_questions_model(attempt.question_answers@);
            let qs = match quiz@.questions {
                Some(qs) => qs,
                None => seq![],
            };
            &&& all_answers_found(qs, answers) ==> (r matches Ok(ds) && ds@.len() == answers.len() && forall|i: int|
                0 <= i < answers.len() ==> detail_of(answers[i], qs[first_match(qs, answers[i].quiz_question_id)->Some_0], #[trigger] ds@[i]))
            &&& !all_answers_found(qs, answers) ==> (r matches Err(AppError::NotFound(m)) && m@ == "Question not found"@)
        }),
{
    let empty: Vec<QuizQuestion> = Vec::new();
    let qs = match &quiz.questions {
        Some(v) => v,
        None => &empty,
    };
    let ghost qm = questions_model(qs@);
    assert(qm == match quiz@.questions {
        Some(x) => x,
        None => seq![],
    }) by {
        if quiz.questions is None {
            assert(qm =~= Seq::<QuestionModel>::empty());
        }
    }
    let ghost answers = attempt_questions_model(attempt.question_answers@);
    let mut details: Vec<QuestionAttemptDetail> = Vec::new();
    for i in 0..attempt.question_answers.len()
        invariant
            qm == questions_model(qs@),
            answers == attempt_questions_model(attempt.question_answers@),
            details@.len() == i,
            forall|j: int| 0 <= j < i ==> (#[trigger] first_match(qm, answers[j].quiz_question_id)) is Some,
            forall|j: int| 0 <= j < i ==> detail_of(answers[j], qm[first_match(qm, answers[j].quiz_question_id)->Some_0], #[trigger] details@[j]),
    {
        let a = &attempt.question_answers[i];
        assert(answers[i as int] == a@);
        let k = match find_first_question(qs, &a.quiz_question_id) {
            Some(k) => k,
            None => {
                assert(first_match(qm, answers[i as int].quiz_question_id) is None);
                return Err(AppError::NotFound(crate::text::owned("Question not found")));
            },
        };
        let (correct_ids, explanation) = correct_ids_and_explanation(&qs[k].options);
        assert(qm[k as int] == qs@[k as int]@);
        details.push(
            QuestionAttemptDetail {
                question_id: copy_string(&a.quiz_question_id),
                user_selected_option_ids: copy_strings(&a.selected_option_ids),
                correct_option_ids: correct_ids,
                is_correct: a.is_correct,
                points_earned: a.points_earned,
                explanation,
            },
        );
    }
    Ok(details)
}

} // verus!
