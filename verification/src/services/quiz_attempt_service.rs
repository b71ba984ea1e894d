use vstd::prelude::*;

use crate::clock::{new_uuid, now_micros};
use crate::errors::{AppError, AppResult, is_bad_request};
use crate::models::domain::quiz::Quiz;
use crate::models::domain::quiz_attempt::{
    AttemptQuestionModel, QuizAttempt, QuizAttemptQuestion, attempt_questions_model,
};
use crate::models::domain::quiz_question::{
    OptionModel, QuestionModel, QuizQuestion, QuizQuestionOption, QuizQuestionType, options_model,
    questions_model,
};
use crate::models::dto::request::{AnswerModel, QuestionAnswerInput, answers_model};
use crate::text::{concat3, concat5, contains_string, copy_string, copy_strings, owned, strings_model};

verus! {

/// The position of the last question with identifier `id`, or -1 when no
/// question has it. (Later questions shadow earlier ones with the same id.)
pub open spec fn last_question_index(qs: Seq<QuestionModel>, id: Seq<char>) -> int
    decreases qs.len(),
{
    if qs.len() == 0 {
        -1
    } else if qs.last().id == id {
        qs.len() - 1
    } else {
        last_question_index(qs.drop_last(), id)
    }
}

/// The identifiers of the correct options, in order.
pub open spec fn correct_option_ids(opts: Seq<OptionModel>) -> Seq<Seq<char>>
    decreases opts.len(),
{
    if opts.len() == 0 {
        seq![]
    } else if opts.last().correct {
        correct_option_ids(opts.drop_last()).push(opts.last().id)
    } else {
        correct_option_ids(opts.drop_last())
    }
}

/// Whether some option has identifier `id`.
pub open spec fn has_option(opts: Seq<OptionModel>, id: Seq<char>) -> bool {
    exists|k: int| 0 <= k < opts.len() && #[trigger] opts[k].id == id
}

/// The first selected identifier that names no option, if any.
pub open spec fn first_unknown_option(opts: Seq<OptionModel>, sel: Seq<Seq<char>>) -> Option<Seq<char>>
    decreases sel.len(),
{
    if sel.len() == 0 {
        None
    } else {
        match first_unknown_option(opts, sel.drop_last()) {
            Some(x) => Some(x),
            None => if has_option(opts, sel.last()) {
                None
            } else {
                Some(sel.last())
            },
        }
    }
}

/// The message for an answer to a question the quiz does not have.
pub open spec fn question_not_found_message(qid: Seq<char>) -> Seq<char> {
    "Question '"@ + qid + "' not found in quiz"@
}

/// The message for an answer that picks an option the question does not have.
pub open spec fn option_not_found_message(oid: Seq<char>, qid: Seq<char>) -> Seq<char> {
    "Option '"@ + oid + "' not found in question '"@ + qid + "'"@
}

/// Why an answer cannot be graded against the questions `qs`, if it cannot.
pub open spec fn answer_error(qs: Seq<QuestionModel>, a: AnswerModel) -> Option<Seq<char>> {
    let idx = last_question_index(qs, a.question_id);
    if idx < 0 {
        Some(question_not_found_message(a.question_id))
    } else {
        match first_unknown_option(qs[idx].options, a.selected_option_ids) {
            Some(o) => Some(option_not_found_message(o, a.question_id)),
            None => None,
        }
    }
}

/// The problem with the first answer that cannot be graded, if any.
pub open spec fn first_answer_error(qs: Seq<QuestionModel>, answers: Seq<AnswerModel>) -> Option<Seq<char>>
    decreases answers.len(),
{
    if answers.len() == 0 {
        None
    } else {
        match first_answer_error(qs, answers.drop_last()) {
            Some(m) => Some(m),
            None => answer_error(qs, answers.last()),
        }
    }
}

/// The question an answer refers to.
pub open spec fn answered_question(qs: Seq<QuestionModel>, a: AnswerModel) -> QuestionModel {
    qs[last_question_index(qs, a.question_id)]
}

/// A multi-choice question with no correct option cannot be graded.
pub open spec fn lacks_correct_multi(q: QuestionModel) -> bool {
    q.question_type == QuizQuestionType::Multi && correct_option_ids(q.options).len() == 0
}

/// Whether the selection `sel` answers `q` correctly: for single-choice and
/// true/false questions, exactly one option is picked and it is the first
/// correct one; for multi-choice questions, every correct option is picked
/// and nothing else.
pub open spec fn is_correct_answer(q: QuestionModel, sel: Seq<Seq<char>>) -> bool {
    let cids = correct_option_ids(q.options);
    match q.question_type {
        QuizQuestionType::Multi => {
            &&& forall|i: int| 0 <= i < cids.len() ==> sel.contains(#[trigger] cids[i])
            &&& forall|j: int| 0 <= j < sel.len() ==> cids.contains(#[trigger] sel[j])
        },
        _ => sel.len() == 1 && cids.len() > 0 && sel[0] == cids[0],
    }
}

/// One point for a correct answer, none otherwise.
pub open spec fn points_for(correct: bool) -> i16 {
    if correct {
        1
    } else {
        0
    }
}

/// `g` is the grading of answer `a` to question `q`.
pub open spec fn graded_as(q: QuestionModel, a: AnswerModel, g: AttemptQuestionModel) -> bool {
    &&& crate::clock::uuid_v4_text(g.id)
    &&& g.quiz_question_id == a.question_id
    &&& g.selected_option_ids == a.selected_option_ids
    &&& g.is_correct == is_correct_answer(q, a.selected_option_ids)
    &&& g.points_earned == points_for(g.is_correct)
}

/// The sum of the points of graded answers.
pub open spec fn total_points(gs: Seq<AttemptQuestionModel>) -> int
    decreases gs.len(),
{
    if gs.len() == 0 {
        0
    } else {
        total_points(gs.drop_last()) + gs.last().points_earned
    }
}

/// The number of graded answers that are correct.
pub open spec fn correct_count(gs: Seq<AttemptQuestionModel>) -> int
    decreases gs.len(),
{
    if gs.len() == 0 {
        0
    } else {
        correct_count(gs.drop_last()) + if gs.last().is_correct {
            1int
        } else {
            0int
        }
    }
}

/// The full outcome of grading `answers` against the questions `qs`.
pub open spec fn grading_outcome(
    qs: Seq<QuestionModel>,
    answers: Seq<AnswerModel>,
    r: AppResult<(i16, Vec<QuizAttemptQuestion>)>,
) -> bool {
    match first_answer_error(qs, answers) {
        Some(m) => is_bad_request(r, m),
        None => if exists|i: int| 0 <= i < answers.len() && lacks_correct_multi(#[trigger] answered_question(qs, answers[i])) {
            is_bad_request(r, "Multi-choice question has no correct options"@)
        } else {
            match r {
                Ok((total, results)) => {
                    &&& results@.len() == answers.len()
                    &&& forall|i: int| 0 <= i < answers.len() ==> graded_as(answered_question(qs, answers[i]), answers[i], #[trigger] results@[i]@)
                    &&& total == total_points(attempt_questions_model(results@))
                },
                Err(_) => false,
            }
        },
    }
}

proof fn lemma_last_question_index(qs: Seq<QuestionModel>, id: Seq<char>)
    ensures
        -1 <= last_question_index(qs, id) < qs.len(),
        last_question_index(qs, id) >= 0 ==> qs[last_question_index(qs, id)].id == id,
    decreases qs.len(),
{
    if qs.len() > 0 && qs.last().id != id {
        lemma_last_question_index(qs.drop_last(), id);
    }
}

proof fn lemma_no_answer_error(qs: Seq<QuestionModel>, answers: Seq<AnswerModel>, i: int)
    requires
        first_answer_error(qs, answers) is None,
        0 <= i < answers.len(),
    ensures
        answer_error(qs, answers[i]) is None,
    decreases answers.len(),
{
    if i < answers.len() - 1 {
        lemma_no_answer_error(qs, answers.drop_last(), i);
    }
}

/// The score of an attempt is the number of its answers graded correct, so
/// it lies between zero and the number of answers.
pub proof fn lemma_score_counts_correct_answers(gs: Seq<AttemptQuestionModel>)
    requires
        forall|i: int| 0 <= i < gs.len() ==> (#[trigger] gs[i]).points_earned == points_for(gs[i].is_correct),
    ensures
        total_points(gs) == correct_count(gs),
        0 <= total_points(gs) <= gs.len(),
    decreases gs.len(),
{
    if gs.len() > 0 {
        assert forall|i: int| 0 <= i < gs.drop_last().len() implies (#[trigger] gs.drop_last()[i]).points_earned == points_for(gs.drop_last()[i].is_correct) by {
            assert(gs.drop_last()[i] == gs[i]);
        }
        lemma_score_counts_correct_answers(gs.drop_last());
        assert(gs.last() == gs[gs.len() - 1]);
    }
}

/// The position of the last question with identifier `id`.
fn find_question(qs: &Vec<QuizQuestion>, id: &String) -> (r: Option<usize>)
    ensures
        match r {
            Some(k) => k as int == last_question_index(questions_model(qs@), id@) && k < qs@.len(),
            None => last_question_index(questions_model(qs@), id@) == -1,
        },
{
    let ghost qm = questions_model(qs@);
    let mut k = qs.len();
    assert(qm.take(k as int) =~= qm);
    while k > 0
        invariant
            k <= qs@.len(),
            qm == questions_model(qs@),
            last_question_index(qm, id@) == last_question_index(qm.take(k as int), id@),
        decreases k,
    {
        assert(qm.take(k as int).last() == qs@[k - 1]@);
        if qs[k - 1].id == *id {
            return Some(k - 1);
        }
        assert(qm.take(k as int).drop_last() =~= qm.take(k - 1));
        k -= 1;
    }
    None
}

/// Whether some option has identifier `id`.
fn find_option(opts: &Vec<QuizQuestionOption>, id: &String) -> (r: bool)
    ensures
        r == has_option(options_model(opts@), id@),
{
    let ghost om = options_model(opts@);
    for i in 0..opts.len()
        invariant
            om == options_model(opts@),
            forall|k: int| 0 <= k < i ==> #[trigger] om[k].id != id@,
    {
        if opts[i].id == *id {
            assert(om[i as int].id == id@);
            return true;
        }
    }
    false
}

/// The identifiers of the correct options of a question, in order.
fn collect_correct_ids(opts: &Vec<QuizQuestionOption>) -> (r: Vec<String>)
    ensures
        strings_model(r@) == correct_option_ids(options_model(opts@)),
{
    let ghost om = options_model(opts@);
    let mut r: Vec<String> = Vec::new();
    for i in 0..opts.len()
        invariant
            om == options_model(opts@),
            strings_model(r@) == correct_option_ids(om.take(i as int)),
    {
        assert(om.take(i + 1).drop_last() =~= om.take(i as int));
        assert(om.take(i + 1).last() == opts@[i as int]@);
        if opts[i].correct {
            r.push(copy_string(&opts[i].id));
            assert(strings_model(r@) =~= correct_option_ids(om.take(i as int)).push(opts@[i as int].id@));
        }
    }
    assert(om.take(opts.len() as int) =~= om);
    r
}

/// Whether every string of `a` is also in `b`.
fn all_contained(a: &Vec<String>, b: &Vec<String>) -> (r: bool)
    ensures
        r == forall|i: int| 0 <= i < a@.len() ==> strings_model(b@).contains(#[trigger] strings_model(a@)[i]),
{
    for i in 0..a.len()
        invariant
            forall|k: int| 0 <= k < i ==> strings_model(b@).contains(#[trigger] strings_model(a@)[k]),
    {
        if !contains_string(b, &a[i]) {
            assert(!strings_model(b@).contains(strings_model(a@)[i as int]));
            return false;
        }
    }
    true
}

/// Grades one question. Multi-choice questions without a correct option
/// cannot be graded.
fn grade_question(question: &QuizQuestion, selected_option_ids: &Vec<String>) -> (r: AppResult<(bool, i16)>)
    ensures
        lacks_correct_multi(question@) ==> is_bad_request(r, "Multi-choice question has no correct options"@),
        !lacks_correct_multi(question@) ==> (r matches Ok((c, p)) && c == is_correct_answer(question@, strings_model(selected_option_ids@)) && p == points_for(c)),
{
    let correct_ids = collect_correct_ids(&question.options);
    let ghost sel = strings_model(selected_option_ids@);
    let ghost cids = strings_model(correct_ids@);
    let is_correct = match question.question_type {
        QuizQuestionType::Multi => {
            if correct_ids.len() == 0 {
                proof { reveal_strlit("Multi-choice question has no correct options"); }
                return Err(AppError::BadRequest(owned("Multi-choice question has no correct options")));
            }
            let has_all_correct = all_contained(&correct_ids, selected_option_ids);
            let has_no_incorrect = all_contained(selected_option_ids, &correct_ids);
            has_all_correct && has_no_incorrect
        },
        _ => {
            selected_option_ids.len() == 1 && correct_ids.len() > 0 && selected_option_ids[0] == correct_ids[0]
        },
    };
    Ok((is_correct, if is_correct { 1 } else { 0 }))
}

/// The number of answers of `ans` that are correct.
pub open spec fn correct_answers(qs: Seq<QuestionModel>, ans: Seq<AnswerModel>) -> int
    decreases ans.len(),
{
    if ans.len() == 0 {
        0
    } else {
        correct_answers(qs, ans.drop_last()) + points_for(
            is_correct_answer(answered_question(qs, ans.last()), ans.last().selected_option_ids),
        )
    }
}

/// Grading `ans` keeps its running score within an `i16`: where every
/// answer names known questions and options, the correct answers counted
/// before grading stops (at a multi-choice question without correct
/// options) number at most `i16::MAX`.
pub open spec fn score_fits(qs: Seq<QuestionModel>, ans: Seq<AnswerModel>) -> bool {
    first_answer_error(qs, ans) is None ==> forall|k: int|
        0 <= k <= ans.len() && (forall|j: int| 0 <= j < k ==> !lacks_correct_multi(#[trigger] answered_question(qs, ans[j])))
            ==> correct_answers(qs, #[trigger] ans.take(k)) <= i16::MAX
}

/// The first answer that names an unknown question or option, with the
/// message that reports it.
#[verifier::loop_isolation(false)]
fn first_error(questions: &Vec<QuizQuestion>, submitted_answers: &[QuestionAnswerInput]) -> (r: Option<String>)
    ensures
        match r {
            Some(m) => first_answer_error(questions_model(questions@), answers_model(submitted_answers@)) == Some(m@),
            None => first_answer_error(questions_model(questions@), answers_model(submitted_answers@)) is None,
        },
{
    let ghost qs = questions_model(questions@);
    let ghost ans = answers_model(submitted_answers@);
    let n = submitted_answers.len();

    for i in 0..n
        invariant
            n == submitted_answers@.len(),
            qs == questions_model(questions@),
            ans == answers_model(submitted_answers@),
            first_answer_error(qs, ans.take(i as int)) is None,
    {
        let answer = &submitted_answers[i];
        assert(ans.take(i + 1).drop_last() =~= ans.take(i as int));
        assert(ans.take(i + 1).last() == answer@);
        match find_question(questions, &answer.question_id) {
            None => {
                proof {
                    reveal_strlit("Question '");
                    reveal_strlit("' not found in quiz");
                    lemma_first_error_extends(qs, ans, i as int);
                }
                return Some(concat3("Question '", answer.question_id.as_str(), "' not found in quiz"));
            },
            Some(idx) => {
                let question = &questions[idx];
                let ghost om = options_model(question.options@);
                let ghost sel = strings_model(answer.selected_option_ids@);
                assert(qs[idx as int] == question@);
                let m = answer.selected_option_ids.len();
                for j in 0..m
                    invariant
                        m == sel.len(),
                        om == options_model(question.options@),
                        sel == strings_model(answer.selected_option_ids@),
                        first_unknown_option(om, sel.take(j as int)) is None,
                {
                    assert(sel.take(j + 1).drop_last() =~= sel.take(j as int));
                    assert(sel.take(j + 1).last() == sel[j as int]);
                    if !find_option(&question.options, &answer.selected_option_ids[j]) {
                        proof {
                            reveal_strlit("Option '");
                            reveal_strlit("' not found in question '");
                            reveal_strlit("'");
                            lemma_first_unknown_extends(om, sel, j as int);
                            lemma_first_error_extends(qs, ans, i as int);
                        }
                        return Some(concat5(
                            "Option '",
                            answer.selected_option_ids[j].as_str(),
                            "' not found in question '",
                            answer.question_id.as_str(),
                            "'",
                        ));
                    }
                }
                assert(sel.take(m as int) =~= sel);
            },
        }
    }
    assert(ans.take(n as int) =~= ans);
    None
}

/// Grading of quiz attempts.
pub struct QuizAttemptService;

impl QuizAttemptService {
    /// Grades the submitted answers against the quiz. Every answer must name
    /// a question of the quiz and only options of that question; the first
    /// one that does not is reported. Then each answer earns one point when
    /// correct; a multi-choice question without correct options cannot be
    /// graded. The result is the total score and one graded entry per
    /// answer, in the order given.
    #[verifier::loop_isolation(false)]
    pub fn grade_attempt(quiz: &Quiz, submitted_answers: &[QuestionAnswerInput]) -> (r: AppResult<(i16, Vec<QuizAttemptQuestion>)>)
        requires
            quiz.questions matches Some(q) ==> score_fits(questions_model(q@), answers_model(submitted_answers@)),
        ensures
            quiz.questions is None ==> is_bad_request(r, "Quiz has no questions"@),
            quiz.questions is Some ==> grading_outcome(
                questions_model(quiz.questions.unwrap()@),
                answers_model(submitted_answers@),
                r,
            ),
    {
        let questions = match &quiz.questions {
            None => {
                proof { reveal_strlit("Quiz has no questions"); }
                return Err(AppError::BadRequest(owned("Quiz has no questions")));
            },
            Some(qs) => qs,
        };
        let ghost qs = questions_model(questions@);
        let ghost ans = answers_model(submitted_answers@);
        let n = submitted_answers.len();
        match first_error(questions, submitted_answers) {
            Some(m) => {
                return Err(AppError::BadRequest(m));
            },
            None => {},
        }

        let mut total: i16 = 0;
        let mut question_results: Vec<QuizAttemptQuestion> = Vec::new();
        for i in 0..n
            invariant
                n == submitted_answers@.len(),
                qs == questions_model(questions@),
                ans == answers_model(submitted_answers@),
                first_answer_error(qs, ans) is None,
                score_fits(qs, ans),
                total == correct_answers(qs, ans.take(i as int)),
                question_results@.len() == i,
                forall|k: int| 0 <= k < i ==> graded_as(answered_question(qs, ans[k]), ans[k], #[trigger] question_results@[k]@),
                forall|k: int| 0 <= k < i ==> !lacks_correct_multi(#[trigger] answered_question(qs, ans[k])),
                total == total_points(attempt_questions_model(question_results@)),
                0 <= total <= i,
        {
            let answer = &submitted_answers[i];
            proof {
                lemma_no_answer_error(qs, ans, i as int);
                lemma_last_question_index(qs, ans[i as int].question_id);
            }
            let idx = match find_question(questions, &answer.question_id) {
                Some(idx) => idx,
                None => {
                    proof { assert(false); }
                    return Err(AppError::NotFound(owned("Question not found")));
                },
            };
            assert(questions@[idx as int]@ == answered_question(qs, ans[i as int]));
            let (is_correct, points) = match grade_question(&questions[idx], &answer.selected_option_ids) {
                Ok(v) => v,
                Err(e) => {
                    assert(lacks_correct_multi(answered_question(qs, ans[i as int])));
                    return Err(e);
                },
            };
            proof {
                let pre = ans.take(i as int + 1);
                assert(pre.drop_last() =~= ans.take(i as int));
                assert(pre.last() == ans[i as int]);
                assert forall|j: int| 0 <= j < i + 1 implies !lacks_correct_multi(#[trigger] answered_question(qs, ans[j])) by {}
                assert(correct_answers(qs, ans.take(i as int + 1)) <= i16::MAX);
            }
            let ghost before = attempt_questions_model(question_results@);
            total = total + points;
            question_results.push(QuizAttemptQuestion {
                id: new_uuid(),
                quiz_question_id: copy_string(&answer.question_id),
                selected_option_ids: copy_strings(&answer.selected_option_ids),
                is_correct,
                points_earned: points,
            });
            assert(attempt_questions_model(question_results@).drop_last() =~= before);
        }
        assert(!(exists|i: int| 0 <= i < ans.len() && lacks_correct_multi(#[trigger] answered_question(qs, ans[i]))));
        Ok((total, question_results))
    }

    /// Whether grading `submitted_answers` against the quiz keeps its
    /// running score within an `i16` (see [`score_fits`]); a quiz without
    /// questions is refused before any scoring.
    #[verifier::loop_isolation(false)]
    pub fn score_fits_for(quiz: &Quiz, submitted_answers: &[QuestionAnswerInput]) -> (b: bool)
        ensures
            quiz.questions matches Some(q) ==> b == score_fits(questions_model(q@), answers_model(submitted_answers@)),
            quiz.questions is None ==> b,
    {
        let questions = match &quiz.questions {
            None => {
                return true;
            },
            Some(qs) => qs,
        };
        let ghost qs = questions_model(questions@);
        let ghost ans = answers_model(submitted_answers@);
        if first_error(questions, submitted_answers).is_some() {
            return true;
        }
        let n = submitted_answers.len();
        let mut count: usize = 0;
        assert(ans.take(0) =~= Seq::<AnswerModel>::empty());
        for i in 0..n
            invariant
                n == submitted_answers@.len(),
                qs == questions_model(questions@),
                ans == answers_model(submitted_answers@),
                first_answer_error(qs, ans) is None,
                count == correct_answers(qs, ans.take(i as int)),
                forall|k: int| 0 <= k < i ==> !lacks_correct_multi(#[trigger] answered_question(qs, ans[k])),
                forall|k: int| 0 <= k <= i ==> correct_answers(qs, #[trigger] ans.take(k)) <= i16::MAX,
        {
            let answer = &submitted_answers[i];
            proof {
                lemma_no_answer_error(qs, ans, i as int);
                lemma_last_question_index(qs, ans[i as int].question_id);
            }
            let idx = match find_question(questions, &answer.question_id) {
                Some(idx) => idx,
                None => {
                    proof { assert(false); }
                    return true;
                },
            };
            assert(questions@[idx as int]@ == answered_question(qs, ans[i as int]));
            let points = match grade_question(&questions[idx], &answer.selected_option_ids) {
                Ok((_, p)) => p,
                Err(_) => {
                    proof {
                        assert(lacks_correct_multi(answered_question(qs, ans[i as int])));
                        assert forall|k: int|
                            0 <= k <= ans.len() && (forall|j: int| 0 <= j < k ==> !lacks_correct_multi(#[trigger] answered_question(qs, ans[j])))
                            implies correct_answers(qs, #[trigger] ans.take(k)) <= i16::MAX by {
                            if k > i {
                                assert(!lacks_correct_multi(answered_question(qs, ans[i as int])));
                            }
                        }
                    }
                    return true;
                },
            };
            proof {
                let pre = ans.take(i as int + 1);
                assert(pre.drop_last() =~= ans.take(i as int));
                assert(pre.last() == ans[i as int]);
            }
            count = count + points as usize;
            if count > 32767 {
                proof {
                    assert forall|j: int| 0 <= j < i + 1 implies !lacks_correct_multi(#[trigger] answered_question(qs, ans[j])) by {}
                    assert(correct_answers(qs, ans.take(i as int + 1)) > i16::MAX);
                }
                return false;
            }
        }
        proof {
            assert(ans.take(n as int) =~= ans);
            assert forall|k: int|
                0 <= k <= ans.len() && (forall|j: int| 0 <= j < k ==> !lacks_correct_multi(#[trigger] answered_question(qs, ans[j])))
                implies correct_answers(qs, #[trigger] ans.take(k)) <= i16::MAX by {}
        }
        true
    }

    /// Records a graded attempt: passed exactly when the points earned reach
    /// the required score; a fresh random id; stamped with the current time.
    pub fn create_attempt(
        user_id: &str,
        quiz_id: &str,
        points_earned: i16,
        total_possible: i16,
        attempt_number: i16,
        required_score: i16,
        question_answers: Vec<QuizAttemptQuestion>,
    ) -> (a: QuizAttempt)
        ensures
            crate::clock::uuid_v4_text(a.id@),
            a.user_id@ == user_id@,
            a.quiz_id@ == quiz_id@,
            a.points_earned == points_earned,
            a.required_score == required_score,
            a.total_possible == total_possible,
            a.passed == (points_earned >= required_score),
            a.attempt_number == attempt_number,
            a.question_answers@ == question_answers@,
            a.created_at is Some,
            a.modified_at is Some,
    {
        let passed = points_earned >= required_score;
        QuizAttempt {
            id: new_uuid(),
            user_id: owned(user_id),
            quiz_id: owned(quiz_id),
            points_earned,
            required_score,
            total_possible,
            passed,
            attempt_number,
            question_answers,
            submitted_at: now_micros(),
            created_at: Some(now_micros()),
            modified_at: Some(now_micros()),
        }
    }
}

proof fn lemma_first_unknown_extends(om: Seq<OptionModel>, sel: Seq<Seq<char>>, j: int)
    requires
        0 <= j < sel.len(),
        first_unknown_option(om, sel.take(j)) is None,
        !has_option(om, sel[j]),
    ensures
        first_unknown_option(om, sel) == Some(sel[j]),
    decreases sel.len(),
{
    if j < sel.len() - 1 {
        assert(sel.drop_last().take(j) =~= sel.take(j));
        lemma_first_unknown_extends(om, sel.drop_last(), j);
    } else {
        assert(sel.drop_last() =~= sel.take(j));
    }
}

proof fn lemma_first_error_extends(qs: Seq<QuestionModel>, ans: Seq<AnswerModel>, i: int)
    requires
        0 <= i < ans.len(),
        first_answer_error(qs, ans.take(i)) is None,
        answer_error(qs, ans[i]) is Some,
    ensures
        first_answer_error(qs, ans) == answer_error(qs, ans[i]),
    decreases ans.len(),
{
    if i < ans.len() - 1 {
        assert(ans.drop_last().take(i) =~= ans.take(i));
        lemma_first_error_extends(qs, ans.drop_last(), i);
    } else {
        assert(ans.drop_last() =~= ans.take(i));
    }
}

/// Some option of `opts` with identifier `id` is marked correct.
pub open spec fn marked_correct(opts: Seq<OptionModel>, id: Seq<char>) -> bool {
    exists|k: int| 0 <= k < opts.len() && opts[k].id == id && #[trigger] opts[k].correct
}

proof fn lemma_correct_ids_are_correct_options(opts: Seq<OptionModel>, x: Seq<char>)
    ensures
        correct_option_ids(opts).contains(x) <==> marked_correct(opts, x),
    decreases opts.len(),
{
    if opts.len() > 0 {
        let p = opts.drop_last();
        lemma_correct_ids_are_correct_options(p, x);
        let c = correct_option_ids(p);
        if correct_option_ids(opts).contains(x) {
            if opts.last().correct && x == opts.last().id {
                assert(opts[opts.len() - 1].correct);
            } else {
                if opts.last().correct {
                    let i = choose|i: int| 0 <= i < c.push(opts.last().id).len() && c.push(opts.last().id)[i] == x;
                    assert(c[i] == x);
                }
                assert(c.contains(x));
                let k = choose|k: int| 0 <= k < p.len() && p[k].id == x && #[trigger] p[k].correct;
                assert(opts[k] == p[k]);
            }
        }
        if marked_correct(opts, x) {
            let k = choose|k: int| 0 <= k < opts.len() && opts[k].id == x && #[trigger] opts[k].correct;
            if k == opts.len() - 1 {
                assert(correct_option_ids(opts) == c.push(x));
                assert(c.push(x)[c.len() as int] == x);
            } else {
                assert(p[k] == opts[k]);
                assert(c.contains(x));
                let i = choose|i: int| 0 <= i < c.len() && c[i] == x;
                if opts.last().correct {
                    assert(c.push(opts.last().id)[i] == x);
                }
            }
        }
    }
}

/// `k` is the first option of `opts` marked correct.
pub open spec fn first_correct_at(opts: Seq<OptionModel>, k: int) -> bool {
    0 <= k < opts.len() && opts[k].correct && forall|m: int| 0 <= m < k ==> !(#[trigger] opts[m]).correct
}

proof fn lemma_first_correct_id(opts: Seq<OptionModel>)
    ensures
        correct_option_ids(opts).len() > 0 <==> exists|k: int| 0 <= k < opts.len() && #[trigger] opts[k].correct,
        correct_option_ids(opts).len() > 0 ==> exists|k: int|
            #[trigger] first_correct_at(opts, k) && correct_option_ids(opts)[0] == opts[k].id,
    decreases opts.len(),
{
    if opts.len() > 0 {
        let p = opts.drop_last();
        lemma_first_correct_id(p);
        let c = correct_option_ids(p);
        if c.len() > 0 {
            let k = choose|k: int| #[trigger] first_correct_at(p, k) && c[0] == p[k].id;
            assert(opts[k] == p[k]);
            assert forall|m: int| 0 <= m < k implies !(#[trigger] opts[m]).correct by {
                assert(opts[m] == p[m]);
            }
            assert(first_correct_at(opts, k));
            if opts.last().correct {
                assert(c.push(opts.last().id)[0] == c[0]);
            }
            let j = choose|j: int| 0 <= j < p.len() && #[trigger] p[j].correct;
            assert(opts[j] == p[j]);
        } else {
            assert(forall|j: int| 0 <= j < p.len() ==> !(#[trigger] p[j]).correct);
            if opts.last().correct {
                let k = opts.len() - 1;
                assert forall|m: int| 0 <= m < k implies !(#[trigger] opts[m]).correct by {
                    assert(opts[m] == p[m]);
                }
                assert(first_correct_at(opts, k));
                assert(c.push(opts.last().id)[0] == opts[k].id);
            } else {
                assert forall|j: int| 0 <= j < opts.len() implies !(#[trigger] opts[j]).correct by {
                    if j < p.len() {
                        assert(opts[j] == p[j]);
                    }
                }
            }
        }
    }
}

/// How a graded attempt scores each answer, in terms of the question's
/// options: an answer earns one point exactly when it is marked correct,
/// and the total is the number of answers marked correct. An answer to a
/// multi-choice question is correct exactly when every option it picks is
/// marked correct and every option marked correct is picked, so an answer
/// that picks an option not marked correct earns nothing; an answer to a
/// single-choice or true/false question is correct exactly when it picks
/// one option, the first one marked correct.
pub proof fn lemma_multi_choice_graded_correct(
    qs: Seq<QuestionModel>,
    answers: Seq<AnswerModel>,
    total: i16,
    results: Vec<QuizAttemptQuestion>,
    i: int,
)
    requires
        grading_outcome(qs, answers, Ok((total, results))),
        0 <= i < answers.len(),
    ensures
        results@.len() == answers.len(),
        results@[i]@.selected_option_ids == answers[i].selected_option_ids,
        results@[i]@.points_earned == (if results@[i]@.is_correct { 1i16 } else { 0i16 }),
        answered_question(qs, answers[i]).question_type == QuizQuestionType::Multi ==> (results@[i]@.is_correct <==> (
        forall|j: int|
            0 <= j < answers[i].selected_option_ids.len() ==> marked_correct(
                answered_question(qs, answers[i]).options,
                #[trigger] answers[i].selected_option_ids[j],
            )) && (forall|k: int|
            0 <= k < answered_question(qs, answers[i]).options.len() && #[trigger] answered_question(qs, answers[i]).options[k].correct
                ==> answers[i].selected_option_ids.contains(answered_question(qs, answers[i]).options[k].id))),
        answered_question(qs, answers[i]).question_type != QuizQuestionType::Multi ==> (results@[i]@.is_correct <==> (
        answers[i].selected_option_ids.len() == 1 && exists|k: int|
            #[trigger] first_correct_at(answered_question(qs, answers[i]).options, k)
                && answered_question(qs, answers[i]).options[k].id == answers[i].selected_option_ids[0])),
{
    let q = answered_question(qs, answers[i]);
    let sel = answers[i].selected_option_ids;
    let cids = correct_option_ids(q.options);
    assert(graded_as(q, answers[i], results@[i]@));
    if q.question_type == QuizQuestionType::Multi {
        if results@[i]@.is_correct {
            assert(is_correct_answer(q, sel));
            assert forall|j: int| 0 <= j < sel.len() implies marked_correct(q.options, #[trigger] sel[j]) by {
                assert(cids.contains(sel[j]));
                lemma_correct_ids_are_correct_options(q.options, sel[j]);
            }
            assert forall|k: int| 0 <= k < q.options.len() && #[trigger] q.options[k].correct implies sel.contains(q.options[k].id) by {
                lemma_correct_ids_are_correct_options(q.options, q.options[k].id);
                let m = choose|m: int| 0 <= m < cids.len() && cids[m] == q.options[k].id;
                assert(sel.contains(cids[m]));
            }
        } else {
            if (forall|j: int| 0 <= j < sel.len() ==> marked_correct(q.options, #[trigger] sel[j])) && (forall|k: int|
                0 <= k < q.options.len() && #[trigger] q.options[k].correct ==> sel.contains(q.options[k].id)) {
                assert forall|j: int| 0 <= j < sel.len() implies cids.contains(#[trigger] sel[j]) by {
                    lemma_correct_ids_are_correct_options(q.options, sel[j]);
                }
                assert forall|m: int| 0 <= m < cids.len() implies sel.contains(#[trigger] cids[m]) by {
                    assert(cids.contains(cids[m]));
                    lemma_correct_ids_are_correct_options(q.options, cids[m]);
                    let k = choose|k: int| 0 <= k < q.options.len() && q.options[k].id == cids[m] && #[trigger] q.options[k].correct;
                }
                assert(is_correct_answer(q, sel));
            }
        }
    } else {
        lemma_first_correct_id(q.options);
        if cids.len() > 0 {
            let k = choose|k: int| #[trigger] first_correct_at(q.options, k) && cids[0] == q.options[k].id;
            if sel.len() == 1 && exists|k2: int| #[trigger] first_correct_at(q.options, k2) && q.options[k2].id == sel[0] {
                let k2 = choose|k2: int| #[trigger] first_correct_at(q.options, k2) && q.options[k2].id == sel[0];
                if k < k2 {
                    assert(!q.options[k].correct);
                } else if k2 < k {
                    assert(!q.options[k2].correct);
                }
            }
        } else {
            if exists|k2: int| #[trigger] first_correct_at(q.options, k2) {
                let k2 = choose|k2: int| #[trigger] first_correct_at(q.options, k2);
                assert(q.options[k2].correct);
            }
        }
    }
}

} // verus!
