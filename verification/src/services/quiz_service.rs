use vstd::prelude::*;

use crate::errors::{AppError, AppResult, is_not_found, is_validation_error};
use crate::models::domain::quiz::{Quiz, QuizModel};
use crate::models::domain::quiz_question::{
    OptionModel, QuestionModel, QuizQuestion, QuizQuestionOption, options_model, questions_model,
};
use crate::models::dto::request::{
    OptionUpdateModel, QuestionUpdateModel, UpdateQuizInput, UpdateQuizQuestionInput,
    UpdateQuizQuestionOptionInput, option_updates_model, question_updates_model,
};
use crate::text::{concat3, copy_opt_string, copy_string, opt_string_model, owned};

use crate::models::dto::request::QuizDraftDto;
use crate::models::dto::response::{ApiResponse, CreateQuizDraftResponseData, QuizResponseDto};

verus! {

/// The value given, or the stored one when none is given.
pub open spec fn given_or<T>(given: Option<T>, stored: T) -> T {
    match given {
        Some(v) => v,
        None => stored,
    }
}

/// The position of the first option with identifier `id`, if any.
pub open spec fn first_option_index(opts: Seq<OptionModel>, id: Seq<char>) -> Option<int>
    decreases opts.len(),
{
    if opts.len() == 0 {
        None
    } else if opts[0].id == id {
        Some(0)
    } else {
        match first_option_index(opts.drop_first(), id) {
            Some(k) => Some(k + 1),
            None => None,
        }
    }
}

/// The position of the first question with identifier `id`, if any.
pub open spec fn first_question_index(qs: Seq<QuestionModel>, id: Seq<char>) -> Option<int>
    decreases qs.len(),
{
    if qs.len() == 0 {
        None
    } else if qs[0].id == id {
        Some(0)
    } else {
        match first_question_index(qs.drop_first(), id) {
            Some(k) => Some(k + 1),
            None => None,
        }
    }
}

/// An option with a change applied.
pub open spec fn updated_option(o: OptionModel, u: OptionUpdateModel) -> OptionModel {
    OptionModel {
        id: o.id,
        text: given_or(u.text, o.text),
        correct: given_or(u.correct, o.correct),
        explanation: given_or(u.explanation, o.explanation),
    }
}

/// The message for a change to an option the question does not have.
pub open spec fn option_missing_message(id: Seq<char>) -> Seq<char> {
    "Option with id '"@ + id + "' not found"@
}

/// The message for a change to a question the quiz does not have.
pub open spec fn question_missing_message(id: Seq<char>) -> Seq<char> {
    "Question with id '"@ + id + "' not found"@
}

/// The options that result from a list of changes: one per change, in the
/// order of the changes, each the first option with the change's id after
/// the change; the first change naming no option is reported instead.
pub open spec fn merged_options(opts: Seq<OptionModel>, ups: Seq<OptionUpdateModel>) -> Result<Seq<OptionModel>, Seq<char>>
    decreases ups.len(),
{
    if ups.len() == 0 {
        Ok(seq![])
    } else {
        match merged_options(opts, ups.drop_last()) {
            Err(m) => Err(m),
            Ok(r) => match first_option_index(opts, ups.last().id) {
                None => Err(option_missing_message(ups.last().id)),
                Some(k) => Ok(r.push(updated_option(opts[k], ups.last()))),
            },
        }
    }
}

/// A question with a change applied, stamped `now`.
pub open spec fn updated_question(q: QuestionModel, u: QuestionUpdateModel, now: i64) -> Result<QuestionModel, Seq<char>> {
    let options = match u.options {
        Some(ups) => merged_options(q.options, ups),
        None => Ok(q.options),
    };
    match options {
        Err(m) => Err(m),
        Ok(opts) => Ok(QuestionModel {
            title: given_or(u.title, q.title),
            description: given_or(u.description, q.description),
            options: opts,
            modified_at: Some(now),
            ..q
        }),
    }
}

/// The questions that result from a list of changes: one per change, in
/// the order of the changes; the first change that cannot be applied is
/// reported instead.
pub open spec fn merged_questions(qs: Seq<QuestionModel>, ups: Seq<QuestionUpdateModel>, now: i64) -> Result<Seq<QuestionModel>, Seq<char>>
    decreases ups.len(),
{
    if ups.len() == 0 {
        Ok(seq![])
    } else {
        match merged_questions(qs, ups.drop_last(), now) {
            Err(m) => Err(m),
            Ok(r) => match first_question_index(qs, ups.last().id) {
                None => Err(question_missing_message(ups.last().id)),
                Some(k) => match updated_question(qs[k], ups.last(), now) {
                    Err(m) => Err(m),
                    Ok(q) => Ok(r.push(q)),
                },
            },
        }
    }
}

proof fn lemma_first_option_index(opts: Seq<OptionModel>, id: Seq<char>, i: int)
    requires
        0 <= i < opts.len(),
        forall|j: int| 0 <= j < i ==> (#[trigger] opts[j]).id != id,
    ensures
        opts[i].id == id ==> first_option_index(opts, id) == Some(i),
        opts[i].id != id ==> first_option_index(opts, id) == (match first_option_index(opts.skip(i + 1), id) { Some(k) => Some(k + i + 1), None => None::<int> }),
    decreases i,
{
    if i > 0 {
        assert forall|j: int| 0 <= j < i - 1 implies (#[trigger] opts.drop_first()[j]).id != id by {
            assert(opts.drop_first()[j] == opts[j + 1]);
        }
        lemma_first_option_index(opts.drop_first(), id, i - 1);
        assert(opts.drop_first().skip(i) =~= opts.skip(i + 1));
    } else {
        assert(opts.drop_first() =~= opts.skip(1));
    }
}

proof fn lemma_first_question_index(qs: Seq<QuestionModel>, id: Seq<char>, i: int)
    requires
        0 <= i < qs.len(),
        forall|j: int| 0 <= j < i ==> (#[trigger] qs[j]).id != id,
    ensures
        qs[i].id == id ==> first_question_index(qs, id) == Some(i),
        opts_rest_question(qs, id, i),
    decreases i,
{
    if i > 0 {
        assert forall|j: int| 0 <= j < i - 1 implies (#[trigger] qs.drop_first()[j]).id != id by {
            assert(qs.drop_first()[j] == qs[j + 1]);
        }
        lemma_first_question_index(qs.drop_first(), id, i - 1);
        assert(qs.drop_first().skip(i) =~= qs.skip(i + 1));
    } else {
        assert(qs.drop_first() =~= qs.skip(1));
    }
}

spec fn opts_rest_question(qs: Seq<QuestionModel>, id: Seq<char>, i: int) -> bool {
    qs[i].id != id ==> first_question_index(qs, id) == (match first_question_index(qs.skip(i + 1), id) { Some(k) => Some(k + i + 1), None => None::<int> })
}

/// The position of the first option with identifier `id`.
fn find_first_option(opts: &Vec<QuizQuestionOption>, id: &String) -> (r: Option<usize>)
    ensures
        match r {
            Some(k) => first_option_index(options_model(opts@), id@) == Some(k as int) && k < opts@.len(),
            None => first_option_index(options_model(opts@), id@) is None,
        },
{
    let ghost om = options_model(opts@);
    for i in 0..opts.len()
        invariant
            om == options_model(opts@),
            forall|j: int| 0 <= j < i ==> (#[trigger] om[j]).id != id@,
    {
        proof { lemma_first_option_index(om, id@, i as int); }
        if opts[i].id == *id {
            return Some(i);
        }
    }
    proof { lemma_no_option(om, id@); }
    None
}

proof fn lemma_no_option(opts: Seq<OptionModel>, id: Seq<char>)
    requires
        forall|j: int| 0 <= j < opts.len() ==> (#[trigger] opts[j]).id != id,
    ensures
        first_option_index(opts, id) is None,
    decreases opts.len(),
{
    if opts.len() > 0 {
        assert forall|j: int| 0 <= j < opts.drop_first().len() implies (#[trigger] opts.drop_first()[j]).id != id by {
            assert(opts.drop_first()[j] == opts[j + 1]);
        }
        lemma_no_option(opts.drop_first(), id);
    }
}

proof fn lemma_no_question(qs: Seq<QuestionModel>, id: Seq<char>)
    requires
        forall|j: int| 0 <= j < qs.len() ==> (#[trigger] qs[j]).id != id,
    ensures
        first_question_index(qs, id) is None,
    decreases qs.len(),
{
    if qs.len() > 0 {
        assert forall|j: int| 0 <= j < qs.drop_first().len() implies (#[trigger] qs.drop_first()[j]).id != id by {
            assert(qs.drop_first()[j] == qs[j + 1]);
        }
        lemma_no_question(qs.drop_first(), id);
    }
}

/// The position of the first question with identifier `id`.
fn find_first_question(qs: &Vec<QuizQuestion>, id: &String) -> (r: Option<usize>)
    ensures
        match r {
            Some(k) => first_question_index(questions_model(qs@), id@) == Some(k as int) && k < qs@.len(),
            None => first_question_index(questions_model(qs@), id@) is None,
        },
{
    let ghost qm = questions_model(qs@);
    for i in 0..qs.len()
        invariant
            qm == questions_model(qs@),
            forall|j: int| 0 <= j < i ==> (#[trigger] qm[j]).id != id@,
    {
        proof { lemma_first_question_index(qm, id@, i as int); }
        if qs[i].id == *id {
            return Some(i);
        }
    }
    proof { lemma_no_question(qm, id@); }
    None
}

/// Applies option changes to a question's options.
fn merge_options(existing_question: &QuizQuestion, updates: &Vec<UpdateQuizQuestionOptionInput>) -> (r: AppResult<Vec<QuizQuestionOption>>)
    ensures
        match merged_options(existing_question@.options, option_updates_model(updates@)) {
            Ok(opts) => r matches Ok(v) && options_model(v@) == opts,
            Err(m) => is_not_found(r, m),
        },
{
    let ghost om = existing_question@.options;
    let ghost um = option_updates_model(updates@);
    let mut result: Vec<QuizQuestionOption> = Vec::new();
    assert(um.take(0) =~= Seq::<OptionUpdateModel>::empty());
    assert(options_model(result@) =~= Seq::<OptionModel>::empty());
    for i in 0..updates.len()
        invariant
            om == existing_question@.options,
            um == option_updates_model(updates@),
            merged_options(om, um.take(i as int)) == Ok::<Seq<OptionModel>, Seq<char>>(options_model(result@)),
    {
        let update = &updates[i];
        assert(um.take(i + 1).drop_last() =~= um.take(i as int));
        assert(um.take(i + 1).last() == update@);
        match find_first_option(&existing_question.options, &update.id) {
            Some(k) => {
                let existing_option = &existing_question.options[k];
                let mut merged = existing_option.copied();
                match &update.text {
                    Some(text) => { merged.text = copy_string(text); },
                    None => {},
                }
                match update.correct {
                    Some(correct) => { merged.correct = correct; },
                    None => {},
                }
                match &update.explanation {
                    Some(explanation) => { merged.explanation = copy_string(explanation); },
                    None => {},
                }
                let ghost before = options_model(result@);
                result.push(merged);
                assert(options_model(result@) =~= before.push(updated_option(om[k as int], update@)));
            },
            None => {
                proof {
                    reveal_strlit("Option with id '");
                    reveal_strlit("' not found");
                    lemma_merged_options_error_sticks(om, um, i as int);
                }
                return Err(AppError::NotFound(concat3("Option with id '", update.id.as_str(), "' not found")));
            },
        }
    }
    assert(um.take(updates.len() as int) =~= um);
    Ok(result)
}

proof fn lemma_merged_options_error_sticks(om: Seq<OptionModel>, um: Seq<OptionUpdateModel>, i: int)
    requires
        0 <= i < um.len(),
        merged_options(om, um.take(i + 1)) is Err,
    ensures
        merged_options(om, um) == merged_options(om, um.take(i + 1)),
    decreases um.len(),
{
    if i + 1 < um.len() {
        assert(um.drop_last().take(i + 1) =~= um.take(i + 1));
        lemma_merged_options_error_sticks(om, um.drop_last(), i);
    } else {
        assert(um.take(i + 1) =~= um);
    }
}

proof fn lemma_merged_questions_error_sticks(qm: Seq<QuestionModel>, um: Seq<QuestionUpdateModel>, now: i64, i: int)
    requires
        0 <= i < um.len(),
        merged_questions(qm, um.take(i + 1), now) is Err,
    ensures
        merged_questions(qm, um, now) == merged_questions(qm, um.take(i + 1), now),
    decreases um.len(),
{
    if i + 1 < um.len() {
        assert(um.drop_last().take(i + 1) =~= um.take(i + 1));
        lemma_merged_questions_error_sticks(qm, um.drop_last(), now, i);
    } else {
        assert(um.take(i + 1) =~= um);
    }
}

/// Applies question changes to a quiz's questions, stamping each changed
/// question with `now`.
fn merge_questions(existing: &Quiz, updates: &Vec<UpdateQuizQuestionInput>, now: i64) -> (r: AppResult<Vec<QuizQuestion>>)
    ensures
        existing.questions is None ==> is_validation_error(r, "Cannot update questions on quiz without existing questions"@),
        existing.questions is Some ==> match merged_questions(questions_model(existing.questions.unwrap()@), question_updates_model(updates@), now) {
            Ok(qs) => r matches Ok(v) && questions_model(v@) == qs,
            Err(m) => is_not_found(r, m),
        },
{
    let existing_questions = match &existing.questions {
        Some(qs) => qs,
        None => {
            proof { reveal_strlit("Cannot update questions on quiz without existing questions"); }
            return Err(AppError::ValidationError(owned("Cannot update questions on quiz without existing questions")));
        },
    };
    let ghost qm = questions_model(existing_questions@);
    let ghost um = question_updates_model(updates@);
    let mut result: Vec<QuizQuestion> = Vec::new();
    assert(um.take(0) =~= Seq::<QuestionUpdateModel>::empty());
    assert(questions_model(result@) =~= Seq::<QuestionModel>::empty());
    for i in 0..updates.len()
        invariant
            qm == questions_model(existing_questions@),
            um == question_updates_model(updates@),
            existing.questions == Some(*existing_questions),
            merged_questions(qm, um.take(i as int), now) == Ok::<Seq<QuestionModel>, Seq<char>>(questions_model(result@)),
    {
        let update = &updates[i];
        assert(um.take(i + 1).drop_last() =~= um.take(i as int));
        assert(um.take(i + 1).last() == update@);
        match find_first_question(existing_questions, &update.id) {
            Some(k) => {
                let existing_question = &existing_questions[k];
                assert(qm[k as int] == existing_question@);
                let mut merged = existing_question.copied();
                match &update.title {
                    Some(title) => { merged.title = copy_string(title); },
                    None => {},
                }
                match &update.description {
                    Some(description) => { merged.description = copy_string(description); },
                    None => {},
                }
                match &update.options {
                    Some(options_input) => {
                        match merge_options(existing_question, options_input) {
                            Ok(merged_options) => { merged.options = merged_options; },
                            Err(e) => {
                                proof { lemma_merged_questions_error_sticks(qm, um, now, i as int); }
                                return Err(e);
                            },
                        }
                    },
                    None => {},
                }
                merged.modified_at = Some(now);
                let ghost before = questions_model(result@);
                result.push(merged);
                assert(questions_model(result@) =~= before.push(updated_question(qm[k as int], update@, now)->Ok_0));
            },
            None => {
                proof {
                    reveal_strlit("Question with id '");
                    reveal_strlit("' not found");
                    lemma_merged_questions_error_sticks(qm, um, now, i as int);
                }
                return Err(AppError::NotFound(concat3("Question with id '", update.id.as_str(), "' not found")));
            },
        }
    }
    assert(um.take(updates.len() as int) =~= um);
    Ok(result)
}

/// The quiz that results from a partial change, stamped `now`.
pub open spec fn updated_quiz(q: QuizModel, title: Option<Seq<char>>, description: Option<Seq<char>>, questions: Option<Seq<QuestionModel>>, now: i64) -> QuizModel {
    QuizModel {
        title: match title { Some(t) => Some(t), None => q.title },
        description: match description { Some(d) => Some(d), None => q.description },
        questions: match questions { Some(qs) => Some(qs), None => q.questions },
        modified_at: Some(now),
        ..q
    }
}

/// Applies a partial change to a stored quiz at time `now`: a given title
/// or description replaces the stored one; a given list of question changes
/// replaces the questions with the changed questions (the quiz must have
/// questions, and every change must name a question and options it has).
pub fn apply_quiz_update(quiz: Quiz, input: &UpdateQuizInput, now: i64) -> (r: AppResult<Quiz>)
    ensures
        match input.questions {
            None => r matches Ok(q) && q@ == updated_quiz(quiz@, opt_string_model(input.title), opt_string_model(input.description), None, now),
            Some(ups) => match quiz.questions {
                None => is_validation_error(r, "Cannot update questions on quiz without existing questions"@),
                Some(qs) => match merged_questions(questions_model(qs@), question_updates_model(ups@), now) {
                    Ok(new_qs) => r matches Ok(q) && q@ == updated_quiz(quiz@, opt_string_model(input.title), opt_string_model(input.description), Some(new_qs), now),
                    Err(m) => is_not_found(r, m),
                },
            },
        },
{
    let mut quiz = quiz;
    match &input.title {
        Some(title) => { quiz.title = Some(copy_string(title)); },
        None => {},
    }
    match &input.description {
        Some(description) => { quiz.description = Some(copy_string(description)); },
        None => {},
    }
    match &input.questions {
        Some(questions_input) => {
            let merged = merge_questions(&quiz, questions_input, now)?;
            quiz.questions = Some(merged);
        },
        None => {},
    }
    quiz.modified_at = Some(now);
    Ok(quiz)
}

/// A new draft quiz from a request, owned by `user_id`.
pub fn draft_from_request(request: &QuizDraftDto, user_id: &str) -> (q: Quiz)
    ensures
        q.name@ == request.name@,
        q.created_by_user_id@ == user_id@,
        q.question_count == request.question_count,
        q.required_score == request.required_score,
        q.attempt_limit == request.attempt_limit,
        q.url@ == request.url@,
        q.status == crate::models::domain::quiz::QuizStatus::Draft,
        crate::clock::uuid_v4_text(q.id@),
        q.title is None,
        q.description is None,
        q.topic is None,
        q.questions is None,
        q.created_at is Some,
        q.modified_at is Some,
{
    Quiz::new_draft(
        request.name.as_str(),
        user_id,
        request.question_count,
        request.required_score,
        request.attempt_limit,
        request.url.as_str(),
    )
}

/// What creating a draft answers: the stored draft and the job that
/// fills it.
pub fn draft_created_response(quiz: Quiz, job_id: String) -> (r: ApiResponse<CreateQuizDraftResponseData>)
    ensures
        crate::models::dto::response::quiz_response_of(r.data.quiz, quiz),
        r.data.job_id == job_id,
        r.message@ == "Draft created successfully and processing started"@,
{
    ApiResponse {
        data: CreateQuizDraftResponseData { quiz: QuizResponseDto::from(quiz), job_id },
        message: crate::text::owned("Draft created successfully and processing started"),
    }
}

/// The refusal of a quiz that is not stored.
pub fn quiz_not_found(id: &str) -> (e: AppError)
    ensures
        e matches AppError::NotFound(m) && m@ == "Quiz with id '"@ + id@ + "' not found"@,
{
    AppError::NotFound(crate::text::concat3("Quiz with id '", id, "' not found"))
}

/// A quiz ready to be stored: a missing timestamp is set to `now`.
pub fn stamped(quiz: Quiz, now: i64) -> (q: Quiz)
    ensures
        q@ == (crate::models::domain::quiz::QuizModel {
            created_at: Some(match quiz.created_at { Some(t) => t, None => now }),
            modified_at: Some(match quiz.modified_at { Some(t) => t, None => now }),
            ..quiz@
        }),
{
    let mut quiz = quiz;
    if quiz.created_at.is_none() {
        quiz.created_at = Some(now);
    }
    if quiz.modified_at.is_none() {
        quiz.modified_at = Some(now);
    }
    quiz
}

proof fn lemma_first_option_found(opts: Seq<OptionModel>, id: Seq<char>)
    ensures
        first_option_index(opts, id) matches Some(k) ==> 0 <= k < opts.len() && opts[k].id == id && forall|m: int|
            0 <= m < k ==> (#[trigger] opts[m]).id != id,
    decreases opts.len(),
{
    if opts.len() > 0 && opts[0].id != id {
        lemma_first_option_found(opts.drop_first(), id);
        if first_option_index(opts, id) is Some {
            let k = first_option_index(opts.drop_first(), id)->Some_0;
            assert forall|m: int| 0 <= m < k + 1 implies (#[trigger] opts[m]).id != id by {
                if m > 0 {
                    assert(opts[m] == opts.drop_first()[m - 1]);
                }
            }
            assert(opts[k + 1] == opts.drop_first()[k]);
        }
    }
}

/// `o` is the first option of `opts` with the id of the change `u`, with
/// every field the change gives set to exactly that value and every field
/// it leaves out as it was.
pub open spec fn change_applied(opts: Seq<OptionModel>, u: OptionUpdateModel, o: OptionModel) -> bool {
    exists|k: int|
        #![trigger opts[k]]
        0 <= k < opts.len() && opts[k].id == u.id && (forall|m: int| 0 <= m < k ==> (#[trigger] opts[m]).id != u.id)
            && o.id == u.id && o.text == (match u.text {
            Some(t) => t,
            None => opts[k].text,
        }) && o.correct == (match u.correct {
            Some(c) => c,
            None => opts[k].correct,
        }) && o.explanation == (match u.explanation {
            Some(e) => e,
            None => opts[k].explanation,
        })
}

/// Applying option changes gives one option per change, in the order of
/// the changes, each the changed option (see [`change_applied`]): a text,
/// correctness or explanation the change gives is exactly what the option
/// then has.
pub proof fn lemma_option_changes_applied(opts: Seq<OptionModel>, ups: Seq<OptionUpdateModel>, r: Seq<OptionModel>)
    requires
        merged_options(opts, ups) == Ok::<Seq<OptionModel>, Seq<char>>(r),
    ensures
        r.len() == ups.len(),
        forall|i: int| 0 <= i < ups.len() ==> change_applied(opts, ups[i], #[trigger] r[i]),
    decreases ups.len(),
{
    if ups.len() > 0 {
        let rest = merged_options(opts, ups.drop_last())->Ok_0;
        lemma_option_changes_applied(opts, ups.drop_last(), rest);
        let u = ups.last();
        lemma_first_option_found(opts, u.id);
        let k = first_option_index(opts, u.id)->Some_0;
        assert(r == rest.push(updated_option(opts[k], u)));
        assert forall|i: int| 0 <= i < ups.len() implies change_applied(opts, ups[i], #[trigger] r[i]) by {
            if i < ups.len() - 1 {
                assert(ups.drop_last()[i] == ups[i]);
                assert(r[i] == rest[i]);
            } else {
                assert(ups[i] == u);
                assert(r[i] == updated_option(opts[k], u));
                assert(opts[k].id == u.id);
            }
        }
    } else {
        assert(r =~= Seq::<OptionModel>::empty());
    }
}

} // verus!
