use vstd::prelude::*;

use crate::clock::new_uuid;
use crate::json::{get_str, str_field, JsonMap, JsonValue};
use crate::models::domain::quiz::{Quiz, QuizModel, QuizStatus};
use crate::models::domain::quiz_question::{options_model, OptionModel, QuizQuestionOption};
use crate::models::dto::quiz_dto::{or_empty, quiz_of_dto, QuizDto};
use crate::models::dto::request::{
    instant_text, options_json, options_to_json, quiz_from_request, question_requests_model, status_name,
    status_string, GenerateQuizQuestionOptionRequestDto, GenerateQuizQuestionRequestDto, GenerateQuizRequestDto,
    QuestionRequestModel, QuizQuestionRequestDto, QuizRequestDto, QuizRequestModel,
};
use crate::models::domain::summary_document::optional_instant_text;
use crate::text::{ascii_lower, copy_string, opt_string_model, owned, signed_decimal, str_eq, trim};

verus! {

/// The kinds of step a quiz generation job runs.
#[derive(Debug, Clone, Copy, PartialEq, Eq, Structural)]
pub enum JobStepType {
    CreateQuizDraft,
    CreateSummaryDocument,
    CreateQuizQuestions,
    FinalizeQuiz,
}

/// The step kind a step name denotes, if any.
pub open spec fn step_type_of(name: Seq<char>) -> Option<JobStepType> {
    if name == "create_quiz_draft"@ {
        Some(JobStepType::CreateQuizDraft)
    } else if name == "create_summary_document"@ {
        Some(JobStepType::CreateSummaryDocument)
    } else if name == "create_quiz_questions"@ {
        Some(JobStepType::CreateQuizQuestions)
    } else if name == "finalize_quiz"@ {
        Some(JobStepType::FinalizeQuiz)
    } else {
        None
    }
}

impl JobStepType {
    /// The step kind named `name`; unknown names give `None`.
    pub fn from_step_name(name: &str) -> (r: Option<Self>)
        ensures
            r == step_type_of(name@),
    {
        if str_eq(name, "create_quiz_draft") {
            Some(JobStepType::CreateQuizDraft)
        } else if str_eq(name, "create_summary_document") {
            Some(JobStepType::CreateSummaryDocument)
        } else if str_eq(name, "create_quiz_questions") {
            Some(JobStepType::CreateQuizQuestions)
        } else if str_eq(name, "finalize_quiz") {
            Some(JobStepType::FinalizeQuiz)
        } else {
            None
        }
    }

    /// The step name of this kind; `from_step_name` maps it back.
    pub fn step_name(self) -> (s: &'static str)
        ensures
            step_type_of(s@) == Some(self),
    {
        proof {
            reveal_strlit("create_quiz_draft");
            reveal_strlit("create_summary_document");
            reveal_strlit("create_quiz_questions");
            reveal_strlit("finalize_quiz");
            assert("create_quiz_draft"@.len() == 17);
            assert("create_summary_document"@.len() == 23);
            assert("create_quiz_questions"@.len() == 21);
            assert("finalize_quiz"@.len() == 13);
            assert("create_summary_document"@ != "create_quiz_draft"@);
            assert("create_quiz_questions"@ != "create_quiz_draft"@);
            assert("create_quiz_questions"@ != "create_summary_document"@);
            assert("finalize_quiz"@ != "create_quiz_draft"@);
            assert("finalize_quiz"@ != "create_summary_document"@);
            assert("finalize_quiz"@ != "create_quiz_questions"@);
        }
        match self {
            JobStepType::CreateQuizDraft => "create_quiz_draft",
            JobStepType::CreateSummaryDocument => "create_summary_document",
            JobStepType::CreateQuizQuestions => "create_quiz_questions",
            JobStepType::FinalizeQuiz => "finalize_quiz",
        }
    }
}

/// Runs the steps of quiz generation jobs; what follows are the parts of
/// each step that decide, between the calls to storage and models.
#[derive(Debug)]
pub struct StepHandler;

/// The text of the step result under `key`, or why it is missing.
pub open spec fn result_text(results: Map<Seq<char>, JsonValue>, key: Seq<char>) -> Option<Seq<char>> {
    if results.contains_key(key) {
        match results[key] {
            JsonValue::Str(s) => Some(s@),
            _ => None,
        }
    } else {
        None
    }
}

/// Whether a JSON value is a single value rather than a list or an object.
pub open spec fn is_scalar(v: JsonValue) -> bool {
    !(v is Array) && !(v is Object)
}

fn copy_scalar(v: &JsonValue) -> (r: Option<JsonValue>)
    ensures
        is_scalar(*v) ==> r == Some(*v),
        !is_scalar(*v) ==> r is None,
{
    match v {
        JsonValue::Null => Some(JsonValue::Null),
        JsonValue::Bool(b) => Some(JsonValue::Bool(*b)),
        JsonValue::Number(n) => Some(JsonValue::Number(n.clone())),
        JsonValue::Str(t) => Some(JsonValue::Str(t.clone())),
        _ => None,
    }
}

/// The mathematical content of a generated option.
pub struct GenOptionModel {
    pub text: Seq<char>,
    pub correct: Seq<char>,
    pub explanation: Seq<char>,
}

/// The mathematical content of a generated question.
pub struct GenQuestionModel {
    pub title: Seq<char>,
    pub description: Seq<char>,
    pub question_type: Seq<char>,
    pub options: Seq<GenOptionModel>,
}

impl View for GenerateQuizQuestionOptionRequestDto {
    type V = GenOptionModel;

    open spec fn view(&self) -> GenOptionModel {
        GenOptionModel { text: self.option_text@, correct: self.option_correct@, explanation: self.option_explanation@ }
    }
}

impl View for GenerateQuizQuestionRequestDto {
    type V = GenQuestionModel;

    open spec fn view(&self) -> GenQuestionModel {
        GenQuestionModel {
            title: self.question_title@,
            description: self.question_description@,
            question_type: self.question_type@,
            options: self.question_options@.map_values(|o: GenerateQuizQuestionOptionRequestDto| o@),
        }
    }
}

/// The models of generated questions.
pub open spec fn generated_model(v: Seq<GenerateQuizQuestionRequestDto>) -> Seq<GenQuestionModel> {
    v.map_values(|q: GenerateQuizQuestionRequestDto| q@)
}

/// The identifiers of the options of each question.
pub open spec fn ids_model(v: Seq<Vec<String>>) -> Seq<Seq<Seq<char>>> {
    v.map_values(|w: Vec<String>| crate::text::strings_model(w@))
}

/// Whether a generated option's text says it is correct: `true`, trimmed,
/// in any ASCII case.
pub open spec fn says_true(s: Seq<char>) -> bool {
    ascii_lower(trim(s)) == "true"@
}

/// A generated option with its identifier.
pub open spec fn option_of_generated(g: GenOptionModel, id: Seq<char>) -> OptionModel {
    OptionModel { id, text: g.text, correct: says_true(g.correct), explanation: g.explanation }
}

/// The options of a generated question, with their identifiers.
pub open spec fn options_of_generated(gs: Seq<GenOptionModel>, ids: Seq<Seq<char>>) -> Seq<OptionModel> {
    Seq::new(gs.len(), |i: int| option_of_generated(gs[i], ids[i]))
}

/// The text form of a generated question: its identifier, texts and type
/// as generated, its options as JSON, its place (from one) as order, the
/// quiz's attempt limit and topic, and `now` as both timestamps.
pub open spec fn request_of_generated(
    g: GenQuestionModel,
    id: Seq<char>,
    option_ids: Seq<Seq<char>>,
    order: int,
    quiz: QuizModel,
    now_text: Seq<char>,
) -> QuestionRequestModel {
    let opts = options_of_generated(g.options, option_ids);
    QuestionRequestModel {
        id,
        title: g.title,
        description: g.description,
        question_type: g.question_type,
        options: options_json(opts),
        option_count: signed_decimal((opts.len() as i16) as int),
        order: signed_decimal((order as i16) as int),
        attempt_limit: signed_decimal(quiz.attempt_limit as int),
        topic: or_empty(quiz.topic),
        created_at: now_text,
        modified_at: now_text,
    }
}

/// The text form of a quiz with generated questions in place of its own.
pub open spec fn finalize_request(
    quiz: QuizModel,
    gs: Seq<GenQuestionModel>,
    ids: Seq<Seq<char>>,
    option_ids: Seq<Seq<Seq<char>>>,
    now: i64,
) -> QuizRequestModel {
    QuizRequestModel {
        id: quiz.id,
        name: quiz.name,
        created_by_user_id: quiz.created_by_user_id,
        title: or_empty(quiz.title),
        description: or_empty(quiz.description),
        question_count: signed_decimal(quiz.question_count as int),
        required_score: signed_decimal(quiz.required_score as int),
        attempt_limit: signed_decimal(quiz.attempt_limit as int),
        topic: or_empty(quiz.topic),
        status: status_name(quiz.status),
        questions: Seq::new(gs.len(), |i: int| request_of_generated(gs[i], ids[i], option_ids[i], i + 1, quiz, instant_text(now))),
        url: quiz.url,
        created_at: optional_instant_text(quiz.created_at),
        modified_at: optional_instant_text(quiz.modified_at),
    }
}

/// The quiz once finalized with `generated`: ready, modified at `now`,
/// with the questions, title and description read back from its text form.
pub open spec fn finalized(quiz: QuizModel, generated: QuizModel, now: i64) -> QuizModel {
    QuizModel {
        status: QuizStatus::Ready,
        modified_at: Some(now),
        questions: generated.questions,
        title: generated.title,
        description: generated.description,
        ..quiz
    }
}

/// The outcome of finalizing a quiz with generated questions.
pub open spec fn finalize_outcome(
    quiz: QuizModel,
    gs: Seq<GenQuestionModel>,
    ids: Seq<Seq<char>>,
    option_ids: Seq<Seq<Seq<char>>>,
    now: i64,
) -> Result<QuizModel, Seq<char>> {
    match quiz_from_request(finalize_request(quiz, gs, ids, option_ids, now), now) {
        Err(e) => Err("Failed to validate quiz from job results: "@ + e),
        Ok(d) => Ok(finalized(quiz, quiz_of_dto(d), now)),
    }
}

fn says_true_exec(s: &str) -> (b: bool)
    ensures
        b == says_true(s@),
{
    let t = crate::text::trimmed(s);
    let v = crate::text::chars_of(t.as_str());
    let lowered = crate::text::lower_range(&v, 0, v.len());
    assert(v@.subrange(0, v@.len() as int) =~= v@);
    str_eq(lowered.as_str(), "true")
}

fn generated_question_request(
    g: &GenerateQuizQuestionRequestDto,
    id: String,
    option_ids: &Vec<String>,
    order: usize,
    quiz: &Quiz,
    now_text: &String,
) -> (r: QuizQuestionRequestDto)
    requires
        option_ids@.len() == g.question_options@.len(),
    ensures
        r@ == request_of_generated(g@, id@, crate::text::strings_model(option_ids@), order as int, quiz@, now_text@),
{
    let ghost gm = g@;
    let mut options: Vec<QuizQuestionOption> = Vec::new();
    for i in 0..g.question_options.len()
        invariant
            option_ids@.len() == g.question_options@.len(),
            gm == g@,
            options@.len() == i,
            forall|j: int| 0 <= j < i ==> (#[trigger] options@[j])@ == option_of_generated(gm.options[j], option_ids@[j]@),
    {
        let o = &g.question_options[i];
        let correct = says_true_exec(o.option_correct.as_str());
        options.push(
            QuizQuestionOption {
                id: copy_string(&option_ids[i]),
                text: copy_string(&o.option_text),
                correct,
                explanation: copy_string(&o.option_explanation),
            },
        );
    }
    assert(options_model(options@) =~= options_of_generated(gm.options, crate::text::strings_model(option_ids@)));
    let count = options.len() as i16;
    let json = options_to_json(&options);
    QuizQuestionRequestDto {
        id,
        title: copy_string(&g.question_title),
        description: copy_string(&g.question_description),
        question_type: copy_string(&g.question_type),
        options: json,
        option_count: crate::text::signed_decimal_string(count as i64),
        order: crate::text::signed_decimal_string((order as i16) as i64),
        attempt_limit: crate::text::signed_decimal_string(quiz.attempt_limit as i64),
        topic: match &quiz.topic {
            Some(t) => copy_string(t),
            None => String::new(),
        },
        created_at: copy_string(now_text),
        modified_at: copy_string(now_text),
    }
}

fn optional_text(s: &Option<String>) -> (r: String)
    ensures
        r@ == or_empty(opt_string_model(*s)),
{
    match s {
        Some(t) => copy_string(t),
        None => String::new(),
    }
}

fn optional_instant(t: Option<i64>) -> (r: String)
    ensures
        r@ == optional_instant_text(t),
{
    match t {
        Some(x) => match crate::models::dto::request::format_rfc3339(x) {
            Some(v) => v,
            None => String::new(),
        },
        None => String::new(),
    }
}

impl StepHandler {
    /// The quiz id a job carries in its results, which must be text.
    pub fn quiz_id_of(results: &JsonMap) -> (r: Result<String, String>)
        ensures
            match result_text(results@, "quiz_id"@) {
                Some(id) => r matches Ok(s) && s@ == id,
                None => r matches Err(m) && m@ == "Invalid or missing quiz_id in job results"@,
            },
    {
        match results.get("quiz_id") {
            Some(JsonValue::Str(s)) => Ok(copy_string(s)),
            _ => Err(owned("Invalid or missing quiz_id in job results")),
        }
    }

    /// The summary id a job carries in its results, which must be text.
    pub fn summary_id_of(results: &JsonMap) -> (r: Result<String, String>)
        ensures
            match result_text(results@, "summary_id"@) {
                Some(id) => r matches Ok(s) && s@ == id,
                None => r matches Err(m) && m@ == "Invalid or missing summary_id in job results"@,
            },
    {
        match results.get("summary_id") {
            Some(JsonValue::Str(s)) => Ok(copy_string(s)),
            _ => Err(owned("Invalid or missing summary_id in job results")),
        }
    }

    /// The result of the draft step: the draft's status and the quiz id the
    /// job carries, which must be present (as a single value).
    pub fn draft_step_result(results: &JsonMap) -> (r: Result<JsonValue, String>)
        ensures
            results@.contains_key("quiz_id"@) && is_scalar(results@["quiz_id"@]) ==> (r matches Ok(JsonValue::Object(m))
                && m@.dom() == set!["status"@, "quiz_id"@]
                && m@["quiz_id"@] == results@["quiz_id"@]
                && str_field(JsonValue::Object(m), "status"@) == Some("quiz_draft_created"@)),
            !results@.contains_key("quiz_id"@) ==> (r matches Err(m) && m@ == "Quiz ID not found in job results"@),
            results@.contains_key("quiz_id"@) && !is_scalar(results@["quiz_id"@]) ==> (r matches Err(m)
                && m@ == "Quiz ID is not a single value"@),
    {
        let id = match results.get("quiz_id") {
            Some(v) => match copy_scalar(v) {
                Some(c) => c,
                None => {
                    return Err(owned("Quiz ID is not a single value"));
                },
            },
            None => {
                return Err(owned("Quiz ID not found in job results"));
            },
        };
        let ghost idv = id;
        let mut m = JsonMap::new();
        m.insert(owned("status"), JsonValue::Str(owned("quiz_draft_created")));
        m.insert(owned("quiz_id"), id);
        proof {
            reveal_strlit("status");
            reveal_strlit("quiz_id");
            assert("status"@.len() == 6 && "quiz_id"@.len() == 7);
            assert("status"@ != "quiz_id"@);
            assert(m@.dom() =~= set!["status"@, "quiz_id"@]);
        }
        Ok(JsonValue::Object(m))
    }

    /// The result of the summary step: the id of the stored summary.
    pub fn summary_step_result(summary_id: String) -> (r: JsonValue)
        ensures
            r matches JsonValue::Object(m) && m@.dom() == set!["summary_id"@],
            str_field(r, "summary_id"@) == Some(summary_id@),
    {
        let mut m = JsonMap::new();
        m.insert(owned("summary_id"), JsonValue::Str(summary_id));
        assert(m@.dom() =~= set!["summary_id"@]);
        JsonValue::Object(m)
    }

    /// The result of the finalize step: the step's status and the status the
    /// quiz now has.
    pub fn finalize_step_result() -> (r: JsonValue)
        ensures
            r matches JsonValue::Object(m) && m@.dom() == set!["status"@, "quiz_status"@],
            str_field(r, "status"@) == Some("quiz_finalized"@),
            str_field(r, "quiz_status"@) == Some("ready"@),
    {
        let mut m = JsonMap::new();
        m.insert(owned("status"), JsonValue::Str(owned("quiz_finalized")));
        m.insert(owned("quiz_status"), JsonValue::Str(owned("ready")));
        proof {
            reveal_strlit("status");
            reveal_strlit("quiz_status");
            assert("status"@.len() == 6 && "quiz_status"@.len() == 11);
            assert("status"@ != "quiz_status"@);
            assert(m@.dom() =~= set!["status"@, "quiz_status"@]);
        }
        JsonValue::Object(m)
    }

    /// The result of the question step: its status and the model's answer.
    pub fn questions_step_result(response: JsonValue) -> (r: JsonValue)
        ensures
            r matches JsonValue::Object(m) && m@.dom() == set!["status"@, "response"@] && m@["response"@] == response
                && str_field(r, "status"@) == Some("quiz_fields_generated"@),
    {
        let ghost resp = response;
        let mut m = JsonMap::new();
        m.insert(owned("status"), JsonValue::Str(owned("quiz_fields_generated")));
        m.insert(owned("response"), response);
        proof {
            reveal_strlit("status");
            reveal_strlit("response");
            assert("status"@.len() == 6 && "response"@.len() == 8);
            assert("status"@ != "response"@);
            assert(m@.dom() =~= set!["status"@, "response"@]);
        }
        JsonValue::Object(m)
    }

    /// Finalizes a quiz with generated questions, given the identifiers of
    /// the new questions and of their options: the quiz is written in text
    /// form with the generated questions (numbered from one, `now` as their
    /// timestamps), read back, and made ready with what was read.
    pub fn finalized_quiz_with_ids(
        quiz: Quiz,
        generated: &GenerateQuizRequestDto,
        question_ids: Vec<String>,
        option_ids: &Vec<Vec<String>>,
        now: i64,
    ) -> (r: Result<Quiz, String>)
        requires
            question_ids@.len() == generated.quiz_questions@.len(),
            option_ids@.len() == generated.quiz_questions@.len(),
            forall|i: int| 0 <= i < option_ids@.len() ==> (#[trigger] option_ids@[i])@.len() == generated.quiz_questions@[i].question_options@.len(),
        ensures
            match finalize_outcome(
                quiz@,
                generated_model(generated.quiz_questions@),
                crate::text::strings_model(question_ids@),
                ids_model(option_ids@),
                now,
            ) {
                Ok(q) => r matches Ok(x) && x@ == q,
                Err(e) => r matches Err(m) && m@ == e,
            },
            r matches Ok(x) ==> x.status == QuizStatus::Ready,
    {
        let ghost qm = quiz@;
        let ghost gs = generated_model(generated.quiz_questions@);
        let ghost ids = crate::text::strings_model(question_ids@);
        let ghost oids = ids_model(option_ids@);
        let now_text = match crate::models::dto::request::format_rfc3339(now) {
            Some(t) => t,
            None => String::new(),
        };
        assert(now_text@ == instant_text(now));
        let mut questions: Vec<QuizQuestionRequestDto> = Vec::new();
        let mut qids = question_ids;
        let _n = qids.len();
        let ghost all_ids = qids@;
        let mut k: usize = 0;
        while k < generated.quiz_questions.len()
            invariant
                k <= generated.quiz_questions@.len(),
                qids@ == all_ids.skip(k as int),
                all_ids.len() == generated.quiz_questions@.len(),
                ids == crate::text::strings_model(all_ids),
                option_ids@.len() == generated.quiz_questions@.len(),
                forall|i: int| 0 <= i < option_ids@.len() ==> (#[trigger] option_ids@[i])@.len() == generated.quiz_questions@[i].question_options@.len(),
                gs == generated_model(generated.quiz_questions@),
                oids == ids_model(option_ids@),
                qm == quiz@,
                questions@.len() == k,
                forall|j: int| 0 <= j < k ==> (#[trigger] questions@[j])@ == request_of_generated(gs[j], ids[j], oids[j], j + 1, qm, now_text@),
            decreases generated.quiz_questions@.len() - k,
        {
            let id = qids.remove(0);
            assert(id == all_ids[k as int]);
            assert(qids@ =~= all_ids.skip(k + 1));
            let req = generated_question_request(&generated.quiz_questions[k], id, &option_ids[k], k + 1, &quiz, &now_text);
            questions.push(req);
            k += 1;
        }
        let request = QuizRequestDto {
            id: copy_string(&quiz.id),
            name: copy_string(&quiz.name),
            created_by_user_id: copy_string(&quiz.created_by_user_id),
            title: optional_text(&quiz.title),
            description: optional_text(&quiz.description),
            question_count: crate::text::signed_decimal_string(quiz.question_count as i64),
            required_score: crate::text::signed_decimal_string(quiz.required_score as i64),
            attempt_limit: crate::text::signed_decimal_string(quiz.attempt_limit as i64),
            topic: optional_text(&quiz.topic),
            status: status_string(quiz.status),
            questions,
            url: copy_string(&quiz.url),
            created_at: optional_instant(quiz.created_at),
            modified_at: optional_instant(quiz.modified_at),
        };
        assert(question_requests_model(request.questions@) =~= finalize_request(qm, gs, ids, oids, now).questions);
        assert(request@ == finalize_request(qm, gs, ids, oids, now));
        let dto = match QuizDto::try_from_request_at(request, now) {
            Ok(d) => d,
            Err(e) => {
                let msg = match e {
                    crate::errors::AppError::ValidationError(m) => m,
                    _ => String::new(),
                };
                return Err(crate::text::concat2("Failed to validate quiz from job results: ", msg.as_str()));
            },
        };
        let new_quiz = match Quiz::try_from(dto) {
            Ok(q) => q,
            Err(_) => {
                return Err(owned("Failed to parse quiz"));
            },
        };
        let mut quiz = quiz;
        quiz.status = QuizStatus::Ready;
        quiz.modified_at = Some(now);
        quiz.questions = new_quiz.questions;
        quiz.title = new_quiz.title;
        quiz.description = new_quiz.description;
        Ok(quiz)
    }

    /// Finalizes a quiz with generated questions, each question and option
    /// getting a fresh random identifier (a version 4 UUID), at `now`.
    pub fn finalized_quiz(quiz: Quiz, generated: &GenerateQuizRequestDto, now: i64) -> (r: Result<Quiz, String>)
        ensures
            exists|ids: Seq<Seq<char>>, option_ids: Seq<Seq<Seq<char>>>|
                #![trigger finalize_outcome(quiz@, generated_model(generated.quiz_questions@), ids, option_ids, now)]
                {
                    &&& forall|i: int| 0 <= i < ids.len() ==> crate::clock::uuid_v4_text(#[trigger] ids[i])
                    &&& forall|i: int, j: int|
                        0 <= i < option_ids.len() && 0 <= j < option_ids[i].len()
                            ==> crate::clock::uuid_v4_text(#[trigger] option_ids[i][j])
                    &&& match finalize_outcome(
                        quiz@,
                        generated_model(generated.quiz_questions@),
                        ids,
                        option_ids,
                        now,
                    ) {
                        Ok(q) => r matches Ok(x) && x@ == q,
                        Err(e) => r matches Err(m) && m@ == e,
                    }
                },
            r matches Ok(x) ==> x.status == QuizStatus::Ready,
    {
        let mut question_ids: Vec<String> = Vec::new();
        let mut option_ids: Vec<Vec<String>> = Vec::new();
        for i in 0..generated.quiz_questions.len()
            invariant
                question_ids@.len() == i,
                option_ids@.len() == i,
                forall|j: int| 0 <= j < i ==> (#[trigger] option_ids@[j])@.len() == generated.quiz_questions@[j].question_options@.len(),
                forall|j: int| 0 <= j < i ==> crate::clock::uuid_v4_text((#[trigger] question_ids@[j])@),
                forall|j: int, k: int|
                    0 <= j < i && 0 <= k < option_ids@[j]@.len() ==> crate::clock::uuid_v4_text((#[trigger] option_ids@[j]@[k])@),
        {
            question_ids.push(new_uuid());
            let mut ids: Vec<String> = Vec::new();
            let wanted = generated.quiz_questions[i].question_options.len();
            while ids.len() < wanted
                invariant
                    ids@.len() <= wanted,
                    forall|k: int| 0 <= k < ids@.len() ==> crate::clock::uuid_v4_text((#[trigger] ids@[k])@),
                decreases wanted - ids@.len(),
            {
                ids.push(new_uuid());
            }
            option_ids.push(ids);
        }
        let ghost qids = crate::text::strings_model(question_ids@);
        let ghost oids = ids_model(option_ids@);
        assert forall|i: int, j: int| 0 <= i < oids.len() && 0 <= j < oids[i].len() implies crate::clock::uuid_v4_text(
            #[trigger] oids[i][j],
        ) by {
            assert(oids[i][j] == option_ids@[i]@[j]@);
        }
        StepHandler::finalized_quiz_with_ids(quiz, generated, question_ids, &option_ids, now)
    }
}

/// A quiz finalized with generated questions is ready to be taken: its
/// status is `Ready`, it is stamped `now`, and it keeps its identity, name,
/// creator, limits and address.
pub proof fn lemma_finalized_quiz_is_ready(
    quiz: QuizModel,
    gs: Seq<GenQuestionModel>,
    ids: Seq<Seq<char>>,
    option_ids: Seq<Seq<Seq<char>>>,
    now: i64,
    done: QuizModel,
)
    requires
        finalize_outcome(quiz, gs, ids, option_ids, now) == Ok::<QuizModel, Seq<char>>(done),
    ensures
        done.status == QuizStatus::Ready,
        done.modified_at == Some(now),
        done.id == quiz.id,
        done.name == quiz.name,
        done.created_by_user_id == quiz.created_by_user_id,
        done.question_count == quiz.question_count,
        done.required_score == quiz.required_score,
        done.attempt_limit == quiz.attempt_limit,
        done.url == quiz.url,
        done.created_at == quiz.created_at,
{
}

} // verus!
