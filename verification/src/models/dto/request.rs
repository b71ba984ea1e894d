use vstd::prelude::*;

use crate::models::domain::quiz::Quiz;
use crate::models::dto::quiz_dto::{question_dtos_model, QuestionDtoModel, QuizDto, QuizDtoModel, QuizQuestionDto};
use crate::models::dto::validation::{email_valid, failing, finish, has_length_within, is_valid_email, is_valid_url, length_within, note, outcome, url_valid};
use crate::errors::{AppError, AppResult};
use crate::models::domain::quiz::QuizStatus;
use crate::json::{bool_field, get_bool, get_str, json_parse, parse_json, str_field, JsonValue};
use crate::models::domain::quiz_question::{options_model, OptionModel, QuizQuestionOption, QuizQuestionType};
use crate::text::{bool_text, decimal, push_char, push_decimal};
use crate::text::{ascii_lower, chars_of, lower_range, opt_string_model, owned, strings_model, trim, trimmed};

verus! {

/// The options a user picked for one question.
#[derive(Clone, Debug)]
pub struct QuestionAnswerInput {
    pub question_id: String,
    pub selected_option_ids: Vec<String>,
}

/// The mathematical content of an answer.
pub struct AnswerModel {
    pub question_id: Seq<char>,
    pub selected_option_ids: Seq<Seq<char>>,
}

impl View for QuestionAnswerInput {
    type V = AnswerModel;

    open spec fn view(&self) -> AnswerModel {
        AnswerModel {
            question_id: self.question_id@,
            selected_option_ids: strings_model(self.selected_option_ids@),
        }
    }
}

/// The models of a list of answers.
pub open spec fn answers_model(v: Seq<QuestionAnswerInput>) -> Seq<AnswerModel> {
    v.map_values(|a: QuestionAnswerInput| a@)
}

/// A submitted attempt: the quiz and the answers given.
#[derive(Clone, Debug)]
pub struct SubmitQuizAttemptInput {
    pub quiz_id: String,
    pub answers: Vec<QuestionAnswerInput>,
}

} // verus!

verus! {

/// A change to one option: each field given replaces the stored one.
#[derive(Clone, Debug)]
pub struct UpdateQuizQuestionOptionInput {
    pub id: String,
    pub text: Option<String>,
    pub correct: Option<bool>,
    pub explanation: Option<String>,
}

/// The mathematical content of an option change.
pub struct OptionUpdateModel {
    pub id: Seq<char>,
    pub text: Option<Seq<char>>,
    pub correct: Option<bool>,
    pub explanation: Option<Seq<char>>,
}

impl View for UpdateQuizQuestionOptionInput {
    type V = OptionUpdateModel;

    open spec fn view(&self) -> OptionUpdateModel {
        OptionUpdateModel {
            id: self.id@,
            text: opt_string_model(self.text),
            correct: self.correct,
            explanation: opt_string_model(self.explanation),
        }
    }
}

/// The models of a list of option changes.
pub open spec fn option_updates_model(v: Seq<UpdateQuizQuestionOptionInput>) -> Seq<OptionUpdateModel> {
    v.map_values(|u: UpdateQuizQuestionOptionInput| u@)
}

/// A change to one question: each field given replaces the stored one; a
/// list of options replaces the options with the changed ones.
#[derive(Clone, Debug)]
pub struct UpdateQuizQuestionInput {
    pub id: String,
    pub title: Option<String>,
    pub description: Option<String>,
    pub options: Option<Vec<UpdateQuizQuestionOptionInput>>,
}

/// The mathematical content of a question change.
pub struct QuestionUpdateModel {
    pub id: Seq<char>,
    pub title: Option<Seq<char>>,
    pub description: Option<Seq<char>>,
    pub options: Option<Seq<OptionUpdateModel>>,
}

impl View for UpdateQuizQuestionInput {
    type V = QuestionUpdateModel;

    open spec fn view(&self) -> QuestionUpdateModel {
        QuestionUpdateModel {
            id: self.id@,
            title: opt_string_model(self.title),
            description: opt_string_model(self.description),
            options: match self.options {
                Some(v) => Some(option_updates_model(v@)),
                None => None,
            },
        }
    }
}

/// The models of a list of question changes.
pub open spec fn question_updates_model(v: Seq<UpdateQuizQuestionInput>) -> Seq<QuestionUpdateModel> {
    v.map_values(|u: UpdateQuizQuestionInput| u@)
}

/// A partial change to a quiz.
#[derive(Clone, Debug)]
pub struct UpdateQuizInput {
    pub id: String,
    pub title: Option<String>,
    pub description: Option<String>,
    pub questions: Option<Vec<UpdateQuizQuestionInput>>,
}

/// A request to create an account.
#[derive(Debug)]
pub struct CreateUserRequestDto {
    pub first_name: String,
    pub last_name: String,
    pub username: String,
    pub email: String,
}

/// The checks of a new account, field by field: names of 1 to 100
/// characters, a username of 3 to 50, an e-mail address.
pub open spec fn create_user_checks(r: &CreateUserRequestDto) -> Seq<(Seq<char>, bool)> {
    seq![
        ("first_name"@, length_within(r.first_name@, 1, 100)),
        ("last_name"@, length_within(r.last_name@, 1, 100)),
        ("username"@, length_within(r.username@, 3, 50)),
        ("email"@, email_valid(r.email@)),
    ]
}

impl CreateUserRequestDto {
    /// Checks the request: success, or the fields that break their rule.
    pub fn validate(&self) -> (r: Result<(), Vec<String>>)
        ensures
            outcome(create_user_checks(self), r),
            (forall|i: int| 0 <= i < self.email@.len() ==> self.email@[i] != '@') ==> r is Err,
    {
        let mut errors: Vec<String> = Vec::new();
        let ghost mut done: Seq<(Seq<char>, bool)> = seq![];
        assert(strings_model(errors@) =~= failing(done));
        let ok0 = has_length_within(self.first_name.as_str(), 1, 100);
        note(&mut errors, "first_name", ok0, Ghost(done));
        proof { done = done.push(("first_name"@, ok0)); }
        let ok1 = has_length_within(self.last_name.as_str(), 1, 100);
        note(&mut errors, "last_name", ok1, Ghost(done));
        proof { done = done.push(("last_name"@, ok1)); }
        let ok2 = has_length_within(self.username.as_str(), 3, 50);
        note(&mut errors, "username", ok2, Ghost(done));
        proof { done = done.push(("username"@, ok2)); }
        let ok3 = is_valid_email(self.email.as_str());
        note(&mut errors, "email", ok3, Ghost(done));
        proof { done = done.push(("email"@, ok3)); }
        let ghost c = create_user_checks(self);
        assert(done =~= c);
        finish(errors)
    }
}

/// A request to change an account; only the fields given are changed.
#[derive(Debug)]
pub struct UpdateUserRequestDto {
    pub first_name: Option<String>,
    pub last_name: Option<String>,
    pub email: Option<String>,
}

/// The checks of a change of account, for the fields given.
pub open spec fn update_user_checks(r: &UpdateUserRequestDto) -> Seq<(Seq<char>, bool)> {
    seq![
        ("first_name"@, match r.first_name { Some(v) => length_within(v@, 1, 100), None => true }),
        ("last_name"@, match r.last_name { Some(v) => length_within(v@, 1, 100), None => true }),
        ("email"@, match r.email { Some(v) => email_valid(v@), None => true }),
    ]
}

impl UpdateUserRequestDto {
    /// Checks the fields given: success, or the fields that break their
    /// rule.
    pub fn validate(&self) -> (r: Result<(), Vec<String>>)
        ensures
            outcome(update_user_checks(self), r),
            (self.email matches Some(e) && forall|i: int| 0 <= i < e@.len() ==> e@[i] != '@') ==> r is Err,
    {
        let mut errors: Vec<String> = Vec::new();
        let ghost mut done: Seq<(Seq<char>, bool)> = seq![];
        assert(strings_model(errors@) =~= failing(done));
        let first_ok = match &self.first_name {
            Some(v) => has_length_within(v.as_str(), 1, 100),
            None => true,
        };
        let last_ok = match &self.last_name {
            Some(v) => has_length_within(v.as_str(), 1, 100),
            None => true,
        };
        let email_ok = match &self.email {
            Some(v) => {
                let b = is_valid_email(v.as_str());
                assert((forall|i: int| 0 <= i < v@.len() ==> v@[i] != '@') ==> !b);
                b
            },
            None => true,
        };
        let ok4 = first_ok;
        note(&mut errors, "first_name", ok4, Ghost(done));
        proof { done = done.push(("first_name"@, ok4)); }
        let ok5 = last_ok;
        note(&mut errors, "last_name", ok5, Ghost(done));
        proof { done = done.push(("last_name"@, ok5)); }
        let ok6 = email_ok;
        note(&mut errors, "email", ok6, Ghost(done));
        proof {
            crate::models::dto::validation::lemma_failing_push(done, ("email"@, ok6));
            done = done.push(("email"@, ok6));
        }
        assert(!ok6 ==> crate::text::strings_model(errors@).len() > 0);
        let ghost c = update_user_checks(self);
        assert(done =~= c);
        finish(errors)
    }
}

/// The settings of a new quiz draft.
#[derive(Debug)]
pub struct QuizDraftDto {
    pub name: String,
    pub question_count: i16,
    pub required_score: i16,
    pub attempt_limit: i16,
    pub url: String,
}

/// The checks of a draft: a name of 1 to 100 characters and a URL.
pub open spec fn quiz_draft_checks(r: &QuizDraftDto) -> Seq<(Seq<char>, bool)> {
    seq![("name"@, length_within(r.name@, 1, 100)), ("url"@, url_valid(r.url@))]
}

impl QuizDraftDto {
    /// Checks the draft: success, or the fields that break their rule.
    pub fn validate(&self) -> (r: Result<(), Vec<String>>)
        ensures
            outcome(quiz_draft_checks(self), r),
    {
        let mut errors: Vec<String> = Vec::new();
        let ghost mut done: Seq<(Seq<char>, bool)> = seq![];
        assert(strings_model(errors@) =~= failing(done));
        let ok7 = has_length_within(self.name.as_str(), 1, 100);
        note(&mut errors, "name", ok7, Ghost(done));
        proof { done = done.push(("name"@, ok7)); }
        let ok8 = is_valid_url(self.url.as_str());
        note(&mut errors, "url", ok8, Ghost(done));
        proof { done = done.push(("url"@, ok8)); }
        let ghost c = quiz_draft_checks(self);
        assert(done =~= c);
        finish(errors)
    }

    /// The draft settings of a quiz.
    pub fn from_quiz(quiz: Quiz) -> (d: QuizDraftDto)
        ensures
            d.name == quiz.name,
            d.question_count == quiz.question_count,
            d.required_score == quiz.required_score,
            d.attempt_limit == quiz.attempt_limit,
            d.url == quiz.url,
    {
        QuizDraftDto {
            name: quiz.name,
            question_count: quiz.question_count,
            required_score: quiz.required_score,
            attempt_limit: quiz.attempt_limit,
            url: quiz.url,
        }
    }
}

/// A quiz as a model writes it.
#[derive(Debug)]
pub struct GenerateQuizRequestDto {
    pub quiz_title: String,
    pub quiz_description: String,
    pub quiz_topic: String,
    pub quiz_questions: Vec<GenerateQuizQuestionRequestDto>,
}

/// A question as a model writes it.
#[derive(Debug)]
pub struct GenerateQuizQuestionRequestDto {
    pub question_title: String,
    pub question_description: String,
    pub question_type: String,
    pub question_options: Vec<GenerateQuizQuestionOptionRequestDto>,
}

/// An option as a model writes it; `option_correct` holds `true` or
/// `false` as text.
#[derive(Debug)]
pub struct GenerateQuizQuestionOptionRequestDto {
    pub option_text: String,
    pub option_correct: String,
    pub option_explanation: String,
}

/// A quiz with every value as text, as clients and models exchange it.
#[derive(Debug)]
pub struct QuizRequestDto {
    pub id: String,
    pub name: String,
    pub created_by_user_id: String,
    pub title: String,
    pub description: String,
    pub question_count: String,
    pub required_score: String,
    pub attempt_limit: String,
    pub topic: String,
    pub status: String,
    pub questions: Vec<QuizQuestionRequestDto>,
    pub url: String,
    pub created_at: String,
    pub modified_at: String,
}

/// A question with every value as text; `options` is a JSON array.
#[derive(Debug)]
pub struct QuizQuestionRequestDto {
    pub id: String,
    pub title: String,
    pub description: String,
    pub question_type: String,
    pub options: String,
    pub option_count: String,
    pub order: String,
    pub attempt_limit: String,
    pub topic: String,
    pub created_at: String,
    pub modified_at: String,
}

/// A summary document with its timestamps as text.
#[derive(Debug)]
pub struct SummaryDocumentRequestDto {
    pub id: String,
    pub quiz_id: String,
    pub url: String,
    pub content: String,
    pub created_at: String,
    pub modified_at: String,
}

/// A prompt for a model.
#[derive(Debug)]
pub struct ChatCompletionRequest {
    pub prompt: String,
    pub model: String,
}

/// The checks of a prompt: 1 to 10000 characters of prompt, a model name
/// of 1 to 100.
pub open spec fn chat_checks(r: &ChatCompletionRequest) -> Seq<(Seq<char>, bool)> {
    seq![("prompt"@, length_within(r.prompt@, 1, 10000)), ("model"@, length_within(r.model@, 1, 100))]
}

impl ChatCompletionRequest {
    /// Checks the prompt: success, or the fields that break their rule.
    pub fn validate(&self) -> (r: Result<(), Vec<String>>)
        ensures
            outcome(chat_checks(self), r),
    {
        let mut errors: Vec<String> = Vec::new();
        let ghost mut done: Seq<(Seq<char>, bool)> = seq![];
        assert(strings_model(errors@) =~= failing(done));
        let ok9 = has_length_within(self.prompt.as_str(), 1, 10000);
        note(&mut errors, "prompt", ok9, Ghost(done));
        proof { done = done.push(("prompt"@, ok9)); }
        let ok10 = has_length_within(self.model.as_str(), 1, 100);
        note(&mut errors, "model", ok10, Ghost(done));
        proof { done = done.push(("model"@, ok10)); }
        let ghost c = chat_checks(self);
        assert(done =~= c);
        finish(errors)
    }
}

/// Which page of a list is asked for.
#[derive(Debug, Clone, Copy)]
pub struct PaginationParams {
    pub offset: Option<i64>,
    pub limit: Option<i64>,
}

/// The checks of a page request: an offset of at least 0 and a limit of 1
/// to 100, when given.
pub open spec fn pagination_checks(p: PaginationParams) -> Seq<(Seq<char>, bool)> {
    seq![
        ("offset"@, match p.offset { Some(o) => o >= 0, None => true }),
        ("limit"@, match p.limit { Some(l) => 1 <= l <= 100, None => true }),
    ]
}

impl Default for PaginationParams {
    fn default() -> (p: Self)
        ensures
            p.offset == Some(0i64),
            p.limit == Some(20i64),
    {
        PaginationParams { offset: Some(0), limit: Some(20) }
    }
}

impl PaginationParams {
    /// How many items to skip: the offset given, else 0.
    pub fn offset(&self) -> (o: i64)
        ensures
            o == match self.offset {
                Some(v) => v,
                None => 0,
            },
    {
        match self.offset {
            Some(v) => v,
            None => 0,
        }
    }

    /// How many items to return: the limit given, else 20, and never more
    /// than 100.
    pub fn limit(&self) -> (l: i64)
        ensures
            l == {
                let v = match self.limit {
                    Some(v) => v,
                    None => 20,
                };
                if v < 100 { v } else { 100 }
            },
    {
        let v = match self.limit {
            Some(v) => v,
            None => 20,
        };
        if v < 100 {
            v
        } else {
            100
        }
    }

    /// Checks the page request: success, or the fields that break their
    /// rule.
    pub fn validate(&self) -> (r: Result<(), Vec<String>>)
        ensures
            outcome(pagination_checks(*self), r),
    {
        let offset_ok = match self.offset {
            Some(o) => o >= 0,
            None => true,
        };
        let limit_ok = match self.limit {
            Some(l) => 1 <= l && l <= 100,
            None => true,
        };
        let mut errors: Vec<String> = Vec::new();
        let ghost mut done: Seq<(Seq<char>, bool)> = seq![];
        assert(strings_model(errors@) =~= failing(done));
        let ok11 = offset_ok;
        note(&mut errors, "offset", ok11, Ghost(done));
        proof { done = done.push(("offset"@, ok11)); }
        let ok12 = limit_ok;
        note(&mut errors, "limit", ok12, Ghost(done));
        proof { done = done.push(("limit"@, ok12)); }
        let ghost c = pagination_checks(*self);
        assert(done =~= c);
        finish(errors)
    }
}

/// Why a text is not an `i16`, as `i16::from_str` reports it.
#[derive(Debug, Clone, Copy, PartialEq, Eq, Structural)]
pub enum IntErrorKind {
    Empty,
    InvalidDigit,
    PosOverflow,
    NegOverflow,
}

/// The message of a parse failure, as `ParseIntError` displays it.
pub open spec fn int_error_text(k: IntErrorKind) -> Seq<char> {
    match k {
        IntErrorKind::Empty => "cannot parse integer from empty string"@,
        IntErrorKind::InvalidDigit => "invalid digit found in string"@,
        IntErrorKind::PosOverflow => "number too large to fit in target type"@,
        IntErrorKind::NegOverflow => "number too small to fit in target type"@,
    }
}

/// The value of the decimal digits `ds` read left to right, negated when
/// `neg`, or the first failure: a character that is not a digit, or a
/// value beyond the range of `i16`.
pub open spec fn digits_value(ds: Seq<char>, neg: bool) -> Result<int, IntErrorKind>
    decreases ds.len(),
{
    if ds.len() == 0 {
        Ok(0)
    } else {
        match digits_value(ds.drop_last(), neg) {
            Err(e) => Err(e),
            Ok(v) => {
                let c = ds.last();
                if !('0' <= c <= '9') {
                    Err(IntErrorKind::InvalidDigit)
                } else {
                    let d = (c as u32) - ('0' as u32);
                    let nv = if neg { v * 10 - d } else { v * 10 + d };
                    if nv > i16::MAX {
                        Err(IntErrorKind::PosOverflow)
                    } else if nv < i16::MIN {
                        Err(IntErrorKind::NegOverflow)
                    } else {
                        Ok(nv)
                    }
                }
            },
        }
    }
}

/// The `i16` written in `s` as `i16::from_str` reads it: an optional sign
/// then decimal digits.
pub open spec fn i16_of(s: Seq<char>) -> Result<int, IntErrorKind> {
    if s.len() == 0 {
        Err(IntErrorKind::Empty)
    } else if (s[0] == '+' || s[0] == '-') && s.len() == 1 {
        Err(IntErrorKind::InvalidDigit)
    } else if s[0] == '+' {
        digits_value(s.skip(1), false)
    } else if s[0] == '-' {
        digits_value(s.skip(1), true)
    } else {
        digits_value(s, false)
    }
}

proof fn lemma_digits_value_range(ds: Seq<char>, neg: bool)
    ensures
        digits_value(ds, neg) matches Ok(v) ==> i16::MIN <= v <= i16::MAX,
        digits_value(ds, neg) matches Ok(v) ==> (neg ==> v <= 0) && (!neg ==> v >= 0),
    decreases ds.len(),
{
    if ds.len() > 0 {
        lemma_digits_value_range(ds.drop_last(), neg);
    }
}

fn parse_digits(v: &Vec<char>, from: usize, neg: bool) -> (r: Result<i16, IntErrorKind>)
    requires
        from <= v@.len(),
    ensures
        match r {
            Ok(x) => digits_value(v@.skip(from as int), neg) == Ok::<int, IntErrorKind>(x as int),
            Err(e) => digits_value(v@.skip(from as int), neg) == Err::<int, IntErrorKind>(e),
        },
{
    let ghost ds = v@.skip(from as int);
    let mut value: i16 = 0;
    let mut i = from;
    assert(ds.take(0) =~= Seq::<char>::empty());
    while i < v.len()
        invariant
            from <= i <= v@.len(),
            ds == v@.skip(from as int),
            digits_value(ds.take(i - from), neg) == Ok::<int, IntErrorKind>(value as int),
        decreases v@.len() - i,
    {
        let ghost pre = ds.take(i - from + 1);
        assert(pre.drop_last() =~= ds.take(i - from));
        assert(pre.last() == v@[i as int]);
        let c = v[i];
        if !('0' <= c && c <= '9') {
            proof { lemma_digits_prefix_err(ds, (i - from + 1) as int, neg); }
            return Err(IntErrorKind::InvalidDigit);
        }
        let d = (c as u32 - '0' as u32) as i16;
        proof { lemma_digits_value_range(ds.take(i - from), neg); }
        if neg {
            if value < -3276 || (value == -3276 && d > 8) {
                proof { lemma_digits_prefix_err(ds, (i - from + 1) as int, neg); }
                return Err(IntErrorKind::NegOverflow);
            }
            value = value * 10 - d;
        } else {
            if value > 3276 || (value == 3276 && d > 7) {
                proof { lemma_digits_prefix_err(ds, (i - from + 1) as int, neg); }
                return Err(IntErrorKind::PosOverflow);
            }
            value = value * 10 + d;
        }
        i += 1;
    }
    assert(ds.take(i - from) =~= ds);
    Ok(value)
}

proof fn lemma_digits_prefix_err(ds: Seq<char>, k: int, neg: bool)
    requires
        0 <= k <= ds.len(),
        digits_value(ds.take(k), neg) is Err,
    ensures
        digits_value(ds, neg) == digits_value(ds.take(k), neg),
    decreases ds.len() - k,
{
    if k < ds.len() {
        let next = ds.take(k + 1);
        assert(next.drop_last() =~= ds.take(k));
        lemma_digits_prefix_err(ds, k + 1, neg);
    } else {
        assert(ds.take(k) =~= ds);
    }
}


/// The outcome of a required whole-number field, as a value or the
/// message of its refusal.
pub open spec fn i16_field_result(value: Seq<char>, field: Seq<char>) -> Result<i16, Seq<char>> {
    if trim(value).len() == 0 {
        Err(field + " is required"@)
    } else {
        match i16_of(trim(value)) {
            Ok(x) => Ok(x as i16),
            Err(e) => Err("Invalid "@ + field + ": "@ + int_error_text(e)),
        }
    }
}

/// The outcome of an optional date and time field.
pub open spec fn datetime_result(value: Seq<char>) -> Result<Option<i64>, Seq<char>> {
    if trim(value).len() == 0 {
        Ok(None)
    } else {
        match rfc3339_parse(trim(value)) {
            Ok(t) => Ok(Some(t)),
            Err(e) => Err("Invalid datetime: "@ + e),
        }
    }
}

/// The outcome of a status field.
pub open spec fn status_result(value: Seq<char>) -> Result<QuizStatus, Seq<char>> {
    match status_named(value) {
        Some(s) => Ok(s),
        None => Err("Invalid status: "@ + value),
    }
}

/// The outcome of a question type field.
pub open spec fn question_type_result(value: Seq<char>) -> Result<QuizQuestionType, Seq<char>> {
    match question_type_named(value) {
        Some(t) => Ok(t),
        None => Err("Invalid question_type: "@ + value),
    }
}

/// The outcome of an options field.
pub open spec fn options_result(value: Seq<char>) -> Result<Seq<OptionModel>, Seq<char>> {
    let t = trim(value);
    if t.len() == 0 {
        Err("Options JSON cannot be empty"@)
    } else {
        match options_document(t) {
            Err(e) => Err("Invalid options JSON: "@ + e),
            Ok(JsonValue::Array(items)) => options_from(items@),
            Ok(_) => Err("Options JSON must be an array"@),
        }
    }
}

/// Reads an `i16` as `i16::from_str` does.
pub fn parse_i16(s: &str) -> (r: Result<i16, IntErrorKind>)
    ensures
        match r {
            Ok(x) => i16_of(s@) == Ok::<int, IntErrorKind>(x as int),
            Err(e) => i16_of(s@) == Err::<int, IntErrorKind>(e),
        },
{
    let v = chars_of(s);
    if v.len() == 0 {
        return Err(IntErrorKind::Empty);
    }
    let first = v[0];
    if (first == '+' || first == '-') && v.len() == 1 {
        return Err(IntErrorKind::InvalidDigit);
    }
    if first == '+' {
        parse_digits(&v, 1, false)
    } else if first == '-' {
        parse_digits(&v, 1, true)
    } else {
        assert(v@.skip(0) =~= v@);
        parse_digits(&v, 0, false)
    }
}

fn int_error_message(k: IntErrorKind) -> (m: &'static str)
    ensures
        m@ == int_error_text(k),
{
    match k {
        IntErrorKind::Empty => "cannot parse integer from empty string",
        IntErrorKind::InvalidDigit => "invalid digit found in string",
        IntErrorKind::PosOverflow => "number too large to fit in target type",
        IntErrorKind::NegOverflow => "number too small to fit in target type",
    }
}

/// A required whole-number field: the trimmed text must be present and an
/// `i16`.
pub fn parse_i16_required(value: &str, field: &str) -> (r: AppResult<i16>)
    ensures
        trim(value@).len() == 0 ==> (r matches Err(AppError::ValidationError(m)) && m@ == field@ + " is required"@),
        trim(value@).len() > 0 ==> match i16_of(trim(value@)) {
            Ok(x) => r matches Ok(y) && y == x,
            Err(e) => r matches Err(AppError::ValidationError(m)) && m@ == "Invalid "@ + field@ + ": "@ + int_error_text(e),
        },
{
    let t = trimmed(value);
    if t.as_str().is_empty() {
        return Err(AppError::ValidationError(crate::text::concat2(field, " is required")));
    }
    match parse_i16(t.as_str()) {
        Ok(x) => Ok(x),
        Err(e) => Err(AppError::ValidationError(crate::text::concat4("Invalid ", field, ": ", int_error_message(e)))),
    }
}

/// The status named by `value`, trimmed, in any ASCII case.
pub open spec fn status_named(value: Seq<char>) -> Option<QuizStatus> {
    let t = ascii_lower(trim(value));
    if t == "draft"@ {
        Some(QuizStatus::Draft)
    } else if t == "pending"@ {
        Some(QuizStatus::Pending)
    } else if t == "ready"@ {
        Some(QuizStatus::Ready)
    } else if t == "complete"@ {
        Some(QuizStatus::Complete)
    } else {
        None
    }
}

fn lowered_trim(value: &str) -> (r: String)
    ensures
        r@ == ascii_lower(trim(value@)),
{
    let t = trimmed(value);
    let v = chars_of(t.as_str());
    lower_range(&v, 0, v.len())
}

/// The status named by `value`: `draft`, `pending`, `ready` or `complete`,
/// trimmed and in any ASCII case.
pub fn parse_quiz_status(value: &str) -> (r: AppResult<QuizStatus>)
    ensures
        match status_named(value@) {
            Some(st) => r == Ok::<QuizStatus, AppError>(st),
            None => r matches Err(AppError::ValidationError(m)) && m@ == "Invalid status: "@ + value@,
        },
{
    let t = lowered_trim(value);
    let ghost tv = t@;
    assert(tv.subrange(0, tv.len() as int) =~= tv);
    if crate::text::str_eq(t.as_str(), "draft") {
        Ok(QuizStatus::Draft)
    } else if crate::text::str_eq(t.as_str(), "pending") {
        Ok(QuizStatus::Pending)
    } else if crate::text::str_eq(t.as_str(), "ready") {
        Ok(QuizStatus::Ready)
    } else if crate::text::str_eq(t.as_str(), "complete") {
        Ok(QuizStatus::Complete)
    } else {
        Err(AppError::ValidationError(crate::text::concat2("Invalid status: ", value)))
    }
}

/// The question type named by `value`, trimmed, in any ASCII case.
pub open spec fn question_type_named(value: Seq<char>) -> Option<QuizQuestionType> {
    let t = ascii_lower(trim(value));
    if t == "single"@ {
        Some(QuizQuestionType::Single)
    } else if t == "multi"@ {
        Some(QuizQuestionType::Multi)
    } else if t == "bool"@ || t == "boolean"@ {
        Some(QuizQuestionType::Bool)
    } else {
        None
    }
}

/// The question type named by `value`: `single`, `multi`, `bool` or
/// `boolean`, trimmed and in any ASCII case.
pub fn parse_question_type(value: &str) -> (r: AppResult<QuizQuestionType>)
    ensures
        match question_type_named(value@) {
            Some(t) => r == Ok::<QuizQuestionType, AppError>(t),
            None => r matches Err(AppError::ValidationError(m)) && m@ == "Invalid question_type: "@ + value@,
        },
{
    let t = lowered_trim(value);
    if crate::text::str_eq(t.as_str(), "single") {
        Ok(QuizQuestionType::Single)
    } else if crate::text::str_eq(t.as_str(), "multi") {
        Ok(QuizQuestionType::Multi)
    } else if crate::text::str_eq(t.as_str(), "bool") || crate::text::str_eq(t.as_str(), "boolean") {
        Ok(QuizQuestionType::Bool)
    } else {
        Err(AppError::ValidationError(crate::text::concat2("Invalid question_type: ", value)))
    }
}

/// What `chrono::DateTime::parse_from_rfc3339` makes of `s`: the instant in
/// microseconds since the epoch, or the message of its error.
pub uninterp spec fn rfc3339_parse(s: Seq<char>) -> Result<i64, Seq<char>>;

/// Reads an RFC 3339 date and time with `chrono::DateTime::parse_from_rfc3339`,
/// giving the instant in microseconds since the epoch (through
/// `with_timezone(&Utc)` and `timestamp_micros`), or the `Display` of the
/// error.
#[verifier::external_body]
fn read_rfc3339(s: &str) -> (r: Result<i64, String>)
    ensures
        match r {
            Ok(t) => rfc3339_parse(s@) == Ok::<i64, Seq<char>>(t),
            Err(m) => rfc3339_parse(s@) == Err::<i64, Seq<char>>(m@),
        },
{
    match chrono::DateTime::parse_from_rfc3339(s) {
        Ok(dt) => Ok(dt.with_timezone(&chrono::Utc).timestamp_micros()),
        Err(e) => Err(e.to_string()),
    }
}

/// An optional date and time: nothing when the trimmed text is empty,
/// else the RFC 3339 instant it writes.
pub fn parse_optional_datetime(value: &str) -> (r: AppResult<Option<i64>>)
    ensures
        trim(value@).len() == 0 ==> r == Ok::<Option<i64>, AppError>(None),
        trim(value@).len() > 0 ==> match rfc3339_parse(trim(value@)) {
            Ok(t) => r == Ok::<Option<i64>, AppError>(Some(t)),
            Err(e) => r matches Err(AppError::ValidationError(m)) && m@ == "Invalid datetime: "@ + e,
        },
{
    let t = trimmed(value);
    if t.as_str().is_empty() {
        return Ok(None);
    }
    match read_rfc3339(t.as_str()) {
        Ok(x) => Ok(Some(x)),
        Err(e) => Err(AppError::ValidationError(crate::text::concat2("Invalid datetime: ", e.as_str()))),
    }
}

/// The RFC 3339 text that `chrono::DateTime::to_rfc3339` writes for the
/// instant `micros` microseconds after the epoch, when chrono can
/// represent it.
pub uninterp spec fn rfc3339_text(micros: i64) -> Option<Seq<char>>;

/// Writes an instant with `chrono::DateTime::from_timestamp_micros` and
/// `to_rfc3339`; `None` when chrono cannot represent it.
#[verifier::external_body]
pub(crate) fn format_rfc3339(micros: i64) -> (r: Option<String>)
    ensures
        opt_string_model(r) == rfc3339_text(micros),
{
    chrono::DateTime::from_timestamp_micros(micros).map(|dt| dt.to_rfc3339())
}

/// The option written by the JSON value `item`, at position `index` of
/// the array, or why it is refused.
pub open spec fn option_from(item: JsonValue, index: nat) -> Result<OptionModel, Seq<char>> {
    if !(item is Object) {
        Err("Option at index "@ + decimal(index) + " must be an object"@)
    } else if str_field(item, "id"@) is None {
        Err("Option "@ + decimal(index) + " missing id"@)
    } else if str_field(item, "text"@) is None {
        Err("Option "@ + decimal(index) + " missing text"@)
    } else {
        Ok(OptionModel {
            id: str_field(item, "id"@)->Some_0,
            text: str_field(item, "text"@)->Some_0,
            correct: match bool_field(item, "correct"@) {
                Some(b) => b,
                None => false,
            },
            explanation: match str_field(item, "explanation"@) {
                Some(e) => e,
                None => "No explanation provided."@,
            },
        })
    }
}

/// The options written by the items of a JSON array, or the refusal of
/// the first item that is refused.
pub open spec fn options_from(items: Seq<JsonValue>) -> Result<Seq<OptionModel>, Seq<char>>
    decreases items.len(),
{
    if items.len() == 0 {
        Ok(seq![])
    } else {
        match options_from(items.drop_last()) {
            Err(e) => Err(e),
            Ok(os) => match option_from(items.last(), (items.len() - 1) as nat) {
                Ok(o) => Ok(os.push(o)),
                Err(e) => Err(e),
            },
        }
    }
}

/// The JSON document of an options text: the text itself if it parses,
/// else what [`repaired_document`] makes of it.
pub open spec fn options_document(t: Seq<char>) -> Result<JsonValue, Seq<char>> {
    match json_parse(t) {
        Ok(v) => Ok(v),
        Err(_) => repaired_document(t),
    }
}

/// A repair of an options text that does not parse: for a text that opens
/// an array and does not close it, the text with `]` appended if that
/// parses; else, for a single object, the object in an array if that
/// parses; else what parsing the text itself gives.
pub open spec fn repaired_document(t: Seq<char>) -> Result<JsonValue, Seq<char>> {
    if t.len() > 0 && t[0] == '[' && t.last() != ']' && json_parse(t + "]"@) is Ok {
        json_parse(t + "]"@)
    } else if t.len() > 0 && t[0] == '{' && t.last() == '}' && json_parse("["@ + t + "]"@) is Ok {
        json_parse("["@ + t + "]"@)
    } else {
        json_parse(t)
    }
}

fn parse_options_document(t: &str) -> (r: Result<JsonValue, String>)
    ensures
        match r {
            Ok(v) => options_document(t@) == Ok::<JsonValue, Seq<char>>(v),
            Err(e) => options_document(t@) == Err::<JsonValue, Seq<char>>(e@),
        },
{
    match parse_json(t) {
        Ok(v) => Ok(v),
        Err(_) => attempt_repair_options_json(t),
    }
}

fn attempt_repair_options_json(t: &str) -> (r: Result<JsonValue, String>)
    ensures
        match r {
            Ok(v) => repaired_document(t@) == Ok::<JsonValue, Seq<char>>(v),
            Err(e) => repaired_document(t@) == Err::<JsonValue, Seq<char>>(e@),
        },
{
    let v = chars_of(t);
    let n = v.len();
    if n > 0 && v[0] == '[' && v[n - 1] != ']' {
        let repaired = crate::text::concat2(t, "]");
        match parse_json(repaired.as_str()) {
            Ok(doc) => {
                return Ok(doc);
            },
            Err(_) => {},
        }
    }
    if n > 0 && v[0] == '{' && v[n - 1] == '}' {
        let wrapped = crate::text::concat3("[", t, "]");
        match parse_json(wrapped.as_str()) {
            Ok(doc) => {
                return Ok(doc);
            },
            Err(_) => {},
        }
    }
    parse_json(t)
}

fn option_at(item: &JsonValue, index: usize) -> (r: Result<QuizQuestionOption, String>)
    ensures
        match r {
            Ok(o) => option_from(*item, index as nat) == Ok::<OptionModel, Seq<char>>(o@),
            Err(e) => option_from(*item, index as nat) == Err::<OptionModel, Seq<char>>(e@),
        },
{
    proof {
        reveal_strlit("Option at index ");
        reveal_strlit(" must be an object");
        reveal_strlit("Option ");
        reveal_strlit(" missing id");
        reveal_strlit(" missing text");
    }
    match item {
        JsonValue::Object(_) => {},
        _ => {
            let mut m = owned("Option at index ");
            push_decimal(&mut m, index as u64);
            m.append(" must be an object");
            return Err(m);
        },
    }
    let id = match get_str(item, "id") {
        Some(x) => crate::text::copy_string(x),
        None => {
            let mut m = owned("Option ");
            push_decimal(&mut m, index as u64);
            m.append(" missing id");
            return Err(m);
        },
    };
    let text = match get_str(item, "text") {
        Some(x) => crate::text::copy_string(x),
        None => {
            let mut m = owned("Option ");
            push_decimal(&mut m, index as u64);
            m.append(" missing text");
            return Err(m);
        },
    };
    let correct = match get_bool(item, "correct") {
        Some(b) => b,
        None => false,
    };
    let explanation = match get_str(item, "explanation") {
        Some(x) => crate::text::copy_string(x),
        None => owned("No explanation provided."),
    };
    Ok(QuizQuestionOption { id, text, correct, explanation })
}

/// The options written in JSON: the trimmed text must not be empty, must
/// be (or be repaired into) a JSON array, and each item must be an object
/// with an `id` and a `text`; `correct` defaults to false and
/// `explanation` to `No explanation provided.`.
#[verifier::loop_isolation(false)]
pub fn parse_options_json(value: &str) -> (r: AppResult<Vec<QuizQuestionOption>>)
    ensures
        trim(value@).len() == 0 ==> (r matches Err(AppError::ValidationError(m)) && m@ == "Options JSON cannot be empty"@),
        trim(value@).len() > 0 ==> match options_document(trim(value@)) {
            Err(e) => r matches Err(AppError::ValidationError(m)) && m@ == "Invalid options JSON: "@ + e,
            Ok(JsonValue::Array(items)) => match options_from(items@) {
                Ok(os) => r matches Ok(v) && options_model(v@) == os,
                Err(e) => r matches Err(AppError::ValidationError(m)) && m@ == e,
            },
            Ok(_) => r matches Err(AppError::ValidationError(m)) && m@ == "Options JSON must be an array"@,
        },
{
    let t = trimmed(value);
    if t.as_str().is_empty() {
        return Err(AppError::ValidationError(owned("Options JSON cannot be empty")));
    }
    let doc = match parse_options_document(t.as_str()) {
        Ok(d) => d,
        Err(e) => {
            return Err(AppError::ValidationError(crate::text::concat2("Invalid options JSON: ", e.as_str())));
        },
    };
    let items = match &doc {
        JsonValue::Array(items) => items,
        _ => {
            return Err(AppError::ValidationError(owned("Options JSON must be an array")));
        },
    };
    let mut options: Vec<QuizQuestionOption> = Vec::new();
    assert(items@.take(0) =~= Seq::<JsonValue>::empty());
    assert(options_model(options@) =~= Seq::<OptionModel>::empty());
    for i in 0..items.len()
        invariant
            options_from(items@.take(i as int)) == Ok::<Seq<OptionModel>, Seq<char>>(options_model(options@)),
    {
        let ghost pre = items@.take(i + 1);
        assert(pre.drop_last() =~= items@.take(i as int));
        match option_at(&items[i], i) {
            Ok(o) => {
                let ghost before = options@;
                options.push(o);
                assert(options_model(options@) =~= options_model(before).push(o@));
            },
            Err(e) => {
                proof { lemma_options_prefix_err(items@, (i + 1) as int); }
                return Err(AppError::ValidationError(e));
            },
        }
    }
    assert(items@.take(items.len() as int) =~= items@);
    Ok(options)
}

proof fn lemma_options_prefix_err(items: Seq<JsonValue>, k: int)
    requires
        0 <= k <= items.len(),
        options_from(items.take(k)) is Err,
    ensures
        options_from(items) == options_from(items.take(k)),
    decreases items.len() - k,
{
    if k < items.len() {
        assert(items.take(k + 1).drop_last() =~= items.take(k));
        lemma_options_prefix_err(items, k + 1);
    } else {
        assert(items.take(k) =~= items);
    }
}

/// The JSON escape of one character, as serde_json writes strings: quote
/// and backslash are escaped, the control characters below space are
/// written as `\b`, `\t`, `\n`, `\f`, `\r` or `\u00xx`.
pub open spec fn json_escape(c: char) -> Seq<char> {
    if c == '"' {
        "\\\""@
    } else if c == '\\' {
        "\\\\"@
    } else if c == '\u{8}' {
        "\\b"@
    } else if c == '\t' {
        "\\t"@
    } else if c == '\n' {
        "\\n"@
    } else if c == '\u{c}' {
        "\\f"@
    } else if c == '\r' {
        "\\r"@
    } else if (c as u32) < 0x20 {
        "\\u00"@ + seq![crate::models::domain::refresh_token::hex_digit(((c as u32) / 16) as u8), crate::models::domain::refresh_token::hex_digit(((c as u32) % 16) as u8)]
    } else {
        seq![c]
    }
}

/// The JSON string body of `s`, each character escaped.
pub open spec fn json_text(s: Seq<char>) -> Seq<char>
    decreases s.len(),
{
    if s.len() == 0 {
        seq![]
    } else {
        json_text(s.drop_last()) + json_escape(s.last())
    }
}

/// `s` as a JSON string.
pub open spec fn json_quoted(s: Seq<char>) -> Seq<char> {
    "\""@ + json_text(s) + "\""@
}

/// An option as serde_json writes it, fields in declaration order.
pub open spec fn option_json(o: OptionModel) -> Seq<char> {
    "{\"id\":"@ + json_quoted(o.id) + ",\"text\":"@ + json_quoted(o.text) + ",\"correct\":"@ + bool_text(o.correct)
        + ",\"explanation\":"@ + json_quoted(o.explanation) + "}"@
}

/// The options separated by commas.
pub open spec fn options_items_json(os: Seq<OptionModel>) -> Seq<char>
    decreases os.len(),
{
    if os.len() == 0 {
        seq![]
    } else if os.len() == 1 {
        option_json(os[0])
    } else {
        options_items_json(os.drop_last()) + ","@ + option_json(os.last())
    }
}

/// A list of options as serde_json writes it.
pub open spec fn options_json(os: Seq<OptionModel>) -> Seq<char> {
    "["@ + options_items_json(os) + "]"@
}

fn push_json_escaped(s: &mut String, c: char)
    ensures
        final(s)@ == old(s)@ + json_escape(c),
{
    proof {
        reveal_strlit("\\\"");
        reveal_strlit("\\\\");
        reveal_strlit("\\b");
        reveal_strlit("\\t");
        reveal_strlit("\\n");
        reveal_strlit("\\f");
        reveal_strlit("\\r");
        reveal_strlit("\\u00");
    }
    if c == '"' {
        s.append("\\\"");
    } else if c == '\\' {
        s.append("\\\\");
    } else if c == '\u{8}' {
        s.append("\\b");
    } else if c == '\t' {
        s.append("\\t");
    } else if c == '\n' {
        s.append("\\n");
    } else if c == '\u{c}' {
        s.append("\\f");
    } else if c == '\r' {
        s.append("\\r");
    } else if (c as u32) < 0x20 {
        s.append("\\u00");
        let u = c as u32;
        push_char(s, crate::models::domain::refresh_token::hex_char_of((u / 16) as u8));
        push_char(s, crate::models::domain::refresh_token::hex_char_of((u % 16) as u8));
    } else {
        push_char(s, c);
    }
}

/// Appends `text` as a JSON string.
pub fn push_json_text(s: &mut String, text: &str)
    ensures
        final(s)@ == old(s)@ + json_quoted(text@),
{
    proof { reveal_strlit("\""); }
    let ghost start = s@;
    push_char(s, '"');
    let v = chars_of(text);
    let ghost base = s@;
    for i in 0..v.len()
        invariant
            v@ == text@,
            s@ == base + json_text(v@.take(i as int)),
    {
        assert(v@.take(i + 1).drop_last() =~= v@.take(i as int));
        push_json_escaped(s, v[i]);
        assert(s@ =~= base + json_text(v@.take(i + 1)));
    }
    assert(v@.take(v.len() as int) =~= v@);
    push_char(s, '"');
    assert(s@ =~= start + json_quoted(text@));
}

fn push_option_json(j: &mut String, o: &QuizQuestionOption)
    ensures
        final(j)@ == old(j)@ + option_json(o@),
{
    proof {
        reveal_strlit("{\"id\":");
        reveal_strlit(",\"text\":");
        reveal_strlit(",\"correct\":");
        reveal_strlit(",\"explanation\":");
        reveal_strlit("}");
    }
    let ghost start = j@;
    j.append("{\"id\":");
    push_json_text(j, o.id.as_str());
    j.append(",\"text\":");
    push_json_text(j, o.text.as_str());
    j.append(",\"correct\":");
    j.append(crate::text::bool_string(o.correct));
    j.append(",\"explanation\":");
    push_json_text(j, o.explanation.as_str());
    j.append("}");
    assert(j@ =~= start + option_json(o@));
}

/// The options as the JSON text that serde_json writes for them.
pub fn options_to_json(options: &Vec<QuizQuestionOption>) -> (j: String)
    ensures
        j@ == options_json(options_model(options@)),
{
    proof {
        reveal_strlit("[");
        reveal_strlit("]");
        reveal_strlit(",");
    }
    let ghost os = options_model(options@);
    let mut j = owned("[");
    let ghost base = j@;
    for i in 0..options.len()
        invariant
            os == options_model(options@),
            j@ == base + options_items_json(os.take(i as int)),
    {
        let ghost pre = os.take(i + 1);
        assert(pre.drop_last() =~= os.take(i as int));
        if i > 0 {
            j.append(",");
        } else {
            assert(os.take(0) =~= Seq::<OptionModel>::empty());
        }
        let o = &options[i];
        push_option_json(&mut j, o);
        assert(pre.last() == o@);
        assert(j@ =~= base + options_items_json(pre));
    }
    assert(os.take(options.len() as int) =~= os);
    j.append("]");
    j
}

/// The mathematical content of a question in text form.
pub struct QuestionRequestModel {
    pub id: Seq<char>,
    pub title: Seq<char>,
    pub description: Seq<char>,
    pub question_type: Seq<char>,
    pub options: Seq<char>,
    pub option_count: Seq<char>,
    pub order: Seq<char>,
    pub attempt_limit: Seq<char>,
    pub topic: Seq<char>,
    pub created_at: Seq<char>,
    pub modified_at: Seq<char>,
}

impl View for QuizQuestionRequestDto {
    type V = QuestionRequestModel;

    open spec fn view(&self) -> QuestionRequestModel {
        QuestionRequestModel {
            id: self.id@,
            title: self.title@,
            description: self.description@,
            question_type: self.question_type@,
            options: self.options@,
            option_count: self.option_count@,
            order: self.order@,
            attempt_limit: self.attempt_limit@,
            topic: self.topic@,
            created_at: self.created_at@,
            modified_at: self.modified_at@,
        }
    }
}

/// The models of a list of questions in text form.
pub open spec fn question_requests_model(v: Seq<QuizQuestionRequestDto>) -> Seq<QuestionRequestModel> {
    v.map_values(|q: QuizQuestionRequestDto| q@)
}

/// The mathematical content of a quiz in text form.
pub struct QuizRequestModel {
    pub id: Seq<char>,
    pub name: Seq<char>,
    pub created_by_user_id: Seq<char>,
    pub title: Seq<char>,
    pub description: Seq<char>,
    pub question_count: Seq<char>,
    pub required_score: Seq<char>,
    pub attempt_limit: Seq<char>,
    pub topic: Seq<char>,
    pub status: Seq<char>,
    pub questions: Seq<QuestionRequestModel>,
    pub url: Seq<char>,
    pub created_at: Seq<char>,
    pub modified_at: Seq<char>,
}

impl View for QuizRequestDto {
    type V = QuizRequestModel;

    open spec fn view(&self) -> QuizRequestModel {
        QuizRequestModel {
            id: self.id@,
            name: self.name@,
            created_by_user_id: self.created_by_user_id@,
            title: self.title@,
            description: self.description@,
            question_count: self.question_count@,
            required_score: self.required_score@,
            attempt_limit: self.attempt_limit@,
            topic: self.topic@,
            status: self.status@,
            questions: question_requests_model(self.questions@),
            url: self.url@,
            created_at: self.created_at@,
            modified_at: self.modified_at@,
        }
    }
}

/// The name of a question type as its `Debug` form writes it.
pub open spec fn question_type_text(t: QuizQuestionType) -> Seq<char> {
    match t {
        QuizQuestionType::Single => "Single"@,
        QuizQuestionType::Multi => "Multi"@,
        QuizQuestionType::Bool => "Bool"@,
    }
}

/// The name of a status in lower case.
pub open spec fn status_name(s: QuizStatus) -> Seq<char> {
    match s {
        QuizStatus::Draft => "draft"@,
        QuizStatus::Pending => "pending"@,
        QuizStatus::Ready => "ready"@,
        QuizStatus::Complete => "complete"@,
    }
}

/// The RFC 3339 text of an instant, empty when chrono cannot represent it.
pub open spec fn instant_text(t: i64) -> Seq<char> {
    match rfc3339_text(t) {
        Some(x) => x,
        None => seq![],
    }
}

/// The text form of a question.
pub open spec fn request_of_question(d: crate::models::dto::quiz_dto::QuestionDtoModel) -> QuestionRequestModel {
    QuestionRequestModel {
        id: d.id,
        title: d.title,
        description: d.description,
        question_type: question_type_text(d.question_type),
        options: options_json(d.options),
        option_count: crate::text::signed_decimal(d.option_count as int),
        order: crate::text::signed_decimal(d.order as int),
        attempt_limit: crate::text::signed_decimal(d.attempt_limit as int),
        topic: d.topic,
        created_at: instant_text(d.created_at),
        modified_at: instant_text(d.modified_at),
    }
}

/// The text form of a quiz.
pub open spec fn request_of_quiz(d: crate::models::dto::quiz_dto::QuizDtoModel) -> QuizRequestModel {
    QuizRequestModel {
        id: d.id,
        name: d.name,
        created_by_user_id: d.created_by_user_id,
        title: d.title,
        description: d.description,
        question_count: crate::text::signed_decimal(d.question_count as int),
        required_score: crate::text::signed_decimal(d.required_score as int),
        attempt_limit: crate::text::signed_decimal(d.attempt_limit as int),
        topic: d.topic,
        status: status_name(d.status),
        questions: Seq::new(d.questions.len(), |i: int| request_of_question(d.questions[i])),
        url: d.url,
        created_at: instant_text(d.created_at),
        modified_at: instant_text(d.modified_at),
    }
}

/// The question read from its text form, a missing timestamp taken as
/// `now`, or the first refusal: options, timestamps, type, then the
/// numbers.
pub open spec fn question_from_request(r: QuestionRequestModel, now: i64) -> Result<crate::models::dto::quiz_dto::QuestionDtoModel, Seq<char>> {
    match options_result(r.options) {
        Err(e) => Err(e),
        Ok(opts) => match datetime_result(r.created_at) {
            Err(e) => Err(e),
            Ok(c) => match datetime_result(r.modified_at) {
                Err(e) => Err(e),
                Ok(m) => match question_type_result(r.question_type) {
                    Err(e) => Err(e),
                    Ok(qt) => match i16_field_result(r.option_count, "option_count"@) {
                        Err(e) => Err(e),
                        Ok(oc) => match i16_field_result(r.order, "order"@) {
                            Err(e) => Err(e),
                            Ok(ord) => match i16_field_result(r.attempt_limit, "attempt_limit"@) {
                                Err(e) => Err(e),
                                Ok(al) => Ok(crate::models::dto::quiz_dto::QuestionDtoModel {
                                    id: r.id,
                                    title: r.title,
                                    description: r.description,
                                    question_type: qt,
                                    options: opts,
                                    option_count: oc,
                                    order: ord,
                                    attempt_limit: al,
                                    topic: r.topic,
                                    created_at: match c { Some(t) => t, None => now },
                                    modified_at: match m { Some(t) => t, None => now },
                                }),
                            },
                        },
                    },
                },
            },
        },
    }
}

/// The questions read from their text forms, or the first refusal.
pub open spec fn questions_from_requests(rs: Seq<QuestionRequestModel>, now: i64) -> Result<Seq<crate::models::dto::quiz_dto::QuestionDtoModel>, Seq<char>>
    decreases rs.len(),
{
    if rs.len() == 0 {
        Ok(seq![])
    } else {
        match questions_from_requests(rs.drop_last(), now) {
            Err(e) => Err(e),
            Ok(qs) => match question_from_request(rs.last(), now) {
                Err(e) => Err(e),
                Ok(q) => Ok(qs.push(q)),
            },
        }
    }
}

/// The quiz read from its text form, missing timestamps taken as `now`, or
/// the first refusal: timestamps, numbers, status, then the questions.
pub open spec fn quiz_from_request(r: QuizRequestModel, now: i64) -> Result<crate::models::dto::quiz_dto::QuizDtoModel, Seq<char>> {
    match datetime_result(r.created_at) {
        Err(e) => Err(e),
        Ok(c) => match datetime_result(r.modified_at) {
            Err(e) => Err(e),
            Ok(m) => match i16_field_result(r.question_count, "question_count"@) {
                Err(e) => Err(e),
                Ok(qc) => match i16_field_result(r.required_score, "required_score"@) {
                    Err(e) => Err(e),
                    Ok(rs) => match i16_field_result(r.attempt_limit, "attempt_limit"@) {
                        Err(e) => Err(e),
                        Ok(al) => match status_result(r.status) {
                            Err(e) => Err(e),
                            Ok(st) => match questions_from_requests(r.questions, now) {
                                Err(e) => Err(e),
                                Ok(qs) => Ok(crate::models::dto::quiz_dto::QuizDtoModel {
                                    id: r.id,
                                    name: r.name,
                                    created_by_user_id: r.created_by_user_id,
                                    title: r.title,
                                    description: r.description,
                                    question_count: qc,
                                    required_score: rs,
                                    attempt_limit: al,
                                    topic: r.topic,
                                    status: st,
                                    questions: qs,
                                    url: r.url,
                                    created_at: match c { Some(t) => t, None => now },
                                    modified_at: match m { Some(t) => t, None => now },
                                }),
                            },
                        },
                    },
                },
            },
        },
    }
}

fn question_type_string(t: QuizQuestionType) -> (s: String)
    ensures
        s@ == question_type_text(t),
{
    match t {
        QuizQuestionType::Single => owned("Single"),
        QuizQuestionType::Multi => owned("Multi"),
        QuizQuestionType::Bool => owned("Bool"),
    }
}

/// The lower-case name of a status.
pub fn status_string(st: QuizStatus) -> (s: String)
    ensures
        s@ == status_name(st),
{
    match st {
        QuizStatus::Draft => owned("draft"),
        QuizStatus::Pending => owned("pending"),
        QuizStatus::Ready => owned("ready"),
        QuizStatus::Complete => owned("complete"),
    }
}

fn instant_string(t: i64) -> (s: String)
    ensures
        s@ == instant_text(t),
{
    match format_rfc3339(t) {
        Some(x) => x,
        None => String::new(),
    }
}

impl QuizQuestionRequestDto {
    /// The text form of a question: the type by name, the options as
    /// JSON, numbers in decimal, timestamps in RFC 3339.
    pub fn from(question: QuizQuestionDto) -> (r: Self)
        ensures
            r@ == request_of_question(question@),
    {
        let options = options_to_json(&question.options);
        QuizQuestionRequestDto {
            id: question.id,
            title: question.title,
            description: question.description,
            question_type: question_type_string(question.question_type),
            options,
            option_count: crate::text::signed_decimal_string(question.option_count as i64),
            order: crate::text::signed_decimal_string(question.order as i64),
            attempt_limit: crate::text::signed_decimal_string(question.attempt_limit as i64),
            topic: question.topic,
            created_at: instant_string(question.created_at),
            modified_at: instant_string(question.modified_at),
        }
    }
}

/// Whether `r` is the outcome `expected` of reading a question.
pub open spec fn question_read_as(r: AppResult<QuizQuestionDto>, expected: Result<QuestionDtoModel, Seq<char>>) -> bool {
    match expected {
        Ok(m) => r matches Ok(d) && d@ == m,
        Err(msg) => r matches Err(AppError::ValidationError(x)) && x@ == msg,
    }
}

/// Whether `r` is the outcome `expected` of reading a quiz.
pub open spec fn quiz_read_as(r: AppResult<QuizDto>, expected: Result<QuizDtoModel, Seq<char>>) -> bool {
    match expected {
        Ok(m) => r matches Ok(d) && d@ == m,
        Err(msg) => r matches Err(AppError::ValidationError(x)) && x@ == msg,
    }
}

impl QuizQuestionDto {
    /// Reads a question from its text form, a missing timestamp taken as
    /// `now`; the first field that cannot be read is reported.
    pub fn try_from_request_at(dto: QuizQuestionRequestDto, now: i64) -> (r: AppResult<QuizQuestionDto>)
        ensures
            question_read_as(r, question_from_request(dto@, now)),
    {
        let options = match parse_options_json(dto.options.as_str()) {
            Ok(o) => o,
            Err(e) => {
                return Err(e);
            },
        };
        let created_at = match parse_optional_datetime(dto.created_at.as_str()) {
            Ok(t) => t,
            Err(e) => {
                return Err(e);
            },
        };
        let modified_at = match parse_optional_datetime(dto.modified_at.as_str()) {
            Ok(t) => t,
            Err(e) => {
                return Err(e);
            },
        };
        let question_type = match parse_question_type(dto.question_type.as_str()) {
            Ok(t) => t,
            Err(e) => {
                return Err(e);
            },
        };
        proof { reveal_strlit("option_count"); reveal_strlit("order"); reveal_strlit("attempt_limit"); }
        let option_count = match parse_i16_required(dto.option_count.as_str(), "option_count") {
            Ok(x) => x,
            Err(e) => {
                return Err(e);
            },
        };
        let order = match parse_i16_required(dto.order.as_str(), "order") {
            Ok(x) => x,
            Err(e) => {
                return Err(e);
            },
        };
        let attempt_limit = match parse_i16_required(dto.attempt_limit.as_str(), "attempt_limit") {
            Ok(x) => x,
            Err(e) => {
                return Err(e);
            },
        };
        Ok(
            QuizQuestionDto {
                id: dto.id,
                title: dto.title,
                description: dto.description,
                question_type,
                options,
                option_count,
                order,
                attempt_limit,
                topic: dto.topic,
                created_at: match created_at {
                    Some(t) => t,
                    None => now,
                },
                modified_at: match modified_at {
                    Some(t) => t,
                    None => now,
                },
            },
        )
    }

    /// Reads a question from its text form, a missing timestamp taken as
    /// the current time.
    pub fn try_from(dto: QuizQuestionRequestDto) -> (r: AppResult<QuizQuestionDto>)
        ensures
            exists|now: i64| question_read_as(r, #[trigger] question_from_request(dto@, now)),
    {
        let now = crate::clock::now_micros();
        QuizQuestionDto::try_from_request_at(dto, now)
    }
}

impl QuizRequestDto {
    /// The text form of a quiz: numbers in decimal, the status in lower
    /// case, each question in text form, timestamps in RFC 3339.
    pub fn from(quiz: QuizDto) -> (r: Self)
        ensures
            r@ == request_of_quiz(quiz@),
    {
        let ghost qm = quiz@;
        let ghost all = quiz.questions@;
        let mut questions: Vec<QuizQuestionRequestDto> = Vec::new();
        let mut it = quiz.questions;
        let _total = it.len();
        let mut k: usize = 0;
        while it.len() > 0
            invariant
                k + it@.len() == all.len(),
                all.len() <= usize::MAX,
                it@ == all.skip(k as int),
                questions@.len() == k,
                forall|j: int| 0 <= j < k ==> (#[trigger] questions@[j])@ == request_of_question(all[j]@),
            decreases it.len(),
        {
            let q = it.remove(0);
            assert(q == all[k as int]);
            questions.push(QuizQuestionRequestDto::from(q));
            k += 1;
            assert(it@ =~= all.skip(k as int));
        }
        let r = QuizRequestDto {
            id: quiz.id,
            name: quiz.name,
            created_by_user_id: quiz.created_by_user_id,
            title: quiz.title,
            description: quiz.description,
            question_count: crate::text::signed_decimal_string(quiz.question_count as i64),
            required_score: crate::text::signed_decimal_string(quiz.required_score as i64),
            attempt_limit: crate::text::signed_decimal_string(quiz.attempt_limit as i64),
            topic: quiz.topic,
            status: status_string(quiz.status),
            questions,
            url: quiz.url,
            created_at: instant_string(quiz.created_at),
            modified_at: instant_string(quiz.modified_at),
        };
        assert(r@.questions =~= request_of_quiz(qm).questions);
        r
    }
}

proof fn lemma_questions_prefix_err(rs: Seq<QuestionRequestModel>, k: int, now: i64)
    requires
        0 <= k <= rs.len(),
        questions_from_requests(rs.take(k), now) is Err,
    ensures
        questions_from_requests(rs, now) == questions_from_requests(rs.take(k), now),
    decreases rs.len() - k,
{
    if k < rs.len() {
        assert(rs.take(k + 1).drop_last() =~= rs.take(k));
        lemma_questions_prefix_err(rs, k + 1, now);
    } else {
        assert(rs.take(k) =~= rs);
    }
}

fn read_questions(dtos: Vec<QuizQuestionRequestDto>, now: i64) -> (r: AppResult<Vec<QuizQuestionDto>>)
    ensures
        match questions_from_requests(question_requests_model(dtos@), now) {
            Ok(qs) => r matches Ok(v) && question_dtos_model(v@) == qs,
            Err(msg) => r matches Err(AppError::ValidationError(x)) && x@ == msg,
        },
{
    let ghost all = question_requests_model(dtos@);
    let ghost src = dtos@;
    let mut out: Vec<QuizQuestionDto> = Vec::new();
    let mut it = dtos;
    let _total = it.len();
    let mut k: usize = 0;
    assert(all.take(0) =~= Seq::<QuestionRequestModel>::empty());
    assert(question_dtos_model(out@) =~= Seq::<QuestionDtoModel>::empty());
    while it.len() > 0
        invariant
            k + it@.len() == src.len(),
            src.len() <= usize::MAX,
            all == question_requests_model(src),
            src == dtos@,
            it@ == src.skip(k as int),
            questions_from_requests(all.take(k as int), now) == Ok::<Seq<QuestionDtoModel>, Seq<char>>(question_dtos_model(out@)),
        decreases it.len(),
    {
        let q = it.remove(0);
        assert(q == src[k as int]);
        assert(all.take(k + 1).drop_last() =~= all.take(k as int));
        assert(all.take(k + 1).last() == q@);
        match QuizQuestionDto::try_from_request_at(q, now) {
            Ok(d) => {
                let ghost before = out@;
                out.push(d);
                assert(question_dtos_model(out@) =~= question_dtos_model(before).push(d@));
            },
            Err(e) => {
                assert(question_from_request(q@, now) is Err);
                assert(questions_from_requests(all.take(k + 1), now) == Err::<Seq<QuestionDtoModel>, Seq<char>>(question_from_request(q@, now)->Err_0));
                proof { lemma_questions_prefix_err(all, k + 1, now); }
                assert(questions_from_requests(all, now) == Err::<Seq<QuestionDtoModel>, Seq<char>>(question_from_request(q@, now)->Err_0));
                return Err(e);
            },
        }
        k += 1;
        assert(it@ =~= src.skip(k as int));
    }
    assert(all.take(k as int) =~= all);
    Ok(out)
}

impl QuizDto {
    /// Reads a quiz from its text form, missing timestamps taken as `now`;
    /// the first field that cannot be read is reported.
    pub fn try_from_request_at(dto: QuizRequestDto, now: i64) -> (r: AppResult<QuizDto>)
        ensures
            quiz_read_as(r, quiz_from_request(dto@, now)),
    {
        let created_at = match parse_optional_datetime(dto.created_at.as_str()) {
            Ok(t) => t,
            Err(e) => {
                return Err(e);
            },
        };
        let modified_at = match parse_optional_datetime(dto.modified_at.as_str()) {
            Ok(t) => t,
            Err(e) => {
                return Err(e);
            },
        };
        proof { reveal_strlit("question_count"); reveal_strlit("required_score"); reveal_strlit("attempt_limit"); }
        let question_count = match parse_i16_required(dto.question_count.as_str(), "question_count") {
            Ok(x) => x,
            Err(e) => {
                return Err(e);
            },
        };
        let required_score = match parse_i16_required(dto.required_score.as_str(), "required_score") {
            Ok(x) => x,
            Err(e) => {
                return Err(e);
            },
        };
        let attempt_limit = match parse_i16_required(dto.attempt_limit.as_str(), "attempt_limit") {
            Ok(x) => x,
            Err(e) => {
                return Err(e);
            },
        };
        let status = match parse_quiz_status(dto.status.as_str()) {
            Ok(x) => x,
            Err(e) => {
                return Err(e);
            },
        };
        let questions = match read_questions(dto.questions, now) {
            Ok(q) => q,
            Err(e) => {
                return Err(e);
            },
        };
        Ok(
            QuizDto {
                id: dto.id,
                name: dto.name,
                created_by_user_id: dto.created_by_user_id,
                title: dto.title,
                description: dto.description,
                question_count,
                required_score,
                attempt_limit,
                topic: dto.topic,
                status,
                questions,
                url: dto.url,
                created_at: match created_at {
                    Some(t) => t,
                    None => now,
                },
                modified_at: match modified_at {
                    Some(t) => t,
                    None => now,
                },
            },
        )
    }

    /// Reads a quiz from its text form, missing timestamps taken as the
    /// current time.
    pub fn try_from(dto: QuizRequestDto) -> (r: AppResult<QuizDto>)
        ensures
            exists|now: i64| quiz_read_as(r, #[trigger] quiz_from_request(dto@, now)),
    {
        let now = crate::clock::now_micros();
        QuizDto::try_from_request_at(dto, now)
    }
}

proof fn lemma_digits_of_decimal(n: nat, neg: bool)
    requires
        neg ==> n <= 32768,
        !neg ==> n <= 32767,
    ensures
        digits_value(crate::text::decimal(n), neg) == Ok::<int, IntErrorKind>(if neg { -(n as int) } else { n as int }),
        crate::text::decimal(n).len() >= 1,
        '0' <= crate::text::decimal(n)[0] <= '9',
    decreases n,
{
    let d = crate::text::decimal(n);
    if n < 10 {
        assert(d.drop_last() =~= Seq::<char>::empty());
        let c = crate::text::digit_char(n);
        assert(d.last() == c);
        assert(c as u32 == 48 + n);
        assert('0' <= c <= '9');
        assert((c as u32) - ('0' as u32) == n);
        assert(digits_value(d.drop_last(), neg) == Ok::<int, IntErrorKind>(0));
    } else {
        lemma_digits_of_decimal(n / 10, neg);
        assert(d.drop_last() =~= crate::text::decimal(n / 10));
        let c = crate::text::digit_char(n % 10);
        assert(d.last() == c);
        assert(c as u32 == 48 + n % 10);
        assert('0' <= c <= '9');
        assert((c as u32) - ('0' as u32) == n % 10);
        assert(d[0] == crate::text::decimal(n / 10)[0]);
        assert(n == (n / 10) * 10 + n % 10) by (nonlinear_arith);
        let v: int = if neg { -((n / 10) as int) } else { (n / 10) as int };
        assert(digits_value(d.drop_last(), neg) == Ok::<int, IntErrorKind>(v));
        assert((if neg { v * 10 - (n % 10) } else { v * 10 + (n % 10) }) == (if neg { -(n as int) } else { n as int })) by (nonlinear_arith)
            requires
                n == (n / 10) * 10 + n % 10,
                v == (if neg { -((n / 10) as int) } else { (n / 10) as int });
    }
}

/// A number written in decimal reads back as the same number.
pub proof fn lemma_i16_text_round_trip(x: i16)
    ensures
        i16_of(crate::text::signed_decimal(x as int)) == Ok::<int, IntErrorKind>(x as int),
{
    let s = crate::text::signed_decimal(x as int);
    if x < 0 {
        lemma_digits_of_decimal((-x) as nat, true);
        assert(s.skip(1) =~= crate::text::decimal((-x) as nat));
        assert(s[0] == '-');
        assert(s.len() > 1);
    } else {
        lemma_digits_of_decimal(x as nat, false);
    }
}

/// The name of a status reads back as the same status.
pub proof fn lemma_status_text_round_trip(st: QuizStatus)
    ensures
        status_named(status_name(st)) == Some(st),
{
    reveal_strlit("draft");
    reveal_strlit("pending");
    reveal_strlit("ready");
    reveal_strlit("complete");
    let t = status_name(st);
    crate::text::lemma_trim_ascii_word(t);
    assert(ascii_lower(t) =~= t);
    assert("draft"@.len() == 5 && "pending"@.len() == 7 && "ready"@.len() == 5 && "complete"@.len() == 8);
    assert("draft"@[0] != "ready"@[0]);
    assert("pending"@ != "draft"@);
    assert("ready"@ != "draft"@ && "ready"@ != "pending"@);
    assert("complete"@ != "draft"@ && "complete"@ != "pending"@ && "complete"@ != "ready"@);
}

/// The name of a question type reads back as the same type.
pub proof fn lemma_question_type_text_round_trip(t: QuizQuestionType)
    ensures
        question_type_named(question_type_text(t)) == Some(t),
{
    reveal_strlit("Single");
    reveal_strlit("Multi");
    reveal_strlit("Bool");
    reveal_strlit("single");
    reveal_strlit("multi");
    reveal_strlit("bool");
    reveal_strlit("boolean");
    let n = question_type_text(t);
    crate::text::lemma_trim_ascii_word(n);
    let l = ascii_lower(n);
    match t {
        QuizQuestionType::Single => {
            assert(l =~= "single"@);
        },
        QuizQuestionType::Multi => {
            assert(l =~= "multi"@);
            assert(l != "single"@);
        },
        QuizQuestionType::Bool => {
            assert(l =~= "bool"@);
            assert(l != "single"@);
            assert(l != "multi"@);
        },
    }
}

} // verus!
