//! Summaries of a quiz's source page.

use vstd::prelude::*;

use crate::clock::{new_uuid, now_micros};
use crate::errors::AppResult;
use crate::models::dto::request::{
    datetime_result, instant_text, parse_optional_datetime, SummaryDocumentRequestDto,
};
use crate::text::owned;

verus! {

/// A summary of the page a quiz is drawn from. Timestamps are
/// microseconds since the epoch.
#[derive(Debug)]
pub struct SummaryDocument {
    pub id: String,
    pub quiz_id: String,
    pub url: String,
    pub content: String,
    pub created_at: Option<i64>,
    pub modified_at: Option<i64>,
}

impl SummaryDocument {
    /// A new summary with a fresh random id, stamped with the current time.
    pub fn new_summary_document(url: &str, quiz_id: &str, content: &str) -> (d: Self)
        ensures
            crate::clock::uuid_v4_text(d.id@),
            d.quiz_id@ == quiz_id@,
            d.url@ == url@,
            d.content@ == content@,
            d.created_at is Some,
            d.modified_at is Some,
    {
        SummaryDocument {
            id: new_uuid(),
            quiz_id: owned(quiz_id),
            content: owned(content),
            url: owned(url),
            created_at: Some(now_micros()),
            modified_at: Some(now_micros()),
        }
    }

    /// Reads a summary from its text form; the timestamps, when given,
    /// must be RFC 3339.
    pub fn try_from(dto: SummaryDocumentRequestDto) -> (r: AppResult<SummaryDocument>)
        ensures
            match (datetime_result(dto.created_at@), datetime_result(dto.modified_at@)) {
                (Ok(c), Ok(m)) => r matches Ok(d) && d.id == dto.id && d.quiz_id == dto.quiz_id && d.url == dto.url
                    && d.content == dto.content && d.created_at == c && d.modified_at == m,
                (Err(e), _) => r matches Err(crate::errors::AppError::ValidationError(x)) && x@ == e,
                (Ok(_), Err(e)) => r matches Err(crate::errors::AppError::ValidationError(x)) && x@ == e,
            },
    {
        let created_at = match parse_optional_datetime(dto.created_at.as_str()) {
            Ok(t) => t,
            Err(e) => {
                return Err(e);
            },
        };
        let modified_at = match parse_optional_datetime(dto.modified_at.as_str()) {
            Ok(t) => t,
            Err(e) => {
                return Err(e);
            },
        };
        Ok(
            SummaryDocument {
                id: dto.id,
                quiz_id: dto.quiz_id,
                url: dto.url,
                content: dto.content,
                created_at,
                modified_at,
            },
        )
    }
}

/// The RFC 3339 text of an optional instant, empty when absent.
pub open spec fn optional_instant_text(t: Option<i64>) -> Seq<char> {
    match t {
        Some(x) => instant_text(x),
        None => seq![],
    }
}

fn optional_instant_string(t: Option<i64>) -> (s: String)
    ensures
        s@ == optional_instant_text(t),
{
    match t {
        Some(x) => match crate::models::dto::request::format_rfc3339(x) {
            Some(v) => v,
            None => String::new(),
        },
        None => String::new(),
    }
}

impl SummaryDocumentRequestDto {
    /// The text form of a summary; a missing timestamp is empty.
    pub fn from(document: SummaryDocument) -> (r: Self)
        ensures
            r.id == document.id,
            r.quiz_id == document.quiz_id,
            r.url == document.url,
            r.content == document.content,
            r.created_at@ == optional_instant_text(document.created_at),
            r.modified_at@ == optional_instant_text(document.modified_at),
    {
        SummaryDocumentRequestDto {
            id: document.id,
            quiz_id: document.quiz_id,
            url: document.url,
            content: document.content,
            created_at: optional_instant_string(document.created_at),
            modified_at: optional_instant_string(document.modified_at),
        }
    }
}

} // verus!
