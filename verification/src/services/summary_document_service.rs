//! The rules of storing and fetching summaries.

use vstd::prelude::*;

use crate::errors::{AppError, AppResult};
use crate::models::domain::summary_document::SummaryDocument;
use crate::text::{concat3, trim, trimmed};

verus! {

/// The refusal of a summary that is not stored.
pub fn summary_not_found(id: &str) -> (e: AppError)
    ensures
        e matches AppError::NotFound(m) && m@ == "Summary document with id '"@ + id@ + "' not found"@,
{
    AppError::NotFound(concat3("Summary document with id '", id, "' not found"))
}

/// A summary ready to be stored: its content must not be blank; a missing
/// timestamp is set to `now`.
pub fn prepare_summary_document(document: SummaryDocument, now: i64) -> (r: AppResult<SummaryDocument>)
    ensures
        trim(document.content@).len() == 0 ==> (r matches Err(AppError::ValidationError(m))
            && m@ == "Summary document content cannot be empty"@),
        trim(document.content@).len() > 0 ==> (r matches Ok(d) && d.id == document.id && d.quiz_id == document.quiz_id
            && d.url == document.url && d.content == document.content
            && d.created_at == Some(match document.created_at { Some(t) => t, None => now })
            && d.modified_at == Some(match document.modified_at { Some(t) => t, None => now })),
{
    let t = trimmed(document.content.as_str());
    if t.as_str().is_empty() {
        return Err(AppError::ValidationError(crate::text::owned("Summary document content cannot be empty")));
    }
    let mut document = document;
    if document.created_at.is_none() {
        document.created_at = Some(now);
    }
    if document.modified_at.is_none() {
        document.modified_at = Some(now);
    }
    Ok(document)
}

} // verus!
