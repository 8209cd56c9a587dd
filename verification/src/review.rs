//! Markers and their images: the review verdicts, and how the errors of the
//! database functions are answered.
use vstd::prelude::*;
use crate::error::{InsignoError, both_error};
use crate::text::{trim, to_ascii_lowercase, trim_spec, ascii_lower_spec, str_eq};

verus! {

/// The decision taken on an image that was sent for approval.
#[derive(Debug, Clone, Copy, PartialEq, Eq, Structural)]
pub enum Verdict {
    /// The image is approved.
    Approve,
    /// The image is deleted.
    Delete,
    /// The image is deleted and its author reported.
    DeleteReport,
    /// Nothing is done.
    Skip,
}

/// The normal form of a verdict text: white space around it removed, then
/// ASCII letters made small.
pub open spec fn verdict_text(v: Seq<char>) -> Seq<char> {
    ascii_lower_spec(trim_spec(v))
}

/// The verdict written in `v`, if any.
pub open spec fn verdict_of(v: Seq<char>) -> Option<Verdict> {
    let t = verdict_text(v);
    if t == "ok"@ {
        Some(Verdict::Approve)
    } else if t == "delete"@ {
        Some(Verdict::Delete)
    } else if t == "delete_report"@ {
        Some(Verdict::DeleteReport)
    } else if t == "skip"@ {
        Some(Verdict::Skip)
    } else {
        None
    }
}

/// Reads the decision written in a form: an unknown word is a 422 error
/// "opzione non riconosciuta".
pub fn parse_verdict(verdict: &str) -> (res: Result<Verdict, InsignoError>)
    ensures
        match verdict_of(verdict@) {
            Some(v) => res == Ok::<Verdict, InsignoError>(v),
            None => (res matches Err(e) && both_error(e, 422, "opzione non riconosciuta"@)),
        },
{
    let trimmed = trim(verdict);
    let v = to_ascii_lowercase(trimmed.as_str());
    if str_eq(v.as_str(), "ok") {
        Ok(Verdict::Approve)
    } else if str_eq(v.as_str(), "delete") {
        Ok(Verdict::Delete)
    } else if str_eq(v.as_str(), "delete_report") {
        Ok(Verdict::DeleteReport)
    } else if str_eq(v.as_str(), "skip") {
        Ok(Verdict::Skip)
    } else {
        let m = "opzione non riconosciuta";
        Err(InsignoError::new(422, m, m))
    }
}

/// The status answered when resolving a marker fails with the database
/// message `msg`: 404 for an unknown marker, 400 for a marker already
/// resolved, else 500.
pub fn resolve_error_status(msg: &str) -> (code: u16)
    ensures
        code == (if msg@ == "marker_non_trovato"@ {
            404u16
        } else if msg@ == "marker_risolto"@ {
            400u16
        } else {
            500u16
        }),
{
    if str_eq(msg, "marker_non_trovato") {
        404
    } else if str_eq(msg, "marker_risolto") {
        400
    } else {
        500
    }
}

} // verus!
