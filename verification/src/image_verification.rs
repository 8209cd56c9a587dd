//! Sessions in which users verify images: the records, and how the errors
//! of the database functions are answered.
use vstd::prelude::*;
use crate::error::{InsignoError, both_error, debug_error};
use crate::text::str_eq;

verus! {

broadcast use vstd::string::group_string_axioms;

/// An image to verify in a session.
pub struct ImageVerification {
    pub image_id: i64,
    pub marker_id: i64,
    pub verdict: Option<bool>,
    pub marker_types_id: i64,
    pub all_marker_images: Vec<i64>,
}

/// A row of the image verifications table.
pub struct ImageVerificationDiesel {
    pub id: Option<i64>,
    pub verification_session: Option<i64>,
    pub image_id: i64,
    pub marker_id: i64,
    pub verdict: Option<bool>,
}

/// The form of a verdict on an image.
pub struct SetVerdictData {
    pub image_id: i64,
    pub verdict: bool,
}

/// The error answered when a session cannot be given, from the database
/// message: 403 "You can't verify right now" where the user may not verify
/// yet, else 500 with the message in the log.
pub fn session_error(msg: &str) -> (e: InsignoError)
    ensures
        msg@ == "cant_verify_now"@ ==> both_error(e, 403, "You can't verify right now"@),
        msg@ != "cant_verify_now"@ ==> debug_error(e, 500, msg@),
{
    if str_eq(msg, "cant_verify_now") {
        let m = "You can't verify right now";
        InsignoError::new(403, m, m)
    } else {
        InsignoError::new_debug(500, msg)
    }
}

/// The error answered when a verdict cannot be set, from the database
/// message: as for a session, and 404 where there is no such session.
pub fn verdict_error(msg: &str) -> (e: InsignoError)
    ensures
        msg@ == "cant_verify_now"@ ==> both_error(e, 403, "You can't verify right now"@),
        msg@ == "session_not_found"@ ==> both_error(
            e,
            404,
            "No active session with the image and the user provided"@,
        ),
        msg@ != "cant_verify_now"@ && msg@ != "session_not_found"@ ==> debug_error(e, 500, msg@),
{
    proof {
        reveal_strlit("cant_verify_now");
        reveal_strlit("session_not_found");
        assert("session_not_found"@.len() != "cant_verify_now"@.len());
    }
    if str_eq(msg, "cant_verify_now") {
        let m = "You can't verify right now";
        InsignoError::new(403, m, m)
    } else if str_eq(msg, "session_not_found") {
        let m = "No active session with the image and the user provided";
        InsignoError::new(404, m, m)
    } else {
        InsignoError::new_debug(500, msg)
    }
}

} // verus!
