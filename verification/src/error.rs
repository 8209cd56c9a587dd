//! The error type that every request handler answers with.
use vstd::prelude::*;

verus! {

/// True for the status codes that have a canonical reason phrase.
pub open spec fn known_status(code: u16) -> bool {
    ||| 100 <= code <= 102
    ||| 200 <= code <= 208
    ||| code == 226
    ||| 300 <= code <= 305
    ||| 307 <= code <= 308
    ||| 400 <= code <= 418
    ||| 421 <= code <= 424
    ||| code == 426
    ||| code == 428
    ||| code == 429
    ||| code == 431
    ||| code == 451
    ||| 500 <= code <= 508
    ||| 510 <= code <= 511
}

/// `rocket::http::Status::from_code`: the status is known exactly for the
/// codes of `known_status`, and then carries the code it was made from.
#[verifier::external_body]
fn status_from_code(code: u16) -> (res: Option<u16>)
    ensures
        res == (if known_status(code) { Some(code) } else { None::<u16> }),
{
    rocket::http::Status::from_code(code).map(|s| s.code)
}

/// An error answered to a client: an HTTP status code, an optional text for
/// the client and an optional text for the log.
#[derive(Debug)]
pub struct InsignoError {
    pub debug: Option<String>,
    pub client: Option<String>,
    pub code: u16,
}

impl InsignoError {
    /// An error made of a known status code alone.
    pub fn new_code(v: i32) -> (e: InsignoError)
        requires
            known_status(v as u16),
        ensures
            e.code == v as u16,
            e.debug is None,
            e.client is None,
    {
        let code = status_from_code(v as u16);
        match code {
            Some(c) => InsignoError { debug: None, client: None, code: c },
            None => InsignoError { debug: None, client: None, code: v as u16 },
        }
    }

    /// An error with a text for the log only.
    pub fn new_debug(v: i32, s: &str) -> (e: InsignoError)
        ensures
            e.code == v as u16,
            e.debug matches Some(d) && d@ == s@,
            e.client is None,
    {
        InsignoError { debug: Some(s.to_owned()), client: None, code: v as u16 }
    }

    /// An error with a text for the client and a text for the log.
    pub fn new(v: i32, client: &str, debug: &str) -> (e: InsignoError)
        ensures
            e.code == v as u16,
            e.debug matches Some(d) && d@ == debug@,
            e.client matches Some(c) && c@ == client@,
    {
        InsignoError {
            debug: Some(debug.to_owned()),
            client: Some(client.to_owned()),
            code: v as u16,
        }
    }
}

/// `e` has this code and `m` both as its client text and as its log text.
pub open spec fn both_error(e: InsignoError, code: u16, m: Seq<char>) -> bool {
    &&& e.code == code
    &&& e.client matches Some(c) && c@ == m
    &&& e.debug matches Some(d) && d@ == m
}

/// `e` has this code and `m` as its log text, and no client text.
pub open spec fn debug_error(e: InsignoError, code: u16, m: Seq<char>) -> bool {
    &&& e.code == code
    &&& e.client is None
    &&& e.debug matches Some(d) && d@ == m
}

impl InsignoError {
    /// The text written to the log: the log text, else the client text, else
    /// a fixed text.
    pub fn log_text(&self) -> (t: String)
        ensures
            t@ == (match self.debug {
                Some(d) => d@,
                None => match self.client {
                    Some(c) => c@,
                    None => "no string provided"@,
                },
            }),
    {
        match &self.debug {
            Some(d) => d.clone(),
            None => match &self.client {
                Some(c) => c.clone(),
                None => "no string provided".to_owned(),
            },
        }
    }
}

} // verus!
