//! Cross-origin resource sharing: the headers added to every response, and
//! the two routes of the CORS stage.
use vstd::prelude::*;

verus! {

/// The answer of the CORS index route.
pub fn index() -> (s: &'static str)
    ensures
        s@ == "Hello CORS"@,
{
    "Hello CORS"
}

/// The answer to any OPTIONS request: nothing, the headers do the work.
pub fn all_options() {
}

/// The CORS fairing.
pub struct Cors;

impl Cors {
    /// The headers that every response gets, by name and value, in the order
    /// they are set.
    pub fn headers(&self) -> (h: Vec<(&'static str, &'static str)>)
        ensures
            h@.len() == 4,
            h@[0].0@ == "Access-Control-Allow-Origin"@ && h@[0].1@ == "*"@,
            h@[1].0@ == "Access-Control-Allow-Methods"@ && h@[1].1@
                == "POST, PATCH, PUT, DELETE, HEAD, OPTIONS, GET"@,
            h@[2].0@ == "Access-Control-Allow-Headers"@ && h@[2].1@ == "*"@,
            h@[3].0@ == "Access-Control-Allow-Credentials"@ && h@[3].1@ == "true"@,
    {
        let mut h: Vec<(&'static str, &'static str)> = Vec::new();
        h.push(("Access-Control-Allow-Origin", "*"));
        h.push(("Access-Control-Allow-Methods", "POST, PATCH, PUT, DELETE, HEAD, OPTIONS, GET"));
        h.push(("Access-Control-Allow-Headers", "*"));
        h.push(("Access-Control-Allow-Credentials", "true"));
        h
    }

    /// The name of the fairing.
    pub fn name(&self) -> (s: &'static str)
        ensures
            s@ == "Cross-Origin-Resource-Sharing Fairing"@,
    {
        "Cross-Origin-Resource-Sharing Fairing"
    }
}

} // verus!
