//! Actions that wait for a confirmation through a link sent by mail, and
//! the random tokens that name them.
use vstd::prelude::*;
use crate::error::{InsignoError, both_error};
use crate::text::{is_ascii_alnum, all_ascii_alphanumeric};

verus! {

/// An action that waits for confirmation.
#[derive(Debug, Clone)]
pub enum PendingAction {
    /// name, email, password hash
    RegisterUser(String, String, String),
    /// user id, new password hash
    ChangePassword(i64, String),
    /// user id
    DeleteUser(i64),
}

/// `OsRng.sample_iter(&Alphanumeric).take(len)` collected into a string: the
/// characters are ASCII letters and digits, chosen at random.
#[verifier::external_body]
fn os_random_alphanumeric(len: usize) -> (s: String)
    ensures
        s@.len() == len,
        forall|i: int| 0 <= i < s@.len() ==> is_ascii_alnum(#[trigger] s@[i]),
{
    rand::Rng::sample_iter(rand::rngs::OsRng, &rand::distributions::Alphanumeric).take(len).map(
        char::from,
    ).collect()
}

/// A text made only of ASCII letters and digits.
pub open spec fn token_chars_valid(t: Seq<char>) -> bool {
    forall|i: int| 0 <= i < t.len() ==> is_ascii_alnum(#[trigger] t[i])
}

/// A random token of 20 ASCII letters and digits.
pub fn generate_token() -> (t: String)
    ensures
        t@.len() == 20,
        token_chars_valid(t@),
{
    os_random_alphanumeric(20)
}

/// A token may only hold ASCII letters and digits; anything else is a 422
/// error "token invalido".
pub fn check_token(token: &str) -> (res: Result<(), InsignoError>)
    ensures
        res is Ok <==> token_chars_valid(token@),
        res matches Err(e) ==> both_error(e, 422, "token invalido"@),
{
    if !all_ascii_alphanumeric(token) {
        let s = "token invalido";
        return Err(InsignoError::new(422, s, s));
    }
    Ok(())
}

/// The link that confirms the action named by `token`.
pub fn verify_link(token: &str) -> (link: String)
    ensures
        link@ == "https://insigno.mindshub.it/verify/"@ + token@,
{
    let mut link = "https://insigno.mindshub.it/verify/".to_owned();
    link.append(token);
    link
}

/// A request that waits for confirmation: the token of its link, and what
/// to do once it is confirmed. The table adds the id and the date.
pub struct Pending {
    pub id: Option<i64>,
    pub token: String,
    pub action: PendingAction,
}

impl Pending {
    /// A new request for `action`, with a fresh random token.
    pub fn new(action: PendingAction) -> (p: Pending)
        ensures
            p.id is None,
            p.action == action,
            p.token@.len() == 20,
            token_chars_valid(p.token@),
    {
        let token = generate_token();
        Pending { id: None, token, action }
    }
}

} // verus!
