//! Logging in: the login form, and the session cookie `"<user id> <token>"`.
use vstd::prelude::*;
use crate::error::{InsignoError, both_error};
use crate::number::{i64_decimal, i64_to_string, parse_i64, parse_i64_spec, lemma_decimal_roundtrip};
use crate::pending::token_chars_valid;
use crate::text::{split_spec, split_char, trim_spec, all_ascii_alphanumeric, lemma_split_concat, lemma_split_no_sep};
use crate::validation::{
    Email, Password, SanitizeEmail, SanitizePassword, email_valid, format_email_spec,
};

verus! {

/// The login form.
pub struct LoginInfo {
    pub email: String,
    pub password: String,
}

impl Email for LoginInfo {
    open spec fn email_of(&self) -> String {
        self.email
    }

    open spec fn with_email(&self, e: String) -> Self {
        LoginInfo { email: e, password: self.password }
    }

    proof fn lemma_email_of_with(&self, e: String) {
    }

    proof fn lemma_with_own_email(&self) {
    }

    fn get_email(&mut self) -> (r: &mut String) {
        &mut self.email
    }
}

impl Password for LoginInfo {
    open spec fn password_of(&self) -> String {
        self.password
    }

    open spec fn with_password(&self, p: String) -> Self {
        LoginInfo { email: self.email, password: p }
    }

    proof fn lemma_password_of_with(&self, p: String) {
    }

    proof fn lemma_with_own_password(&self) {
    }

    proof fn lemma_with_password_twice(&self, a: String, b: String) {
    }

    fn get_password(&mut self) -> (r: &mut String) {
        &mut self.password
    }
}

impl LoginInfo {
    /// Brings the email address to its normal form and checks it (a 401
    /// error "Mail invalida" where it is refused), then removes the white
    /// space around the password.
    pub fn sanitize(&mut self) -> (res: Result<(), InsignoError>)
        ensures
            final(self).email@ == format_email_spec(old(self).email@),
            !email_valid(final(self).email@) ==> final(self).password == old(self).password && (
            res matches Err(e) && both_error(e, 401, "Mail invalida"@)),
            email_valid(final(self).email@) ==> final(self).password@ == trim_spec(
                old(self).password@,
            ) && res is Ok,
    {
        match self.sanitize_email() {
            Ok(()) => {},
            Err(x) => {
                return Err(InsignoError::new(401, x, x));
            },
        }
        self.fmt_password();
        Ok(())
    }
}

/// The value of the session cookie of user `id` with session token `token`.
pub open spec fn auth_cookie_spec(id: i64, token: Seq<char>) -> Seq<char> {
    i64_decimal(id) + seq![' '] + token
}

/// The value of the session cookie of user `id` with session token `token`.
pub fn auth_cookie_value(id: i64, token: &str) -> (v: String)
    ensures
        v@ == auth_cookie_spec(id, token@),
{
    let mut v = i64_to_string(id);
    v.append(" ");
    v.append(token);
    proof {
        reveal_strlit(" ");
    }
    v
}

/// The pieces of a session cookie value.
pub open spec fn cookie_parts(v: Seq<char>) -> Seq<Seq<char>> {
    split_spec(v, ' ')
}

/// A cookie value that the cookie check reads without failing: at least
/// two pieces, the first a number.
pub open spec fn cookie_readable(v: Seq<char>) -> bool {
    &&& cookie_parts(v).len() >= 2
    &&& parse_i64_spec(cookie_parts(v)[0]) is Some
}

/// The user id and session token of a session cookie value: a token with
/// anything but ASCII letters and digits is a 401 error "sql injection?".
pub fn parse_auth_cookie(v: &str) -> (res: Result<(i64, String), InsignoError>)
    requires
        cookie_readable(v@),
    ensures
        token_chars_valid(cookie_parts(v@)[1]) ==> (res matches Ok((id, tok)) && Some(id)
            == parse_i64_spec(cookie_parts(v@)[0]) && tok@ == cookie_parts(v@)[1]),
        !token_chars_valid(cookie_parts(v@)[1]) ==> (res matches Err(e) && both_error(
            e,
            401,
            "sql injection?"@,
        )),
{
    let parts = split_char(v, ' ');
    assert(parts@[0]@ == cookie_parts(v@)[0]);
    assert(parts@[1]@ == cookie_parts(v@)[1]);
    let id = parse_i64(parts[0].as_str()).unwrap();
    let tok = parts[1].clone();
    if !all_ascii_alphanumeric(tok.as_str()) {
        let m = "sql injection?";
        return Err(InsignoError::new(401, m, m));
    }
    Ok((id, tok))
}

/// Reading the cookie of a user id and a token gives them back.
pub proof fn lemma_auth_cookie_roundtrip(id: i64, token: Seq<char>)
    requires
        token_chars_valid(token),
    ensures
        cookie_readable(auth_cookie_spec(id, token)),
        parse_i64_spec(cookie_parts(auth_cookie_spec(id, token))[0]) == Some(id),
        cookie_parts(auth_cookie_spec(id, token))[1] == token,
        token_chars_valid(cookie_parts(auth_cookie_spec(id, token))[1]),
{
    let d = i64_decimal(id);
    lemma_decimal_roundtrip(id);
    assert(!d.contains(' ')) by {
        if d.contains(' ') {
            let i = choose|i: int| 0 <= i < d.len() && d[i] == ' ';
            crate::number::lemma_decimal_chars(id, i);
        }
    }
    assert(!token.contains(' ')) by {
        if token.contains(' ') {
            let i = choose|i: int| 0 <= i < token.len() && token[i] == ' ';
            assert(crate::text::is_ascii_alnum(token[i]));
        }
    }
    lemma_split_concat(d, token, ' ');
    lemma_split_no_sep(d, ' ');
    lemma_split_no_sep(token, ' ');
    assert(cookie_parts(auth_cookie_spec(id, token)) =~= seq![d, token]);
}

/// Whether the cookie check can read `v`.
pub fn is_cookie_readable(v: &str) -> (b: bool)
    ensures
        b == cookie_readable(v@),
{
    let parts = split_char(v, ' ');
    if parts.len() < 2 {
        return false;
    }
    assert(parts@[0]@ == cookie_parts(v@)[0]);
    parse_i64(parts[0].as_str()).is_some()
}

} // verus!
