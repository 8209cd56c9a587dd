//! Signing up: the signup form, its checks, and the account it creates.
use vstd::prelude::*;
use crate::error::{InsignoError, both_error, debug_error};
use crate::pending::PendingAction;
use crate::text::trim_spec;
use crate::user::UserRecord;
use crate::validation::{
    Email, Name, Password, SanitizeEmail, SanitizeName, SanitizePassword, email_valid,
    format_email_spec, name_error, password_error, hashed_password,
};

verus! {

/// The signup form.
pub struct SignupInfo {
    pub name: String,
    pub email: String,
    pub password: String,
}

impl Email for SignupInfo {
    open spec fn email_of(&self) -> String {
        self.email
    }

    open spec fn with_email(&self, e: String) -> Self {
        SignupInfo { name: self.name, email: e, password: self.password }
    }

    proof fn lemma_email_of_with(&self, e: String) {
    }

    proof fn lemma_with_own_email(&self) {
    }

    fn get_email(&mut self) -> (r: &mut String) {
        &mut self.email
    }
}

impl Name for SignupInfo {
    open spec fn name_of(&self) -> String {
        self.name
    }

    open spec fn with_name(&self, n: String) -> Self {
        SignupInfo { name: n, email: self.email, password: self.password }
    }

    proof fn lemma_name_of_with(&self, n: String) {
    }

    proof fn lemma_with_own_name(&self) {
    }

    fn get_name(&mut self) -> (r: &mut String) {
        &mut self.name
    }
}

impl Password for SignupInfo {
    open spec fn password_of(&self) -> String {
        self.password
    }

    open spec fn with_password(&self, p: String) -> Self {
        SignupInfo { name: self.name, email: self.email, password: p }
    }

    proof fn lemma_password_of_with(&self, p: String) {
    }

    proof fn lemma_with_own_password(&self) {
    }

    proof fn lemma_with_password_twice(&self, a: String, b: String) {
    }

    fn get_password(&mut self) -> (r: &mut String) {
        &mut self.password
    }
}

impl SignupInfo {
    /// Brings the email address, the name and the password to their normal
    /// form and checks them, in that order: a refusal is a 401 error whose
    /// texts are the rule's message, and leaves the later fields as they
    /// were. A password that passes is replaced by its hash.
    pub fn sanitize(&mut self) -> (res: Result<(), InsignoError>)
        ensures
            final(self).email@ == format_email_spec(old(self).email@),
            !email_valid(final(self).email@) ==> final(self).name == old(self).name
                && final(self).password == old(self).password && (res matches Err(e) && both_error(
                e,
                401,
                "Mail invalida"@,
            )),
            email_valid(final(self).email@) ==> final(self).name@ == trim_spec(old(self).name@),
            email_valid(final(self).email@) && name_error(final(self).name@) is Some
                ==> final(self).password == old(self).password && (res matches Err(e) && both_error(
                e,
                401,
                name_error(final(self).name@)->0@,
            )),
            email_valid(final(self).email@) && name_error(final(self).name@) is None ==> match password_error(
                trim_spec(old(self).password@),
            ) {
                Some(m) => final(self).password@ == trim_spec(old(self).password@) && (res matches Err(
                    e,
                ) && both_error(e, 401, m@)),
                None => res is Ok && hashed_password(trim_spec(old(self).password@), final(self).password@),
            },
    {
        match self.sanitize_email() {
            Ok(()) => {},
            Err(x) => {
                return Err(InsignoError::new(401, x, x));
            },
        }
        match self.sanitize_name() {
            Ok(()) => {},
            Err(x) => {
                return Err(InsignoError::new(401, x, x));
            },
        }
        match self.sanitize_password() {
            Ok(()) => {},
            Err(x) => {
                return Err(InsignoError::new(401, x, x));
            },
        }
        Ok(())
    }
}

/// A signup for an email address that an account already has is a 400
/// error.
pub fn check_email_free(already_registered: bool) -> (res: Result<(), InsignoError>)
    ensures
        res is Ok <==> !already_registered,
        res matches Err(e) ==> both_error(e, 400, "this email is already associated with an account"@),
{
    if already_registered {
        let m = "this email is already associated with an account";
        return Err(InsignoError::new(400, m, m));
    }
    Ok(())
}

/// The new account of a confirmed registration: no id yet, not an
/// administrator, no answer yet about reviewing. Any other action is a 500
/// error "wrong call".
pub fn complete_registration(pend: PendingAction) -> (res: Result<UserRecord, InsignoError>)
    ensures
        match pend {
            PendingAction::RegisterUser(name, email, password_hash) => (res matches Ok(u) && u.id
                is None && u.name == name && u.email == email && u.password == password_hash
                && !u.is_admin && u.accepted_to_review is None),
            _ => (res matches Err(e) && debug_error(e, 500, "wrong call"@)),
        },
{
    match pend {
        PendingAction::RegisterUser(name, email, password_hash) => Ok(
            UserRecord {
                id: None,
                name,
                email,
                password: password_hash,
                is_admin: false,
                accepted_to_review: None,
            },
        ),
        _ => Err(InsignoError::new_debug(500, "wrong call")),
    }
}

} // verus!
