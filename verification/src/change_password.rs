//! A request to change the password of the account of an email address.
use vstd::prelude::*;
use crate::error::{InsignoError, both_error};
use crate::pending::PendingAction;
use crate::text::trim_spec;
use crate::validation::{
    Email, Password, SanitizeEmail, SanitizePassword, email_valid, format_email_spec,
    password_error, hashed_password,
};

verus! {

/// The form of a password change.
pub struct ChangePasswordRequest {
    pub email: String,
    pub password: String,
}

impl Email for ChangePasswordRequest {
    open spec fn email_of(&self) -> String {
        self.email
    }

    open spec fn with_email(&self, e: String) -> Self {
        ChangePasswordRequest { email: e, password: self.password }
    }

    proof fn lemma_email_of_with(&self, e: String) {
    }

    proof fn lemma_with_own_email(&self) {
    }

    fn get_email(&mut self) -> (r: &mut String) {
        &mut self.email
    }
}

impl Password for ChangePasswordRequest {
    open spec fn password_of(&self) -> String {
        self.password
    }

    open spec fn with_password(&self, p: String) -> Self {
        ChangePasswordRequest { email: self.email, password: p }
    }

    proof fn lemma_password_of_with(&self, p: String) {
    }

    proof fn lemma_with_own_password(&self) {
    }

    proof fn lemma_with_password_twice(&self, a: String, b: String) {
    }

    fn get_password(&mut self) -> (r: &mut String) {
        &mut self.password
    }
}

impl ChangePasswordRequest {
    /// Brings the email address and the password to their normal form and
    /// checks them, the email first: a refusal is a 401 error whose texts
    /// are the rule's message. A password that passes is replaced by its
    /// hash.
    pub fn sanitize(&mut self) -> (res: Result<(), InsignoError>)
        ensures
            final(self).email@ == format_email_spec(old(self).email@),
            !email_valid(final(self).email@) ==> final(self).password == old(self).password && (
            res matches Err(e) && both_error(e, 401, "Mail invalida"@)),
            email_valid(final(self).email@) ==> match password_error(trim_spec(old(self).password@)) {
                Some(m) => final(self).password@ == trim_spec(old(self).password@) && (res matches Err(
                    e,
                ) && both_error(e, 401, m@)),
                None => res is Ok && hashed_password(trim_spec(old(self).password@), final(self).password@),
            },
    {
        match self.sanitize_email() {
            Ok(()) => {},
            Err(x) => {
                return Err(InsignoError::new(401, x, x));
            },
        }
        match self.sanitize_password() {
            Ok(()) => {},
            Err(x) => {
                return Err(InsignoError::new(401, x, x));
            },
        }
        Ok(())
    }
}

/// The account and the new password hash of a confirmed password change;
/// any other action is handed back.
pub fn complete_change_password(pend: PendingAction) -> (res: Result<(i64, String), PendingAction>)
    ensures
        match pend {
            PendingAction::ChangePassword(id, hash) => res == Ok::<(i64, String), PendingAction>(
                (id, hash),
            ),
            _ => res == Err::<(i64, String), PendingAction>(pend),
        },
{
    match pend {
        PendingAction::ChangePassword(user_id, password_hash) => Ok((user_id, password_hash)),
        other => Err(other),
    }
}

} // verus!
