//! Users, typed by how far they have been authenticated and by whether the
//! request needs a user who accepted to review images.
use vstd::prelude::*;
use std::marker::PhantomData;
use vstd::utf8::encode_utf8;
use crate::error::{InsignoError, both_error};
use crate::scrypt::{ScryptError, scrypt_check, scrypt_check_spec};

verus! {

/// Any user, whether or not they accepted to review.
#[derive(Debug, Clone, Copy)]
pub struct AnyReview;

/// A user who accepted to review.
#[derive(Debug, Clone, Copy)]
pub struct YesReview;

/// Whether a kind of request needs a user who accepted to review.
pub trait UserReview: Clone + Send {
    spec fn spec_requires_accepted_to_review() -> bool;

    fn requires_accepted_to_review() -> (b: bool)
        ensures
            b == Self::spec_requires_accepted_to_review(),
    ;
}

impl UserReview for YesReview {
    open spec fn spec_requires_accepted_to_review() -> bool {
        true
    }

    fn requires_accepted_to_review() -> (b: bool) {
        true
    }
}

impl UserReview for AnyReview {
    open spec fn spec_requires_accepted_to_review() -> bool {
        false
    }

    fn requires_accepted_to_review() -> (b: bool) {
        false
    }
}

/// A user whose password was not checked.
#[derive(Debug, Clone, Copy)]
pub struct Unauthenticated;

/// A user who logged in.
#[derive(Debug, Clone, Copy)]
pub struct Authenticated;

/// A user who logged in and is an administrator.
#[derive(Debug, Clone, Copy)]
pub struct AuthenticatedAdmin;

/// How far a user has been authenticated.
pub trait UserType: Clone + Send {

}

impl UserType for Unauthenticated {

}

impl UserType for Authenticated {

}

impl UserType for AuthenticatedAdmin {

}

/// A row of the users table, as far as the rules read it.
#[derive(Debug)]
pub struct UserRecord {
    pub id: Option<i64>,
    pub name: String,
    pub email: String,
    pub password: String,
    pub is_admin: bool,
    pub accepted_to_review: Option<bool>,
}

/// A user of kind `T`, for requests of kind `R`.
#[derive(Debug)]
pub struct User<T, R = AnyReview> {
    pub id: Option<i64>,
    pub name: String,
    pub email: String,
    pub password_hash: String,
    pub is_admin: bool,
    pub accepted_to_review: Option<bool>,
    pub phantom: PhantomData<T>,
    pub phantom_age: PhantomData<R>,
}

impl<T: UserType, R: UserReview> User<T, R> {
    /// The user of a row: refused with a 403 error where the request needs
    /// a user who accepted to review and this one did not.
    pub fn from_record(value: UserRecord) -> (res: Result<User<T, R>, InsignoError>)
        ensures
            (value.accepted_to_review != Some(true) && R::spec_requires_accepted_to_review()) ==> (
            res matches Err(e) && both_error(e, 403, "you did not accept to review"@)),
            !(value.accepted_to_review != Some(true) && R::spec_requires_accepted_to_review()) ==> (
            res matches Ok(u) && u.id == value.id && u.name == value.name && u.email == value.email
                && u.password_hash == value.password && u.is_admin == value.is_admin
                && u.accepted_to_review == value.accepted_to_review),
    {
        if value.accepted_to_review != Some(true) && R::requires_accepted_to_review() {
            let m = "you did not accept to review";
            Err(InsignoError::new(403, m, m))
        } else {
            Ok(User {
                id: value.id,
                name: value.name,
                email: value.email,
                password_hash: value.password,
                is_admin: value.is_admin,
                accepted_to_review: value.accepted_to_review,
                phantom: PhantomData,
                phantom_age: PhantomData,
            })
        }
    }

    /// The id of a user read from the table.
    pub fn get_id(&self) -> (id: i64)
        requires
            self.id is Some,
        ensures
            self.id == Some(id),
    {
        self.id.unwrap()
    }

    /// The same user as another kind, for any request.
    fn upgrade<Z>(self) -> (u: User<Z>)
        ensures
            u.id == self.id && u.name == self.name && u.email == self.email && u.password_hash
                == self.password_hash && u.is_admin == self.is_admin && u.accepted_to_review
                == self.accepted_to_review,
    {
        User {
            id: self.id,
            name: self.name,
            email: self.email,
            password_hash: self.password_hash,
            is_admin: self.is_admin,
            accepted_to_review: self.accepted_to_review,
            phantom: PhantomData,
            phantom_age: PhantomData,
        }
    }
}

impl User<Unauthenticated> {
    /// Whether `password` matches the stored hash, which must be a readable
    /// `rscrypt` hash.
    pub fn check_hash(&self, password: &str) -> (b: bool)
        requires
            scrypt_check_spec(encode_utf8(password@), self.password_hash@) is Ok,
        ensures
            scrypt_check_spec(encode_utf8(password@), self.password_hash@) == Ok::<bool, ScryptError>(b),
    {
        scrypt_check(password, self.password_hash.as_str()).unwrap()
    }

    /// Logs the user in with `password`: refused with a 403 error "email o
    /// password errati" (for the client only) where it does not match.
    pub fn login(self, password: &str) -> (res: Result<User<Authenticated>, InsignoError>)
        requires
            scrypt_check_spec(encode_utf8(password@), self.password_hash@) is Ok,
        ensures
            scrypt_check_spec(encode_utf8(password@), self.password_hash@) == Ok::<bool, ScryptError>(true)
                ==> (res matches Ok(u) && u.id == self.id && u.name == self.name && u.email
                == self.email && u.password_hash == self.password_hash && u.is_admin
                == self.is_admin && u.accepted_to_review == self.accepted_to_review),
            scrypt_check_spec(encode_utf8(password@), self.password_hash@) == Ok::<bool, ScryptError>(false)
                ==> (res matches Err(e) && e.code == 403 && e.debug is None && (e.client matches Some(
                c) && c@ == "email o password errati"@)),
    {
        if !self.check_hash(password) {
            Err(
                InsignoError {
                    debug: None,
                    client: Some("email o password errati".to_owned()),
                    code: 403,
                },
            )
        } else {
            Ok(self.upgrade())
        }
    }

    /// Logs the user in where the stored hash is readable: `None` where it
    /// is not (then nothing is checked), else what `login` gives.
    pub fn try_login(self, password: &str) -> (res: Option<Result<User<Authenticated>, InsignoError>>)
        ensures
            res is None <==> scrypt_check_spec(encode_utf8(password@), self.password_hash@) is Err,
            scrypt_check_spec(encode_utf8(password@), self.password_hash@) == Ok::<bool, ScryptError>(true)
                ==> (res matches Some(Ok(u)) && u.id == self.id && u.name == self.name && u.email
                == self.email && u.password_hash == self.password_hash && u.is_admin
                == self.is_admin && u.accepted_to_review == self.accepted_to_review),
            scrypt_check_spec(encode_utf8(password@), self.password_hash@) == Ok::<bool, ScryptError>(false)
                ==> (res matches Some(Err(e)) && e.code == 403 && e.debug is None && (
            e.client matches Some(c) && c@ == "email o password errati"@)),
    {
        match scrypt_check(password, self.password_hash.as_str()) {
            Ok(_) => Some(self.login(password)),
            Err(_) => None,
        }
    }
}

impl<R: UserReview> User<Authenticated, R> {
    /// The same user as an administrator: refused with a 401 error
    /// "Unauthorized" where the user is not one.
    pub fn into_admin(self) -> (res: Result<User<AuthenticatedAdmin>, InsignoError>)
        ensures
            self.is_admin ==> (res matches Ok(u) && u.id == self.id && u.name == self.name
                && u.email == self.email && u.password_hash == self.password_hash && u.is_admin
                && u.accepted_to_review == self.accepted_to_review),
            !self.is_admin ==> (res matches Err(e) && both_error(e, 401, "Unauthorized"@)),
    {
        if self.is_admin {
            Ok(self.upgrade())
        } else {
            let m = "Unauthorized";
            Err(InsignoError::new(401, m, m))
        }
    }
}

} // verus!
