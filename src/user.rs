//! Accounts, sign-up and login checks, and session claims.

use vstd::prelude::*;

use crate::error::AppError;

verus! {

#[verifier::external_type_specification]
#[verifier::external_body]
pub struct ExArgon2Error(argon2::Error);

/// The encoded Argon2 hash of a password under a salt, with the default
/// parameters; `None` where hashing refuses the inputs.
pub uninterp spec fn argon2_encoding(password: Seq<char>, salt: Seq<char>) -> Option<Seq<char>>;

/// Whether a password matches an encoded Argon2 hash; `None` where the
/// encoded hash cannot be read.
pub uninterp spec fn argon2_match(encoded: Seq<char>, password: Seq<char>) -> Option<bool>;

/// Relies on argon2::hash_encoded with argon2::Config::default(): the
/// encoded hash, or its error, depends on the password and salt bytes alone.
#[verifier::external_body]
fn argon2_hash(password: &str, salt: &str) -> (r: Result<String, argon2::Error>)
    ensures
        match r {
            Ok(h) => argon2_encoding(password@, salt@) == Some(h@),
            Err(_) => argon2_encoding(password@, salt@) is None,
        },
{
    argon2::hash_encoded(password.as_bytes(), salt.as_bytes(), &argon2::Config::default())
}

/// Relies on argon2::verify_encoded: whether the password matches, or an
/// error, depends on the encoded hash and the password bytes alone.
#[verifier::external_body]
fn argon2_verify(encoded: &str, password: &str) -> (r: Result<bool, argon2::Error>)
    ensures
        match r {
            Ok(b) => argon2_match(encoded@, password@) == Some(b),
            Err(_) => argon2_match(encoded@, password@) is None,
        },
{
    argon2::verify_encoded(encoded, password.as_bytes())
}

/// Login form: an email and a password.
#[derive(Clone, Debug, PartialEq, Eq)]
pub struct User {
    pub email: String,
    pub password: String,
}

/// Sign-up form: an email and the password typed twice.
#[derive(Clone, Debug, PartialEq, Eq)]
pub struct UserSignup {
    pub email: String,
    pub password: String,
    pub confirm_password: String,
}

/// A sign-up form with an email, a password, and the same password again.
pub open spec fn signup_complete(s: UserSignup) -> bool {
    s.email@.len() > 0 && s.password@.len() > 0 && s.password@ == s.confirm_password@
}

impl UserSignup {
    /// Accepts a complete form for an email that is not registered yet.
    pub fn check_new(&self, already_registered: bool) -> (r: Result<(), AppError>)
        ensures
            !signup_complete(*self) ==> r == Err::<(), AppError>(AppError::MissingCredentials),
            signup_complete(*self) && already_registered ==> r == Err::<(), AppError>(
                AppError::UserAlreadyExists,
            ),
            r is Ok <==> signup_complete(*self) && !already_registered,
    {
        if self.email.as_str().is_empty() || self.password.as_str().is_empty() {
            return Err(AppError::MissingCredentials);
        }
        if self.password != self.confirm_password {
            return Err(AppError::MissingCredentials);
        }
        if already_registered {
            return Err(AppError::UserAlreadyExists);
        }
        Ok(())
    }
}

/// The hash of a password under a salt, as it is stored.
pub fn hash_password(password: &str, salt: &str) -> (r: Result<String, AppError>)
    ensures
        match argon2_encoding(password@, salt@) {
            Some(h) => r is Ok && r->Ok_0@ == h,
            None => r == Err::<String, AppError>(AppError::InternalServerError),
        },
{
    match argon2_hash(password, salt) {
        Ok(h) => Ok(h),
        Err(_) => Err(AppError::InternalServerError),
    }
}

/// The verdict on a password check: a match logs in, a mismatch is an
/// invalid password, and an unreadable stored hash is an internal error.
pub fn check_password(outcome: Result<bool, argon2::Error>) -> (r: Result<(), AppError>)
    ensures
        match outcome {
            Ok(true) => r is Ok,
            Ok(false) => r == Err::<(), AppError>(AppError::InvalidPassword),
            Err(_) => r == Err::<(), AppError>(AppError::InternalServerError),
        },
{
    match outcome {
        Ok(true) => Ok(()),
        Ok(false) => Err(AppError::InvalidPassword),
        Err(_) => Err(AppError::InternalServerError),
    }
}

impl User {
    /// Both fields of the login form are filled in.
    pub fn check_filled(&self) -> (r: Result<(), AppError>)
        ensures
            r is Ok <==> self.email@.len() > 0 && self.password@.len() > 0,
            r is Err ==> r == Err::<(), AppError>(AppError::MissingCredentials),
    {
        if self.email.as_str().is_empty() || self.password.as_str().is_empty() {
            Err(AppError::MissingCredentials)
        } else {
            Ok(())
        }
    }

    /// Checks the form's password against the stored hash.
    pub fn verify_password(&self, stored_hash: &str) -> (r: Result<(), AppError>)
        ensures
            match argon2_match(stored_hash@, self.password@) {
                Some(true) => r is Ok,
                Some(false) => r == Err::<(), AppError>(AppError::InvalidPassword),
                None => r == Err::<(), AppError>(AppError::InternalServerError),
            },
    {
        check_password(argon2_verify(stored_hash, self.password.as_str()))
    }
}

} // verus!
