//! The failures that the game's logic reports.

use vstd::prelude::*;

verus! {

/// Everything that can go wrong in the game's own logic.
#[derive(Clone, Copy, Debug, PartialEq, Eq, Structural)]
pub enum AppError {
    /// An email or password is missing, or the two passwords differ.
    MissingCredentials,
    /// No user or rank row has the given id or email.
    UserDoesNotExist,
    /// A user with the given email is already registered.
    UserAlreadyExists,
    /// The session token is missing, expired or does not verify.
    InvalidToken,
    /// An integrity rule was broken (a row count, a counter that would overflow).
    InternalServerError,
    /// The password does not match the stored hash.
    InvalidPassword,
    /// No city has the given identifier.
    CityNotFound,
    /// A guess's latitude or longitude is not a number in its range.
    InvalidLocation,
    /// A picture could not be read, cut or written.
    ImageError,
    /// Base64 text could not be decoded.
    DecodeError,
}

/// The HTTP status that answers each error.
pub open spec fn status_of(e: AppError) -> u16 {
    match e {
        AppError::CityNotFound => 404,
        AppError::InvalidLocation => 400,
        AppError::InternalServerError => 500,
        AppError::ImageError => 500,
        AppError::DecodeError => 503,
        _ => 401,
    }
}

impl AppError {
    /// The HTTP status code of this error.
    pub fn status_code(&self) -> (r: u16)
        ensures
            r == status_of(*self),
    {
        match self {
            AppError::CityNotFound => 404,
            AppError::InvalidLocation => 400,
            AppError::InternalServerError => 500,
            AppError::ImageError => 500,
            AppError::DecodeError => 503,
            _ => 401,
        }
    }

    /// The text shown to the user for this error.
    pub fn message(&self) -> (r: &'static str)
        ensures
            *self == AppError::MissingCredentials ==> r@ == "Missing or incorrect credentials."@,
            *self == AppError::UserDoesNotExist ==> r@ == "User does not exists."@,
            *self == AppError::UserAlreadyExists ==> r@ == "User already exists."@,
            *self == AppError::InvalidToken ==> r@ == "Invalid token."@,
            *self == AppError::InternalServerError ==> r@ == "Something very very bad happened...."@,
            *self == AppError::InvalidPassword ==> r@ == "Invalid username or password"@,
            *self == AppError::CityNotFound ==> r@ == "City not found."@,
            *self == AppError::InvalidLocation ==> r@ == "Invalid coordinates."@,
            *self == AppError::ImageError ==> r@ == "Image error."@,
            *self == AppError::DecodeError ==> r@ == "Decoding error."@,
    {
        match self {
            AppError::MissingCredentials => "Missing or incorrect credentials.",
            AppError::UserDoesNotExist => "User does not exists.",
            AppError::UserAlreadyExists => "User already exists.",
            AppError::InvalidToken => "Invalid token.",
            AppError::InternalServerError => "Something very very bad happened....",
            AppError::InvalidPassword => "Invalid username or password",
            AppError::CityNotFound => "City not found.",
            AppError::InvalidLocation => "Invalid coordinates.",
            AppError::ImageError => "Image error.",
            AppError::DecodeError => "Decoding error.",
        }
    }
}

} // verus!
