use backend::error::AppError;
use backend::user::{check_password, hash_password, User, UserSignup};

fn signup(email: &str, password: &str, confirm: &str) -> UserSignup {
    UserSignup { email: email.to_string(), password: password.to_string(), confirm_password: confirm.to_string() }
}

#[test]
fn signup_needs_every_field() {
    assert_eq!(signup("", "pw", "pw").check_new(false), Err(AppError::MissingCredentials));
    assert_eq!(signup("a@b.c", "", "").check_new(false), Err(AppError::MissingCredentials));
    assert_eq!(signup("a@b.c", "pw", "other").check_new(false), Err(AppError::MissingCredentials));
}

#[test]
fn signup_refuses_a_known_email() {
    assert_eq!(signup("a@b.c", "pw", "pw").check_new(true), Err(AppError::UserAlreadyExists));
    assert_eq!(signup("a@b.c", "pw", "pw").check_new(false), Ok(()));
}

#[test]
fn login_needs_both_fields() {
    let user = User { email: "".to_string(), password: "pw".to_string() };
    assert_eq!(user.check_filled(), Err(AppError::MissingCredentials));
    let user = User { email: "a@b.c".to_string(), password: "".to_string() };
    assert_eq!(user.check_filled(), Err(AppError::MissingCredentials));
    let user = User { email: "a@b.c".to_string(), password: "pw".to_string() };
    assert_eq!(user.check_filled(), Ok(()));
}

#[test]
fn hashed_password_verifies() {
    let hash = hash_password("correct horse", "somesaltvalue").unwrap();
    assert!(hash.starts_with("$argon2"));
    assert_ne!(hash, "correct horse");
    let user = User { email: "a@b.c".to_string(), password: "correct horse".to_string() };
    assert_eq!(user.verify_password(&hash), Ok(()));
    let intruder = User { email: "a@b.c".to_string(), password: "battery staple".to_string() };
    assert_eq!(intruder.verify_password(&hash), Err(AppError::InvalidPassword));
}

#[test]
fn short_salt_cannot_hash() {
    assert_eq!(hash_password("pw", "short"), Err(AppError::InternalServerError));
}

#[test]
fn unreadable_hash_is_internal_error() {
    let user = User { email: "a@b.c".to_string(), password: "pw".to_string() };
    assert_eq!(user.verify_password("not a hash"), Err(AppError::InternalServerError));
}

#[test]
fn password_verdicts() {
    assert_eq!(check_password(Ok(true)), Ok(()));
    assert_eq!(check_password(Ok(false)), Err(AppError::InvalidPassword));
    assert_eq!(check_password(Err(argon2::Error::DecodingFail)), Err(AppError::InternalServerError));
}

#[test]
fn errors_map_to_status_and_text() {
    assert_eq!(AppError::InvalidToken.status_code(), 401);
    assert_eq!(AppError::InvalidToken.message(), "Invalid token.");
    assert_eq!(AppError::UserDoesNotExist.message(), "User does not exists.");
    assert_eq!(AppError::CityNotFound.status_code(), 404);
    assert_eq!(AppError::ImageError.status_code(), 500);
    assert_eq!(AppError::DecodeError.status_code(), 503);
    assert_eq!(AppError::InternalServerError.message(), "Something very very bad happened....");
    assert_eq!(AppError::InternalServerError.status_code(), 500);
    assert_eq!(AppError::MissingCredentials.status_code(), 401);
    assert_eq!(AppError::InvalidLocation.status_code(), 400);
    assert_eq!(AppError::InvalidLocation.message(), "Invalid coordinates.");
}
