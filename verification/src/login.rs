//! Resource-owner login: checking a submitted username and password against
//! the configured account. The session cookie that a successful login sets is
//! front-end plumbing and stays outside this crate.

use vstd::prelude::*;

use crate::strings::str_eq;

verus! {

/// The fields of a submitted login form.
pub struct LoginFormParams {
    pub username: String,
    pub password: String,
    pub redirect: String,
}

/// The query string of the login page: where to send the browser after a
/// successful login.
pub struct LoginQuery {
    pub redirect: Option<String>,
}

/// Whether `bcrypt` accepts `password` against the stored `hash`; a hash that
/// `bcrypt` cannot parse counts as rejection.
pub uninterp spec fn bcrypt_accepts(password: Seq<char>, hash: Seq<char>) -> bool;

/// Relies on `bcrypt::verify`: whether the password matches the salted hash
/// is a function of the two arguments alone; an invalid hash is a rejection.
#[verifier::external_body]
fn password_matches(password: &str, hash: &str) -> (r: bool)
    ensures
        r == bcrypt_accepts(password@, hash@),
{
    bcrypt::verify(password, hash).unwrap_or(false)
}

/// A login attempt succeeds exactly when the submitted username is the
/// configured one and `bcrypt` accepts the submitted password against the
/// configured hash.
pub fn check_login(params: &LoginFormParams, expected_username: &str, password_hash: &str) -> (r:
    bool)
    ensures
        r == (params.username@ == expected_username@ && bcrypt_accepts(
            params.password@,
            password_hash@,
        )),
{
    let valid_user = str_eq(params.username.as_str(), expected_username);
    let valid_pass = password_matches(params.password.as_str(), password_hash);
    valid_user && valid_pass
}

/// The page a login form should return to: the caller-supplied redirect
/// target when one was given, the index page otherwise.
pub fn login_redirect_target(query: &LoginQuery) -> (r: &str)
    ensures
        match query.redirect {
            Some(u) => r@ == u@,
            None => r@ == "/"@,
        },
{
    match &query.redirect {
        Some(u) => u.as_str(),
        None => "/",
    }
}

} // verus!
