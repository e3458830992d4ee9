//! Who makes a request to the server: the bearer token of its
//! `Authorization` header, and the user it names.

use crate::text::{chars_of, starts_with, starts_with_chars, string_from_chars};
use vstd::prelude::*;

verus! {

broadcast use vstd::string::group_string_axioms;

/// What a login token states: the user's id and name, and when it expires
/// (seconds since the Unix epoch).
#[derive(Debug, Clone, PartialEq)]
pub struct Claims {
    pub sub: String,
    pub username: String,
    pub exp: u64,
}

/// The user a request comes from.
#[derive(Debug, Clone, PartialEq)]
pub struct AuthenticatedUser {
    pub user_id: String,
    pub username: String,
}

/// Why a request is refused before it is served.
#[derive(Debug, Clone, Copy, PartialEq, Eq, Structural)]
pub enum AuthRejection {
    MissingHeader,
    BadHeaderFormat,
    InvalidToken,
    DatabaseError,
    UnknownUser,
}

impl AuthRejection {
    /// The HTTP status of the refusal.
    pub fn status(&self) -> (code: u16)
        ensures
            code == (if *self == AuthRejection::DatabaseError {
                500u16
            } else {
                401u16
            }),
    {
        match self {
            AuthRejection::DatabaseError => 500,
            _ => 401,
        }
    }

    /// The message of the refusal.
    pub fn message(&self) -> (m: &'static str)
        ensures
            m@ == match *self {
                AuthRejection::MissingHeader => "Missing Authorization Header"@,
                AuthRejection::BadHeaderFormat => "Invalid Authorization Header Format"@,
                AuthRejection::InvalidToken => "Invalid Token"@,
                AuthRejection::DatabaseError => "Database Error"@,
                AuthRejection::UnknownUser => "User does not exist in database"@,
            },
    {
        match self {
            AuthRejection::MissingHeader => "Missing Authorization Header",
            AuthRejection::BadHeaderFormat => "Invalid Authorization Header Format",
            AuthRejection::InvalidToken => "Invalid Token",
            AuthRejection::DatabaseError => "Database Error",
            AuthRejection::UnknownUser => "User does not exist in database",
        }
    }
}

/// The token of an `Authorization` header: what follows `Bearer `.
pub fn bearer_token(header: Option<&str>) -> (res: Result<String, AuthRejection>)
    ensures
        header is None ==> res == Err::<String, AuthRejection>(AuthRejection::MissingHeader),
        (header matches Some(h) && !starts_with(h@, "Bearer "@)) ==> res == Err::<
            String,
            AuthRejection,
        >(AuthRejection::BadHeaderFormat),
        (header matches Some(h) && starts_with(h@, "Bearer "@)) ==> (header matches Some(h)
            && res matches Ok(t) && t@ == h@.subrange("Bearer "@.len() as int, h@.len() as int)),
{
    let h = match header {
        Some(h) => h,
        None => return Err(AuthRejection::MissingHeader),
    };
    let c = chars_of(h);
    let p = chars_of("Bearer ");
    if !starts_with_chars(c.as_slice(), p.as_slice()) {
        return Err(AuthRejection::BadHeaderFormat);
    }
    let mut rest: Vec<char> = Vec::new();
    let mut i = p.len();
    while i < c.len()
        invariant
            p@.len() <= i <= c@.len(),
            rest@ == c@.subrange(p@.len() as int, i as int),
        decreases c@.len() - i,
    {
        rest.push(c[i]);
        i = i + 1;
        assert(rest@ =~= c@.subrange(p@.len() as int, i as int));
    }
    Ok(string_from_chars(rest.as_slice()))
}

/// The user a verified token names, once the database has said whether
/// that user exists (`None` when it could not be asked).
pub fn admit_user(claims: Claims, user_exists: Option<bool>) -> (res: Result<
    AuthenticatedUser,
    AuthRejection,
>)
    ensures
        user_exists is None ==> res == Err::<AuthenticatedUser, AuthRejection>(
            AuthRejection::DatabaseError,
        ),
        user_exists == Some(false) ==> res == Err::<AuthenticatedUser, AuthRejection>(
            AuthRejection::UnknownUser,
        ),
        user_exists == Some(true) ==> res == Ok::<AuthenticatedUser, AuthRejection>(
            AuthenticatedUser { user_id: claims.sub, username: claims.username },
        ),
{
    match user_exists {
        None => Err(AuthRejection::DatabaseError),
        Some(false) => Err(AuthRejection::UnknownUser),
        Some(true) => Ok(AuthenticatedUser { user_id: claims.sub, username: claims.username }),
    }
}

/// The user a request's token names, once the token has been verified
/// (`None` when verification refused it) and the database has said whether
/// that user exists: a refused token is `InvalidToken`, the rest as
/// `admit_user` answers.
pub fn admit_verified(verified: Option<Claims>, user_exists: Option<bool>) -> (res: Result<
    AuthenticatedUser,
    AuthRejection,
>)
    ensures
        verified is None ==> res == Err::<AuthenticatedUser, AuthRejection>(
            AuthRejection::InvalidToken,
        ),
        (verified matches Some(c) && user_exists is None) ==> res == Err::<
            AuthenticatedUser,
            AuthRejection,
        >(AuthRejection::DatabaseError),
        (verified matches Some(c) && user_exists == Some(false)) ==> res == Err::<
            AuthenticatedUser,
            AuthRejection,
        >(AuthRejection::UnknownUser),
        (verified matches Some(c) && user_exists == Some(true)) ==> (verified matches Some(c)
            && res == Ok::<AuthenticatedUser, AuthRejection>(
            AuthenticatedUser { user_id: c.sub, username: c.username },
        )),
{
    match verified {
        None => Err(AuthRejection::InvalidToken),
        Some(c) => admit_user(c, user_exists),
    }
}

/// How long a login token stays valid: seven days, in seconds.
pub const TOKEN_LIFETIME_SECS: u64 = 604800;

/// What a login token issued at `now_secs` states: the user, and an expiry
/// seven days later.
pub fn session_claims(user_id: &str, username: &str, now_secs: u64) -> (c: Claims)
    requires
        now_secs + TOKEN_LIFETIME_SECS <= u64::MAX,
    ensures
        c.sub@ == user_id@,
        c.username@ == username@,
        c.exp == now_secs + TOKEN_LIFETIME_SECS,
{
    Claims {
        sub: user_id.to_string(),
        username: username.to_string(),
        exp: now_secs + TOKEN_LIFETIME_SECS,
    }
}

} // verus!
