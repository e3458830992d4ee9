//! Passwords: how the server stores them (bcrypt hashes) and how a login
//! is checked against the stored account.

use crate::admin::AdminError;
use vstd::prelude::*;

verus! {

#[verifier::external_type_specification]
#[verifier::external_body]
pub struct ExBcryptError(bcrypt::BcryptError);

/// Whether `bcrypt::verify` accepts the password for the stored hash, a hash
/// it cannot read counting as a refusal.
pub uninterp spec fn bcrypt_accepts(password: Seq<char>, hash: Seq<char>) -> bool;

/// `bcrypt::hash` at `bcrypt::DEFAULT_COST`. The salt is random, so the
/// hash itself is not named; the crate recomputes a hash from the salt and
/// cost it stores, so a hash it gives is one that `bcrypt::verify` accepts
/// for the same password.
#[verifier::external_body]
fn bcrypt_hash(password: &str) -> (res: Result<String, bcrypt::BcryptError>)
    ensures
        res matches Ok(h) ==> bcrypt_accepts(password@, h@),
{
    bcrypt::hash(password, bcrypt::DEFAULT_COST)
}

/// The shape every bcrypt hash has: 60 ASCII characters, `$` at positions
/// 0, 3 and 6, and a version `2a`, `2b`, `2x` or `2y` between the first two.
pub open spec fn bcrypt_shaped(h: Seq<char>) -> bool {
    &&& h.len() == 60
    &&& forall|i: int| 0 <= i < 60 ==> ((#[trigger] h[i]) as u32) < 128
    &&& h[0] == '$' && h[3] == '$' && h[6] == '$'
    &&& h[1] == '2' && (h[2] == 'a' || h[2] == 'b' || h[2] == 'x' || h[2] == 'y')
}

/// `bcrypt::verify`, its error read as a refusal. The crate reads the hash
/// before anything else and refuses one without bcrypt's shape (not 60
/// ASCII bytes, `$` missing at 0, 3 or 6, or an unknown version).
#[verifier::external_body]
fn bcrypt_verify(password: &str, hash: &str) -> (ok: bool)
    ensures
        ok == bcrypt_accepts(password@, hash@),
        !bcrypt_shaped(hash@) ==> !ok,
{
    bcrypt::verify(password, hash).unwrap_or(false)
}

/// The hash to store for a new password; a failure to hash is the server's
/// error. A hash it gives is accepted for that password.
pub fn hash_password(password: &str) -> (res: Result<String, AdminError>)
    ensures
        res matches Ok(h) ==> bcrypt_accepts(password@, h@),
        res matches Err(e) ==> e == AdminError::HashingFailed,
{
    match bcrypt_hash(password) {
        Ok(h) => Ok(h),
        Err(_) => Err(AdminError::HashingFailed),
    }
}

/// Whether the password matches the stored hash; a text without bcrypt's
/// shape never matches.
pub fn verify_password(password: &str, hash: &str) -> (ok: bool)
    ensures
        ok == bcrypt_accepts(password@, hash@),
        !bcrypt_shaped(hash@) ==> !ok,
{
    bcrypt_verify(password, hash)
}

/// A stored account, as a login reads it.
#[derive(Debug, Clone, PartialEq)]
pub struct UserRow {
    pub id: String,
    pub password_hash: String,
    pub role: String,
}

/// Why a login is refused: an unknown name and a wrong password look alike.
#[derive(Debug, Clone, Copy, PartialEq, Eq, Structural)]
pub enum LoginRejection {
    InvalidCredentials,
}

impl LoginRejection {
    /// The HTTP status of the refusal.
    pub fn status(&self) -> (code: u16)
        ensures
            code == 401,
    {
        401
    }

    /// The message of the refusal.
    pub fn message(&self) -> (m: &'static str)
        ensures
            m@ == "Invalid username or password"@,
    {
        "Invalid username or password"
    }
}

/// A login against the account found under its name, if any: the account
/// when the password matches its hash, else a refusal.
pub open spec fn login_outcome(row: Option<UserRow>, password: Seq<char>) -> Result<UserRow, LoginRejection> {
    match row {
        Some(r) => if bcrypt_accepts(password, r.password_hash@) {
            Ok(r)
        } else {
            Err(LoginRejection::InvalidCredentials)
        },
        None => Err(LoginRejection::InvalidCredentials),
    }
}

/// Checks a login against the account found under its name, if any.
pub fn check_login(row: Option<UserRow>, password: &str) -> (res: Result<UserRow, LoginRejection>)
    ensures
        res == login_outcome(row, password@),
        row matches Some(r) && !bcrypt_shaped(r.password_hash@) ==> res
            == Err::<UserRow, LoginRejection>(LoginRejection::InvalidCredentials),
{
    match row {
        None => Err(LoginRejection::InvalidCredentials),
        Some(r) => {
            if verify_password(password, r.password_hash.as_str()) {
                Ok(r)
            } else {
                Err(LoginRejection::InvalidCredentials)
            }
        },
    }
}

/// An account whose stored hash came from `hash_password` for a password
/// (which accepts that password) logs in with it.
pub proof fn law_stored_password_logs_in(password: Seq<char>, hash: String, row: UserRow)
    requires
        bcrypt_accepts(password, hash@),
        row.password_hash@ == hash@,
    ensures
        login_outcome(Some(row), password) == Ok::<UserRow, LoginRejection>(row),
{
}

} // verus!
