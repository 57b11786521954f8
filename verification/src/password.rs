//! Password hashing and checking, through bcrypt.

use vstd::prelude::*;

use crate::error::AppError;
use crate::error::AppErrorType;

verus! {

#[verifier::external_type_specification]
#[verifier::external_body]
pub struct ExBcryptError(bcrypt::BcryptError);

/// Whether bcrypt accepts the password against the stored hash: a
/// function of the two alone (the salt and cost are read back out of
/// the hash).
pub uninterp spec fn bcrypt_verifies(pwd: Seq<char>, hashed: Seq<char>) -> bool;

/// Relies on bcrypt's hash with the default cost.  The salt is drawn
/// fresh, so nothing relates the result to the password.
#[verifier::external_body]
fn bcrypt_hash(pwd: &str) -> (r: Result<String, bcrypt::BcryptError>) {
    bcrypt::hash(pwd, bcrypt::DEFAULT_COST)
}

/// Relies on bcrypt's verify: a pure function of the password and the
/// stored hash, failing only on a malformed hash.
#[verifier::external_body]
fn bcrypt_check(pwd: &str, hashed: &str) -> (r: Result<bool, bcrypt::BcryptError>)
    ensures
        r matches Ok(b) ==> b == bcrypt_verifies(pwd@, hashed@),
{
    bcrypt::verify(pwd, hashed)
}

/// Hashes a password with a fresh salt.
pub fn hash(pwd: &str) -> (r: Result<String, AppError>)
    ensures
        r matches Err(e) ==> e.error_type == AppErrorType::Common,
{
    match bcrypt_hash(pwd) {
        Ok(h) => Ok(h),
        Err(_) => Err(AppError::from_str("密码处理失败", AppErrorType::Common)),
    }
}

/// Checks a password against a stored hash; fails only when the stored
/// hash is malformed.
pub fn verify(pwd: &str, hashed_pwd: &str) -> (r: Result<bool, AppError>)
    ensures
        r matches Ok(b) ==> b == bcrypt_verifies(pwd@, hashed_pwd@),
        r matches Err(e) ==> e.error_type == AppErrorType::Common,
{
    match bcrypt_check(pwd, hashed_pwd) {
        Ok(b) => Ok(b),
        Err(_) => Err(AppError::from_str("密码校验失败", AppErrorType::Common)),
    }
}

} // verus!
