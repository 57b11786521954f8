//! Validation rules of the admin-account forms: exactly which inputs
//! are rejected, with which message, before any account is written.

use vstd::prelude::*;

use vstd::utf8::encode_utf8;

use crate::error::AppError;
use crate::error::AppErrorType;
use crate::form::CreateAdmin;
use crate::form::UpdateAdmin;
use crate::strings::contains_sub;
use crate::strings::str_contains;

verus! {

/// The message a rejected new-admin form gets: the first rule broken,
/// in order — empty password, password under six bytes, password
/// contained in the user name, password mismatch.
pub open spec fn create_admin_reject_msg(ca: CreateAdmin) -> Seq<char> {
    if ca.password@.len() == 0 {
        "请输入密码"@
    } else if encode_utf8(ca.password@).len() < 6 {
        "密码长度不能小于6位"@
    } else if contains_sub(ca.username@, ca.password@) {
        "密码设置不安全,请重新设置"@
    } else {
        "两次输入的密码不一致"@
    }
}

/// True when the new-admin form passes every rule.
pub open spec fn create_admin_ok(ca: CreateAdmin) -> bool {
    &&& ca.password@.len() > 0
    &&& encode_utf8(ca.password@).len() >= 6
    &&& !contains_sub(ca.username@, ca.password@)
    &&& ca.password@ == ca.re_password@
}

/// Validates a new-admin form: the password must be non-empty, at
/// least six bytes, not contained in the user name, and equal to its
/// confirmation.  Rejections carry the first broken rule's message.
pub fn validate_create_admin(ca: &CreateAdmin) -> (r: Result<(), AppError>)
    ensures
        match r {
            Ok(_) => create_admin_ok(*ca),
            Err(e) => {
                &&& !create_admin_ok(*ca)
                &&& e.error_type == AppErrorType::Common
                &&& e.message matches Some(m) && m@ == create_admin_reject_msg(*ca)
            },
        },
{
    if ca.password.as_str().is_empty() {
        return Err(AppError::from_str("请输入密码", AppErrorType::Common));
    }
    if ca.password.as_str().as_bytes().len() < 6 {
        return Err(AppError::from_str("密码长度不能小于6位", AppErrorType::Common));
    }
    if str_contains(ca.username.as_str(), ca.password.as_str()) {
        return Err(AppError::from_str("密码设置不安全,请重新设置", AppErrorType::Common));
    }
    if !crate::strings::str_eq(ca.password.as_str(), ca.re_password.as_str()) {
        return Err(AppError::from_str("两次输入的密码不一致", AppErrorType::Common));
    }
    Ok(())
}

/// The message a rejected edit-admin form gets: empty new password,
/// else new-password mismatch.
pub open spec fn update_admin_reject_msg(ua: UpdateAdmin) -> Seq<char> {
    if ua.new_password@.len() == 0 {
        "请输入密码"@
    } else {
        "两次输入的密码不一致"@
    }
}

/// True when the edit-admin form passes every rule.
pub open spec fn update_admin_ok(ua: UpdateAdmin) -> bool {
    &&& ua.new_password@.len() > 0
    &&& ua.new_password@ == ua.re_password@
}

/// Validates an edit-admin form: the new password must be non-empty
/// and equal to its confirmation.  Rejections carry the first broken
/// rule's message.
pub fn validate_update_admin(ua: &UpdateAdmin) -> (r: Result<(), AppError>)
    ensures
        match r {
            Ok(_) => update_admin_ok(*ua),
            Err(e) => {
                &&& !update_admin_ok(*ua)
                &&& e.error_type == AppErrorType::Common
                &&& e.message matches Some(m) && m@ == update_admin_reject_msg(*ua)
            },
        },
{
    if ua.new_password.as_str().is_empty() {
        return Err(AppError::from_str("请输入密码", AppErrorType::Common));
    }
    if !crate::strings::str_eq(ua.new_password.as_str(), ua.re_password.as_str()) {
        return Err(AppError::from_str("两次输入的密码不一致", AppErrorType::Common));
    }
    Ok(())
}

} // verus!
