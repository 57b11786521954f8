use strangers::admin::validate_create_admin;
use strangers::admin::validate_update_admin;
use strangers::error::AppErrorType;
use strangers::form::CreateAdmin;
use strangers::form::UpdateAdmin;

fn create_form(username: &str, password: &str, re_password: &str) -> CreateAdmin {
    CreateAdmin {
        username: username.to_string(),
        password: password.to_string(),
        re_password: re_password.to_string(),
    }
}

fn update_form(password: &str, new_password: &str, re_password: &str) -> UpdateAdmin {
    UpdateAdmin {
        id: 1,
        username: "admin".to_string(),
        password: password.to_string(),
        new_password: new_password.to_string(),
        re_password: re_password.to_string(),
    }
}

#[test]
fn create_admin_rules_in_order() {
    let e = validate_create_admin(&create_form("u", "", "")).unwrap_err();
    assert_eq!(e.error_type, AppErrorType::Common);
    assert_eq!(e.message, Some("请输入密码".to_string()));

    let e = validate_create_admin(&create_form("u", "12345", "12345")).unwrap_err();
    assert_eq!(e.message, Some("密码长度不能小于6位".to_string()));

    let e = validate_create_admin(&create_form("user123456x", "123456", "123456")).unwrap_err();
    assert_eq!(e.message, Some("密码设置不安全,请重新设置".to_string()));

    let e = validate_create_admin(&create_form("u", "123456", "654321")).unwrap_err();
    assert_eq!(e.message, Some("两次输入的密码不一致".to_string()));

    assert!(validate_create_admin(&create_form("u", "123456", "123456")).is_ok());
}

#[test]
fn update_admin_rules_in_order() {
    let e = validate_update_admin(&update_form("old", "", "")).unwrap_err();
    assert_eq!(e.message, Some("请输入密码".to_string()));

    let e = validate_update_admin(&update_form("old", "abcdef", "abcdeg")).unwrap_err();
    assert_eq!(e.message, Some("两次输入的密码不一致".to_string()));

    assert!(validate_update_admin(&update_form("old", "abcdef", "abcdef")).is_ok());
}
