use strangers::Date;
use strangers::arg::BackendQueryArg;
use strangers::arg::MedicinalBackendQueryArg;
use strangers::arg::OrderKey;
use strangers::cache::StrValue;
use strangers::cache::flip;
use strangers::dates::add_days;
use strangers::dates::date_from_ymd;
use strangers::dates::days_in_month;
use strangers::dates::is_leap_year;
use strangers::error::AppError;
use strangers::error::AppErrorType;
use strangers::excel::column_widths;
use strangers::helper::get_cookie;
use strangers::model::MedicinalList;
use strangers::model::get_expired_str;
use strangers::pagination::Pagination;
use strangers::strings::remove_whitespace;
use strangers::strings::str_contains;
use strangers::strings::trim_str;

#[test]
fn test_trim_str() {
    let s = "  hello  ";
    assert_eq!(s.trim(), "hello");
    let s = " hello world ";
    assert_eq!(s.trim(), "hello world");

    let s = " hello world ";
    let replace_all = remove_whitespace(s);
    assert_eq!("helloworld", replace_all);

    let s = " 药  品 ";
    let replace_all = remove_whitespace(s);
    assert_eq!("药品", replace_all);
}

#[test]
fn test_remove_whitespace() {
    for s in ["外科手套", "2副", "      2023-04", ""] {
        println!("[{}]", remove_whitespace(s));
    }
    assert_eq!(remove_whitespace("      2023-04"), "2023-04");
}

#[test]
fn library_trim_matches_std() {
    for s in ["  a b  ", "", "   ", "x", " 药  品 "] {
        assert_eq!(trim_str(s), s.trim());
    }
}

#[test]
fn substring_search() {
    assert!(str_contains("hello world", "lo wo"));
    assert!(str_contains("hello", ""));
    assert!(!str_contains("hello", "world"));
    assert!(str_contains("药品名称", "名称"));
}

#[test]
fn calendar_arithmetic() {
    assert!(is_leap_year(2024));
    assert!(!is_leap_year(2023));
    assert!(!is_leap_year(2100));
    assert!(is_leap_year(2000));
    assert_eq!(days_in_month(2024, 2), 29);
    assert_eq!(days_in_month(2023, 2), 28);
    assert_eq!(days_in_month(2024, 4), 30);
    assert_eq!(days_in_month(2024, 12), 31);

    let d = Date { year: 2022, month: 3, day: 24 };
    assert_eq!(add_days(&d, 30), Date { year: 2022, month: 4, day: 23 });
    let eoy = Date { year: 2023, month: 12, day: 31 };
    assert_eq!(add_days(&eoy, 1), Date { year: 2024, month: 1, day: 1 });
    let feb = Date { year: 2024, month: 2, day: 28 };
    assert_eq!(add_days(&feb, 1), Date { year: 2024, month: 2, day: 29 });

    assert_eq!(date_from_ymd(2024, 2, 30), None);
    assert_eq!(date_from_ymd(2024, 13, 1), None);
    assert_eq!(date_from_ymd(12024, 1, 1), None);
    assert_eq!(
        date_from_ymd(2024, 2, 29),
        Some(Date { year: 2024, month: 2, day: 29 })
    );

    let d = Date { year: 2024, month: 6, day: 5 };
    assert_eq!(d.format_ymd(), "2024-06-05");
}

#[test]
fn add_days_saturates_at_calendar_end() {
    let end = Date { year: 9999, month: 12, day: 31 };
    assert_eq!(add_days(&end, 5), end);
    let near = Date { year: 9999, month: 12, day: 30 };
    assert_eq!(add_days(&near, 10), end);
}

#[test]
fn expiry_shortcuts() {
    let today = Date { year: 2024, month: 6, day: 15 };
    let rec = MedicinalList {
        id: 1,
        category: "c".to_string(),
        name: "n".to_string(),
        batch_number: "b".to_string(),
        spec: "s".to_string(),
        count: "1".to_string(),
        validity: Date { year: 2024, month: 7, day: 1 },
        is_del: false,
        notify_at: None,
    };
    assert!(!rec.is_expired(&today));
    assert!(rec.is_expired_as1(&today));
    assert!(rec.is_expired_as3(&today));
    assert!(rec.is_expired_as6(&today));
}

#[test]
fn expired_menu_entries() {
    let items = get_expired_str();
    assert_eq!(items.len(), 6);
    assert_eq!(items[0].name, "所有数据");
    assert_eq!(items[0].id, 0);
    assert_eq!(items[1].name, "已经过期");
    assert_eq!(items[1].id, 1);
    assert_eq!(items[5].name, "九个月");
    assert_eq!(items[5].id, 10);
}

#[test]
fn pagination_rounds_up() {
    let p = Pagination::new(0, 30, 35, ());
    assert_eq!(p.total_pages, 2);
    let p = Pagination::new(0, 30, 30, ());
    assert_eq!(p.total_pages, 1);
    let p = Pagination::new(0, 30, 0, ());
    assert_eq!(p.total_pages, 0);
    let p = Pagination::new(2, 10, 101, ());
    assert_eq!(p.total_pages, 11);
    assert_eq!(p.page, 2);
    assert_eq!(p.page_size, 10);
    assert_eq!(p.total_records, 101);
}

#[test]
fn query_arg_defaults() {
    let args = MedicinalBackendQueryArg {
        page: None,
        keyword: None,
        msg: None,
        is_del: None,
        expired: None,
        category: None,
    };
    assert_eq!(args.page(), 0);
    assert_eq!(args.keyword(), "");
    assert_eq!(args.category(), "");
    assert_eq!(args.is_del(), false);
    assert_eq!(args.expired(), 0);

    let args = BackendQueryArg {
        page: Some(3),
        keyword: Some("k".to_string()),
        msg: None,
        is_del: Some(true),
    };
    assert_eq!(args.page(), 3);
    assert_eq!(args.keyword(), "k");
    assert_eq!(args.is_del(), true);

    assert_eq!(OrderKey::Validity.to_string(), "validity");
    assert_eq!(OrderKey::Category.to_string(), "category");
    assert_eq!(OrderKey::CreatedAt.to_string(), "created_at");
    assert_eq!(OrderKey::from_name(&"category".to_string()), OrderKey::Category);
    assert_eq!(OrderKey::from_name(&"nonsense".to_string()), OrderKey::Validity);
}

#[test]
fn error_constructors() {
    let e = AppError::from_str("msg", AppErrorType::UploadError);
    assert_eq!(e.error_type, AppErrorType::UploadError);
    assert_eq!(e.message, Some("msg".to_string()));
    assert_eq!(e.cause, None);

    let e = AppError::from_err("cause", AppErrorType::DbError);
    assert_eq!(e.message, None);
    assert_eq!(e.cause, Some("cause".to_string()));

    assert_eq!(AppError::not_found("x").error_type, AppErrorType::NotFound);
    assert_eq!(AppError::not_found_from_str("x").error_type, AppErrorType::NotFound);
    assert_eq!(AppError::is_exists("x").error_type, AppErrorType::IsExists);
    assert_eq!(AppError::auth_error("x").error_type, AppErrorType::AuthError);
    assert_eq!(AppError::db_error_from_str("x").error_type, AppErrorType::DbError);
    let e = AppError::tmpl_err("boom");
    assert_eq!(e.error_type, AppErrorType::Template);
    assert_eq!(e.cause, Some("boom".to_string()));
}

#[test]
fn cookie_header_lookup() {
    assert_eq!(
        get_cookie("sid=abc; theme=dark", "theme"),
        Some("dark".to_string())
    );
    assert_eq!(
        get_cookie(" sid = abc ;theme=dark", "sid"),
        Some("abc".to_string())
    );
    assert_eq!(get_cookie("sid=abc", "missing"), None);
    // An item without exactly one `=` is skipped.
    assert_eq!(get_cookie("sid; theme=dark", "theme"), Some("dark".to_string()));
    assert_eq!(get_cookie("a=b=c; x=1", "a"), None);
    assert_eq!(get_cookie("", "a"), None);
}

#[test]
fn export_column_widths() {
    let rec = MedicinalList {
        id: 1,
        category: "cat".to_string(),
        name: "a-very-long-medicinal-name".to_string(),
        batch_number: "b".to_string(),
        spec: "s".to_string(),
        count: "1".to_string(),
        validity: Date { year: 2024, month: 1, day: 1 },
        is_del: false,
        notify_at: None,
    };
    let w = column_widths(&vec![rec]);
    // Headers win where the data is narrower; the long name wins its
    // column; the date column is fixed at 11.
    assert_eq!(w, vec![6, 26, 6, 6, 6, 11]);
    let w = column_widths(&Vec::new());
    assert_eq!(w, vec![6, 12, 6, 6, 6, 9]);
}

#[test]
fn cache_value_roundtrip() {
    let mut v = StrValue::new("hello".to_string());
    assert_eq!(v.value(), "hello");
    v.set_expired(42);
    let v2 = StrValue::from_str_slice("hello");
    assert_eq!(v2.value(), "hello");

    let x: Option<Result<i32, AppError>> = None;
    assert!(matches!(flip(x), Ok(None)));
    let x: Option<Result<i32, AppError>> = Some(Ok(7));
    assert!(matches!(flip(x), Ok(Some(7))));
    let x: Option<Result<i32, AppError>> = Some(Err(AppError::not_found("x")));
    assert!(flip(x).is_err());
}
