use strangers::config::SessionConfig;
use strangers::model::Admin;
use strangers::password;
use strangers::session::CookieKV;
use strangers::session::build_admin_session;
use strangers::session::cookie_pair;
use strangers::session::gen_key;
use strangers::session::gen_redis_key;
use strangers::session::gen_user_cookie_key;
use strangers::session::get_cookie_by_pre;
use strangers::session::id;
use strangers::session::matches_session_cookie_name;

fn cfg() -> SessionConfig {
    SessionConfig {
        prefix: "strangers:session:".to_string(),
        id_name: "strangers_session".to_string(),
        expired: 1800,
    }
}

#[test]
fn test_regex_rule() {
    let prefix = "strangers_session";
    assert!(matches_session_cookie_name(
        "strangers_session12345678_2323abc",
        prefix
    ));
}

#[test]
fn session_cookie_shape() {
    let prefix = "sess";
    assert!(matches_session_cookie_name("sess12345678_abcdefg", prefix));
    assert!(matches_session_cookie_name("sess123456789_ab_de7g", prefix));
    // Too few digits.
    assert!(!matches_session_cookie_name("sess1234567_abcdefg", prefix));
    // No underscore before the tail.
    assert!(!matches_session_cookie_name("sess12345678xabcdefg", prefix));
    // Tail too short.
    assert!(!matches_session_cookie_name("sess12345678_abcdef", prefix));
    // Wrong prefix.
    assert!(!matches_session_cookie_name("xess12345678_abcdefg", prefix));
    // Non-digit in the digit run.
    assert!(!matches_session_cookie_name("sess1234x678_abcdefg", prefix));
}

#[test]
fn generated_cookie_name_matches_rule() {
    let name = gen_user_cookie_key("strangers_session");
    assert!(matches_session_cookie_name(&name, "strangers_session"));
}

#[test]
fn session_keys() {
    let c = cfg();
    assert_eq!(gen_redis_key(&c, "abc"), "strangers:session:abc");
    let k = gen_key(&c);
    assert_eq!(k.id.len(), 32);
    assert_eq!(k.cookie_key, "strangers_session");
    assert_eq!(k.redis_key, format!("strangers:session:{}", k.id));
    let a = id();
    let b = id();
    assert_eq!(a.len(), 32);
    assert_ne!(a, b);
}

#[test]
fn first_session_cookie_wins() {
    let cookies = vec![
        CookieKV { name: "other".to_string(), value: "x".to_string() },
        CookieKV {
            name: "sess12345678_abcdefg".to_string(),
            value: "v1".to_string(),
        },
        CookieKV {
            name: "sess99999999_zzzzzzz".to_string(),
            value: "v2".to_string(),
        },
    ];
    let hit = get_cookie_by_pre(&cookies, "sess").unwrap();
    assert_eq!(hit.name, "sess12345678_abcdefg");
    assert_eq!(hit.value, "v1");
    assert!(get_cookie_by_pre(&cookies, "nope").is_none());
}

#[test]
fn admin_session_and_cookie_pair() {
    let admin = Admin {
        id: 7,
        username: "wgr".to_string(),
        password: "hash".to_string(),
        is_sys: true,
        is_del: false,
    };
    let sess = build_admin_session(&admin, 1_647_953_704, 1800);
    assert_eq!(sess.id, 7);
    assert_eq!(sess.username, "wgr");
    assert_eq!(sess.is_sys, true);
    assert_eq!(sess.dateline, 1_647_955_504);

    assert_eq!(cookie_pair("strangers_session", "abc"), "strangers_session=abc");
    assert_eq!(cookie_pair("strangers_session", ""), "strangers_session=");
}

#[test]
fn test_hash() {
    let pwd = "wgr695";
    let hashed_pwd = password::hash(pwd).unwrap();
    println!("hashed_pwd: {}", hashed_pwd);
}

#[test]
fn test_verify_hashed_pwd() {
    let pwd = "wgr695";
    let hashed_pwd = "$2b$12$QW8Lmf0gvsb1xtRJLxJxzea2M2p5Pxx1LrmPuVzria5obcY8u890C";
    let is_match = password::verify(pwd, hashed_pwd).unwrap();
    assert!(is_match);
}

#[test]
fn hash_then_verify_roundtrip() {
    let pwd = "some-password";
    let hashed = password::hash(pwd).unwrap();
    assert!(password::verify(pwd, &hashed).unwrap());
    assert!(!password::verify("wrong", &hashed).unwrap());
}
