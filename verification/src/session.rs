//! Session keys and session cookies: cache-key derivation, the random
//! session id, the per-client cookie name, and the exact shape a session
//! cookie name must have to be recognized.

use vstd::prelude::*;

use vstd::string::StringExecFns;

use rand::RngExt;

use crate::config::SessionConfig;
use crate::model::Admin;
use crate::model::AdminSession;
use crate::strings::chars_to_string;
use crate::strings::dec_digits_signed;
use crate::strings::i64_to_dec_chars;
use crate::strings::push_all;
use crate::strings::str_to_chars;

verus! {

/// Derives the cache key of a session id: the configured prefix,
/// then the id.
pub fn gen_redis_key(cfg: &SessionConfig, id: &str) -> (r: String)
    ensures
        r@ == cfg.prefix@ + id@,
{
    let mut s = String::new();
    s.append(cfg.prefix.as_str());
    s.append(id);
    proof {
        assert(s@ =~= cfg.prefix@ + id@);
    }
    s
}

/// The keys of a fresh session: the session id, the cookie name it is
/// stored under, and the cache key it is stored at.
pub struct GeneratedKey {
    pub id: String,
    pub cookie_key: String,
    pub redis_key: String,
}

/// Relies on uuid's v4 generator and simple formatting: a fresh random
/// identifier written as 32 hexadecimal digits.  The value is random,
/// so only its length is promised.
#[verifier::external_body]
pub fn id() -> (r: String)
    ensures
        r@.len() == 32,
{
    uuid::Uuid::new_v4().simple().to_string()
}

/// Generates the keys of a fresh session: a random id, the configured
/// cookie name, and the cache key derived from the prefix and the id.
pub fn gen_key(cfg: &SessionConfig) -> (r: GeneratedKey)
    ensures
        r.id@.len() == 32,
        r.cookie_key@ == cfg.id_name@,
        r.redis_key@ == cfg.prefix@ + r.id@,
{
    let sid = id();
    let cookie_key = cfg.id_name.clone();
    let redis_key = gen_redis_key(cfg, sid.as_str());
    GeneratedKey { id: sid, cookie_key, redis_key }
}

/// Builds the session record stored for a logged-in admin: the
/// account's fields, with the expiry deadline set `expired` seconds
/// after `now_ts` (truncated to the stored 32-bit field).
pub fn build_admin_session(admin: &Admin, now_ts: i64, expired: usize) -> (r: AdminSession)
    requires
        now_ts + expired <= 0x7fff_ffff_ffff_ffff,
    ensures
        r.id == admin.id,
        r.username@ == admin.username@,
        r.password@ == admin.password@,
        r.is_sys == admin.is_sys,
        r.dateline == (now_ts + expired) as i32,
{
    AdminSession {
        id: admin.id,
        username: admin.username.clone(),
        password: admin.password.clone(),
        is_sys: admin.is_sys,
        dateline: #[verifier::truncate] (((now_ts as i128) + (expired as i128)) as i32),
    }
}

/// Writes one `key=value` cookie pair.
pub fn cookie_pair(key: &str, value: &str) -> (r: String)
    ensures
        r@ == key@ + "="@ + value@,
{
    let mut s = String::new();
    s.append(key);
    s.append("=");
    s.append(value);
    proof {
        assert(s@ =~= key@ + "="@ + value@);
    }
    s
}

/// A decimal digit.
pub open spec fn is_digit_char(c: char) -> bool {
    '0' <= c && c <= '9'
}

/// A word character: a letter, a digit or an underscore.
pub open spec fn is_word_char(c: char) -> bool {
    ||| is_digit_char(c)
    ||| 'a' <= c && c <= 'z'
    ||| 'A' <= c && c <= 'Z'
    ||| c == '_'
}

/// An ASCII letter or digit.
pub open spec fn is_alnum_char(c: char) -> bool {
    ||| is_digit_char(c)
    ||| 'a' <= c && c <= 'z'
    ||| 'A' <= c && c <= 'Z'
}

/// Relies on chrono's local clock: the current moment in milliseconds
/// since the epoch.  Nothing is promised of the clock's value.
#[verifier::external_body]
fn now_millis() -> (r: i64) {
    chrono::Local::now().timestamp_millis()
}

/// Relies on rand's thread rng with the Alphanumeric distribution:
/// `n` characters drawn from A-Z, a-z and 0-9.  The values are random,
/// so only the length and the character set are promised.
#[verifier::external_body]
fn random_alphanumeric(n: usize) -> (r: String)
    ensures
        r@.len() == n,
        forall|i: int| 0 <= i < r@.len() ==> is_alnum_char(#[trigger] r@[i]),
{
    let mut rng = rand::rng();
    (&mut rng).sample_iter(rand::distr::Alphanumeric).take(n).map(char::from).collect()
}

/// The text of a per-client session cookie name: the prefix, the
/// timestamp's digits, an underscore, then the random tail.
pub open spec fn user_cookie_text(prefix: Seq<char>, ts: int, tail: Seq<char>) -> Seq<char> {
    prefix + dec_digits_signed(ts) + "_"@ + tail
}

/// Generates a per-client session cookie name: the prefix, the current
/// millisecond timestamp, an underscore, and seven random alphanumeric
/// characters (so that the same client gets distinct cookies in
/// distinct browsers).
pub fn gen_user_cookie_key(prefix: &str) -> (r: String)
    ensures
        exists|ts: int, tail: Seq<char>|
            {
                &&& r@ == #[trigger] user_cookie_text(prefix@, ts, tail)
                &&& tail.len() == 7
                &&& forall|i: int| 0 <= i < tail.len() ==> is_alnum_char(#[trigger] tail[i])
            },
{
    let ts = now_millis();
    let tail = random_alphanumeric(7);
    let mut out: Vec<char> = Vec::new();
    let p = str_to_chars(prefix);
    push_all(&mut out, &p);
    let digits = i64_to_dec_chars(ts);
    push_all(&mut out, &digits);
    out.push('_');
    let tail_chars = str_to_chars(tail.as_str());
    push_all(&mut out, &tail_chars);
    let r = chars_to_string(&out);
    proof {
        reveal_strlit("_");
        assert(r@ =~= user_cookie_text(prefix@, ts as int, tail@));
    }
    r
}

/// The shape of a recognized session cookie name: the prefix, at least
/// eight decimal digits, an underscore, then exactly seven word
/// characters.
pub open spec fn spec_session_cookie_match(name: Seq<char>, prefix: Seq<char>) -> bool {
    exists|d: Seq<char>, w: Seq<char>|
        {
            &&& name == #[trigger] session_cookie_parts(prefix, d, w)
            &&& d.len() >= 8
            &&& forall|i: int| 0 <= i < d.len() ==> is_digit_char(#[trigger] d[i])
            &&& w.len() == 7
            &&& forall|i: int| 0 <= i < w.len() ==> is_word_char(#[trigger] w[i])
        }
}

/// A session cookie name assembled from its parts.
pub open spec fn session_cookie_parts(prefix: Seq<char>, d: Seq<char>, w: Seq<char>) -> Seq<char> {
    prefix + d + "_"@ + w
}

fn is_digit_exec(c: char) -> (r: bool)
    ensures
        r == is_digit_char(c),
{
    '0' <= c && c <= '9'
}

fn is_word_exec(c: char) -> (r: bool)
    ensures
        r == is_word_char(c),
{
    ('0' <= c && c <= '9') || ('a' <= c && c <= 'z') || ('A' <= c && c <= 'Z') || c == '_'
}

/// True when the cookie name has the recognized session-cookie shape
/// for the given prefix.
pub fn matches_session_cookie_name(name: &str, prefix: &str) -> (r: bool)
    ensures
        r == spec_session_cookie_match(name@, prefix@),
{
    let n = str_to_chars(name);
    let p = str_to_chars(prefix);
    let nl = n.len();
    let pl = p.len();
    proof {
        reveal_strlit("_");
    }
    if (nl as u128) < (pl as u128) + 16 {
        proof {
            reveal_strlit("_");
            assert forall|d: Seq<char>, w: Seq<char>|
                !(name@ == #[trigger] session_cookie_parts(prefix@, d, w) && d.len() >= 8
                    && w.len() == 7) by {
                if name@ == session_cookie_parts(prefix@, d, w) {
                    assert(name@.len() == prefix@.len() + d.len() + 1 + w.len());
                }
            }
        }
        return false;
    }
    // The underscore separating the digits from the seven-character
    // tail always sits eight characters from the end, so the digit run
    // has a fixed length once the total length is known.
    let k = nl - 8 - pl;
    let ghost dlen = k as int;
    let mut i: usize = 0;
    while i < pl
        invariant
            0 <= i <= pl,
            pl + 16 <= nl,
            pl == prefix@.len(),
            nl == name@.len(),
            n@ == name@,
            p@ == prefix@,
            forall|j: int| 0 <= j < i ==> name@[j] == prefix@[j],
        decreases pl - i,
    {
        if n[i] != p[i] {
            proof {
                lemma_no_match_char(name@, prefix@, i as int);
            }
            return false;
        }
        i = i + 1;
    }
    let mut j: usize = 0;
    while j < k
        invariant
            0 <= j <= k,
            k == nl - 8 - pl,
            pl + 16 <= nl,
            pl == prefix@.len(),
            nl == name@.len(),
            n@ == name@,
            forall|t: int| 0 <= t < j ==> is_digit_char(#[trigger] name@[pl + t]),
        decreases k - j,
    {
        if !is_digit_exec(n[pl + j]) {
            proof {
                lemma_no_match_digit(name@, prefix@, (pl + j) as int);
            }
            return false;
        }
        j = j + 1;
    }
    if n[pl + k] != '_' {
        proof {
            lemma_no_match_underscore(name@, prefix@);
        }
        return false;
    }
    let mut t: usize = 0;
    while t < 7
        invariant
            0 <= t <= 7,
            pl + 16 <= nl,
            pl == prefix@.len(),
            nl == name@.len(),
            n@ == name@,
            forall|u: int| 0 <= u < t ==> is_word_char(#[trigger] name@[nl - 7 + u]),
        decreases 7 - t,
    {
        if !is_word_exec(n[nl - 7 + t]) {
            proof {
                lemma_no_match_word(name@, prefix@, (nl - 7 + t) as int);
            }
            return false;
        }
        t = t + 1;
    }
    proof {
        let d = name@.subrange(pl as int, pl + dlen);
        let w = name@.subrange(name@.len() - 7, name@.len() as int);
        assert(name@ =~= session_cookie_parts(prefix@, d, w));
        assert forall|u: int| 0 <= u < d.len() implies is_digit_char(#[trigger] d[u]) by {
            assert(d[u] == name@[pl + u]);
        }
        assert forall|u: int| 0 <= u < w.len() implies is_word_char(#[trigger] w[u]) by {
            assert(w[u] == name@[name@.len() - 7 + u]);
        }
    }
    true
}

/// Any match forces the name to start with the prefix.
proof fn lemma_no_match_char(name: Seq<char>, prefix: Seq<char>, i: int)
    requires
        0 <= i < prefix.len(),
        i < name.len(),
        name[i] != prefix[i],
    ensures
        !spec_session_cookie_match(name, prefix),
{
    reveal_strlit("_");
    assert forall|d: Seq<char>, w: Seq<char>|
        !(name == #[trigger] session_cookie_parts(prefix, d, w) && d.len() >= 8 && w.len()
            == 7) by {
        if name == session_cookie_parts(prefix, d, w) {
            assert(name[i] == prefix[i]);
        }
    }
}

/// Any match forces digits right after the prefix, up to the
/// underscore eight characters from the end.
proof fn lemma_no_match_digit(name: Seq<char>, prefix: Seq<char>, pos: int)
    requires
        prefix.len() <= pos < name.len() - 8,
        prefix.len() + 16 <= name.len(),
        !is_digit_char(name[pos]),
    ensures
        !spec_session_cookie_match(name, prefix),
{
    reveal_strlit("_");
    assert forall|d: Seq<char>, w: Seq<char>|
        !(name == #[trigger] session_cookie_parts(prefix, d, w) && d.len() >= 8 && (forall|i: int|
            0 <= i < d.len() ==> is_digit_char(#[trigger] d[i])) && w.len() == 7) by {
        if name == session_cookie_parts(prefix, d, w) && w.len() == 7 {
            assert(name.len() == prefix.len() + d.len() + 1 + w.len());
            if forall|i: int| 0 <= i < d.len() ==> is_digit_char(#[trigger] d[i]) {
                assert(name[pos] == d[pos - prefix.len()]);
                assert(is_digit_char(d[pos - prefix.len()]));
            }
        }
    }
}

/// Any match forces an underscore eight characters from the end.
proof fn lemma_no_match_underscore(name: Seq<char>, prefix: Seq<char>)
    requires
        prefix.len() + 16 <= name.len(),
        name[name.len() - 8] != '_',
    ensures
        !spec_session_cookie_match(name, prefix),
{
    reveal_strlit("_");
    assert forall|d: Seq<char>, w: Seq<char>|
        !(name == #[trigger] session_cookie_parts(prefix, d, w) && d.len() >= 8 && w.len()
            == 7) by {
        if name == session_cookie_parts(prefix, d, w) && w.len() == 7 {
            assert(name.len() == prefix.len() + d.len() + 1 + w.len());
            assert(name[prefix.len() + d.len() as int] == "_"@[0]);
        }
    }
}

/// Any match forces word characters in the last seven positions.
proof fn lemma_no_match_word(name: Seq<char>, prefix: Seq<char>, pos: int)
    requires
        prefix.len() + 16 <= name.len(),
        name.len() - 7 <= pos < name.len(),
        !is_word_char(name[pos]),
    ensures
        !spec_session_cookie_match(name, prefix),
{
    reveal_strlit("_");
    assert forall|d: Seq<char>, w: Seq<char>|
        !(name == #[trigger] session_cookie_parts(prefix, d, w) && d.len() >= 8 && w.len() == 7 && (
        forall|i: int| 0 <= i < w.len() ==> is_word_char(#[trigger] w[i]))) by {
        if name == session_cookie_parts(prefix, d, w) && w.len() == 7 {
            assert(name.len() == prefix.len() + d.len() + 1 + w.len());
            if forall|i: int| 0 <= i < w.len() ==> is_word_char(#[trigger] w[i]) {
                assert(name[pos] == w[pos - (name.len() - 7)]);
                assert(is_word_char(w[pos - (name.len() - 7)]));
            }
        }
    }
}

/// A cookie as a plain name and value.
#[derive(Clone, Debug, Default)]
pub struct CookieKV {
    pub name: String,
    pub value: String,
}

/// Index of the first cookie whose name has the session-cookie shape.
pub open spec fn first_session_cookie(cookies: Seq<(Seq<char>, Seq<char>)>, prefix: Seq<char>, i: int) -> Option<int>
    decreases cookies.len() - i,
{
    if i < 0 || i >= cookies.len() {
        None
    } else if spec_session_cookie_match(cookies[i].0, prefix) {
        Some(i)
    } else {
        first_session_cookie(cookies, prefix, i + 1)
    }
}

/// The name-value views of a cookie list.
pub open spec fn cookie_views(cookies: Seq<CookieKV>) -> Seq<(Seq<char>, Seq<char>)> {
    cookies.map(|i: int, c: CookieKV| (c.name@, c.value@))
}

/// Returns the first cookie whose name has the session-cookie shape
/// for the prefix, if any.
pub fn get_cookie_by_pre(cookies: &Vec<CookieKV>, prefix: &str) -> (r: Option<CookieKV>)
    ensures
        match r {
            Some(c) => first_session_cookie(cookie_views(cookies@), prefix@, 0) matches Some(i)
                && c.name@ == cookies@[i].name@ && c.value@ == cookies@[i].value@,
            None => first_session_cookie(cookie_views(cookies@), prefix@, 0) is None,
        },
{
    let n = cookies.len();
    let mut i: usize = 0;
    while i < n
        invariant
            n == cookies@.len(),
            0 <= i <= n,
            first_session_cookie(cookie_views(cookies@), prefix@, 0) == first_session_cookie(
                cookie_views(cookies@),
                prefix@,
                i as int,
            ),
        decreases n - i,
    {
        if matches_session_cookie_name(cookies[i].name.as_str(), prefix) {
            proof {
                assert(cookie_views(cookies@)[i as int].0 == cookies@[i as int].name@);
            }
            return Some(
                CookieKV { name: cookies[i].name.clone(), value: cookies[i].value.clone() },
            );
        }
        proof {
            assert(cookie_views(cookies@)[i as int].0 == cookies@[i as int].name@);
        }
        i = i + 1;
    }
    None
}

} // verus!
