//! Cookie-header parsing: looking a named cookie up in a raw
//! `Cookie:` header value.

use vstd::prelude::*;

use crate::strings::chars_eq;
use crate::strings::chars_subrange;
use crate::strings::chars_to_string;
use crate::strings::str_to_chars;
use crate::strings::trim_chars;
use crate::strings::trimmed;

verus! {

/// Number of occurrences of `c` in `s`.
pub open spec fn count_char(s: Seq<char>, c: char) -> nat
    decreases s.len(),
{
    if s.len() == 0 {
        0
    } else {
        count_char(s.drop_last(), c) + if s.last() == c {
            1nat
        } else {
            0nat
        }
    }
}

/// Index of the first occurrence of `c` in `s` at or after `i`.
pub open spec fn find_char_from(s: Seq<char>, c: char, i: int) -> Option<int>
    decreases s.len() - i,
{
    if i < 0 || i >= s.len() {
        None
    } else if s[i] == c {
        Some(i)
    } else {
        find_char_from(s, c, i + 1)
    }
}

/// The value one `key=value` item yields for `name`: the item must
/// hold exactly one `=`, and its key, trimmed, must equal `name`; the
/// value comes back trimmed.
pub open spec fn item_value(item: Seq<char>, name: Seq<char>) -> Option<Seq<char>> {
    if count_char(item, '=') == 1 {
        match find_char_from(item, '=', 0) {
            Some(e) => if trimmed(item.subrange(0, e)) == name {
                Some(trimmed(item.subrange(e + 1, item.len() as int)))
            } else {
                None
            },
            None => None,
        }
    } else {
        None
    }
}

/// The value of the cookie `name` in the part of the header from `i`
/// on, with `cur` the partial item read so far: items are separated by
/// `;`, and the first item whose trimmed key equals `name` wins.
pub open spec fn cookie_value_acc(
    s: Seq<char>,
    name: Seq<char>,
    cur: Seq<char>,
    i: int,
) -> Option<Seq<char>>
    decreases s.len() - i,
{
    if i < 0 || i >= s.len() {
        item_value(cur, name)
    } else if s[i] == ';' {
        match item_value(cur, name) {
            Some(v) => Some(v),
            None => cookie_value_acc(s, name, Seq::empty(), i + 1),
        }
    } else {
        cookie_value_acc(s, name, cur.push(s[i]), i + 1)
    }
}

/// The value of the cookie `name` in a raw `Cookie:` header value.
pub open spec fn cookie_value(s: Seq<char>, name: Seq<char>) -> Option<Seq<char>> {
    cookie_value_acc(s, name, Seq::empty(), 0)
}

/// The value one `key=value` item yields for `name`.
fn item_value_exec(item: &Vec<char>, name: &Vec<char>) -> (r: Option<String>)
    ensures
        match r {
            Some(v) => item_value(item@, name@) == Some(v@),
            None => item_value(item@, name@) is None,
        },
{
    let n = item.len();
    let mut cnt: usize = 0;
    let mut j: usize = 0;
    proof {
        assert(item@.subrange(0, 0) =~= Seq::<char>::empty());
    }
    while j < n
        invariant
            n == item@.len(),
            0 <= j <= n,
            cnt <= j,
            cnt == count_char(item@.subrange(0, j as int), '='),
        decreases n - j,
    {
        proof {
            assert(item@.subrange(0, j + 1).drop_last() =~= item@.subrange(0, j as int));
            assert(item@.subrange(0, j + 1).last() == item@[j as int]);
        }
        if item[j] == '=' {
            cnt = cnt + 1;
        }
        j = j + 1;
    }
    proof {
        assert(item@.subrange(0, n as int) =~= item@);
    }
    if cnt != 1 {
        return None;
    }
    let mut e: usize = 0;
    while e < n
        invariant
            n == item@.len(),
            0 <= e <= n,
            count_char(item@, '=') == 1,
            find_char_from(item@, '=', 0) == find_char_from(item@, '=', e as int),
        decreases n - e,
    {
        if item[e] == '=' {
            let key = trim_chars(&chars_subrange(item, 0, e));
            if chars_eq(&key, name) {
                let value = trim_chars(&chars_subrange(item, e + 1, n));
                return Some(chars_to_string(&value));
            } else {
                return None;
            }
        }
        e = e + 1;
    }
    None
}

/// Looks the cookie `name` up in a raw `Cookie:` header value
/// (`key=value` items separated by `;`, keys and values trimmed),
/// returning the first matching item's trimmed value.
pub fn get_cookie(header: &str, name: &str) -> (r: Option<String>)
    ensures
        match r {
            Some(v) => cookie_value(header@, name@) == Some(v@),
            None => cookie_value(header@, name@) is None,
        },
{
    let s = str_to_chars(header);
    let nm = str_to_chars(name);
    let mut cur: Vec<char> = Vec::new();
    let n = s.len();
    let mut i: usize = 0;
    while i < n
        invariant
            n == s@.len(),
            s@ == header@,
            nm@ == name@,
            0 <= i <= n,
            cookie_value(header@, name@) == cookie_value_acc(header@, name@, cur@, i as int),
        decreases n - i,
    {
        if s[i] == ';' {
            match item_value_exec(&cur, &nm) {
                Some(v) => {
                    return Some(v);
                },
                None => {
                    cur = Vec::new();
                },
            }
        } else {
            cur.push(s[i]);
        }
        i = i + 1;
    }
    item_value_exec(&cur, &nm)
}

} // verus!
