use vstd::prelude::*;
use vstd::string::{StrSliceExecFns, StringExecFns};

use crate::record::{Movie, MovieView};

verus! {

/// JSON whitespace.
pub open spec fn is_ws_char(c: char) -> bool {
    c == ' ' || c == '\t' || c == '\n' || c == '\r'
}

/// The first position at or after `i` that does not hold whitespace.
pub open spec fn skip_ws(s: Seq<char>, i: int) -> int
    decreases s.len() - i,
{
    if 0 <= i < s.len() && is_ws_char(s[i]) {
        skip_ws(s, i + 1)
    } else {
        i
    }
}

/// The character denoted by a backslash escape, if the escape is recognised.
pub open spec fn unescaped(c: char) -> Option<char> {
    if c == '"' {
        Some('"')
    } else if c == '\\' {
        Some('\\')
    } else if c == '/' {
        Some('/')
    } else if c == 'b' {
        Some('\u{8}')
    } else if c == 'f' {
        Some('\u{c}')
    } else if c == 'n' {
        Some('\n')
    } else if c == 'r' {
        Some('\r')
    } else if c == 't' {
        Some('\t')
    } else {
        None
    }
}

pub open spec fn is_hex(c: char) -> bool {
    is_digit(c) || (97 <= c as int <= 102) || (65 <= c as int <= 70)
}

pub open spec fn hex_val(c: char) -> int {
    if is_digit(c) {
        c as int - 48
    } else if 97 <= c as int <= 102 {
        c as int - 87
    } else {
        c as int - 55
    }
}

/// The character whose code the two hex digits of a `\u00` escape spell.
pub open spec fn hex_pair_char(a: char, b: char) -> char {
    ((16 * hex_val(a) + hex_val(b)) as u8) as char
}

/// The contents of a JSON string literal read from position `i` (just after
/// the opening quote) up to its closing quote, with escapes resolved, and the
/// position just after the closing quote.  Unescaped control characters,
/// unknown escapes, and `\u` escapes outside `\u00xx` are rejected.
pub open spec fn parse_string_body(s: Seq<char>, i: int) -> Option<(Seq<char>, int)>
    decreases s.len() - i,
{
    if i < 0 || i >= s.len() {
        None
    } else if s[i] == '"' {
        Some((Seq::empty(), i + 1))
    } else if s[i] == '\\' {
        if i + 1 < s.len() {
            if s[i + 1] == 'u' {
                if i + 5 < s.len() && s[i + 2] == '0' && s[i + 3] == '0' && is_hex(s[i + 4])
                    && is_hex(s[i + 5]) {
                    match parse_string_body(s, i + 6) {
                        Some(p) => Some((seq![hex_pair_char(s[i + 4], s[i + 5])] + p.0, p.1)),
                        None => None,
                    }
                } else {
                    None
                }
            } else {
                match unescaped(s[i + 1]) {
                    Some(c) => match parse_string_body(s, i + 2) {
                        Some(p) => Some((seq![c] + p.0, p.1)),
                        None => None,
                    },
                    None => None,
                }
            }
        } else {
            None
        }
    } else if (s[i] as int) < 32 {
        None
    } else {
        match parse_string_body(s, i + 1) {
            Some(p) => Some((seq![s[i]] + p.0, p.1)),
            None => None,
        }
    }
}

/// A whole JSON string literal starting at `i` with its opening quote.
pub open spec fn parse_quoted(s: Seq<char>, i: int) -> Option<(Seq<char>, int)> {
    if 0 <= i < s.len() && s[i] == '"' {
        parse_string_body(s, i + 1)
    } else {
        None
    }
}

pub open spec fn is_digit(c: char) -> bool {
    48 <= c as int <= 57
}

pub open spec fn digit_val(c: char) -> int {
    c as int - 48
}

/// Reads digits from `i` onto the value `acc` already read; the result is
/// rejected as soon as it can no longer fit the year field.
pub open spec fn parse_digits(s: Seq<char>, i: int, acc: int) -> Option<(int, int)>
    decreases s.len() - i,
{
    if acc > 65535 {
        None
    } else if 0 <= i < s.len() && is_digit(s[i]) {
        parse_digits(s, i + 1, acc * 10 + digit_val(s[i]))
    } else {
        Some((acc, i))
    }
}

/// A JSON unsigned integer at `i`: a single zero, or digits without a leading
/// zero, fitting the year field.
pub open spec fn parse_number(s: Seq<char>, i: int) -> Option<(u16, int)> {
    if !(0 <= i < s.len() && is_digit(s[i])) {
        None
    } else if s[i] == '0' {
        Some((0, i + 1))
    } else {
        match parse_digits(s, i, 0) {
            Some(p) => Some((p.0 as u16, p.1)),
            None => None,
        }
    }
}

/// The literal `true` or `false` at `i`.
pub open spec fn parse_bool(s: Seq<char>, i: int) -> Option<(bool, int)> {
    if 0 <= i && i + 4 <= s.len() && s[i] == 't' && s[i + 1] == 'r' && s[i + 2] == 'u' && s[i + 3]
        == 'e' {
        Some((true, i + 4))
    } else if 0 <= i && i + 5 <= s.len() && s[i] == 'f' && s[i + 1] == 'a' && s[i + 2] == 'l' && s[i
        + 3] == 's' && s[i + 4] == 'e' {
        Some((false, i + 5))
    } else {
        None
    }
}

/// A record in the making: the fields seen so far while reading an object.
pub ghost struct PartialMovie {
    pub id: Option<Seq<char>>,
    pub name: Option<Seq<char>>,
    pub year: Option<u16>,
    pub was_good: Option<bool>,
}

/// One `"key": value` member at `i`, folded into `p`.  A key other than the
/// four fields, or one already seen, is rejected.
pub open spec fn parse_member(s: Seq<char>, i: int, p: PartialMovie) -> Option<(PartialMovie, int)> {
    match parse_quoted(s, i) {
        Some(kp) => {
            let j = skip_ws(s, kp.1);
            if !(0 <= j < s.len() && s[j] == ':') {
                None
            } else {
                let k = skip_ws(s, j + 1);
                if kp.0 == "id"@ {
                    if p.id is Some {
                        None
                    } else {
                        match parse_quoted(s, k) {
                            Some(v) => Some(
                                (
                                    PartialMovie {
                                        id: Some(v.0),
                                        name: p.name,
                                        year: p.year,
                                        was_good: p.was_good,
                                    },
                                    v.1,
                                ),
                            ),
                            None => None,
                        }
                    }
                } else if kp.0 == "name"@ {
                    if p.name is Some {
                        None
                    } else {
                        match parse_quoted(s, k) {
                            Some(v) => Some(
                                (
                                    PartialMovie {
                                        id: p.id,
                                        name: Some(v.0),
                                        year: p.year,
                                        was_good: p.was_good,
                                    },
                                    v.1,
                                ),
                            ),
                            None => None,
                        }
                    }
                } else if kp.0 == "year"@ {
                    if p.year is Some {
                        None
                    } else {
                        match parse_number(s, k) {
                            Some(v) => Some(
                                (
                                    PartialMovie {
                                        id: p.id,
                                        name: p.name,
                                        year: Some(v.0),
                                        was_good: p.was_good,
                                    },
                                    v.1,
                                ),
                            ),
                            None => None,
                        }
                    }
                } else if kp.0 == "was_good"@ {
                    if p.was_good is Some {
                        None
                    } else {
                        match parse_bool(s, k) {
                            Some(v) => Some(
                                (
                                    PartialMovie {
                                        id: p.id,
                                        name: p.name,
                                        year: p.year,
                                        was_good: Some(v.0),
                                    },
                                    v.1,
                                ),
                            ),
                            None => None,
                        }
                    }
                } else {
                    None
                }
            }
        },
        None => None,
    }
}

/// Members separated by commas, up to and including the closing brace.  Four
/// members suffice for any accepted object, since a fifth key must repeat or
/// be unknown.
pub open spec fn parse_members(s: Seq<char>, i: int, p: PartialMovie, fuel: nat) -> Option<
    (PartialMovie, int),
>
    decreases fuel,
{
    if fuel == 0 {
        None
    } else {
        match parse_member(s, i, p) {
            Some(mp) => {
                let j = skip_ws(s, mp.1);
                if 0 <= j < s.len() && s[j] == ',' {
                    parse_members(s, skip_ws(s, j + 1), mp.0, (fuel - 1) as nat)
                } else if 0 <= j < s.len() && s[j] == '}' {
                    Some((mp.0, j + 1))
                } else {
                    None
                }
            },
            None => None,
        }
    }
}

/// The record denoted by a complete JSON text: one object holding exactly the
/// four fields, in any order, with nothing but whitespace around it.
pub open spec fn spec_parse_movie(s: Seq<char>) -> Option<MovieView> {
    let i = skip_ws(s, 0);
    if !(0 <= i < s.len() && s[i] == '{') {
        None
    } else {
        let j = skip_ws(s, i + 1);
        let none_yet = PartialMovie { id: None, name: None, year: None, was_good: None };
        let r = if 0 <= j < s.len() && s[j] == '}' {
            Some((none_yet, j + 1))
        } else {
            parse_members(s, j, none_yet, 4)
        };
        match r {
            Some(q) => {
                if skip_ws(s, q.1) == s.len() {
                    match (q.0.id, q.0.name, q.0.year, q.0.was_good) {
                        (Some(id), Some(name), Some(year), Some(wg)) => Some(
                            MovieView { id, name, year, was_good: wg },
                        ),
                        _ => None,
                    }
                } else {
                    None
                }
            },
            None => None,
        }
    }
}

/// A record in the making, as the reader holds it.
struct PartialRecord {
    id: Option<String>,
    name: Option<String>,
    year: Option<u16>,
    was_good: Option<bool>,
}

impl View for PartialRecord {
    type V = PartialMovie;

    closed spec fn view(&self) -> PartialMovie {
        PartialMovie {
            id: match self.id {
                Some(s) => Some(s@),
                None => None,
            },
            name: match self.name {
                Some(s) => Some(s@),
                None => None,
            },
            year: self.year,
            was_good: self.was_good,
        }
    }
}

fn is_ws(c: char) -> (r: bool)
    ensures
        r == is_ws_char(c),
{
    c == ' ' || c == '\t' || c == '\n' || c == '\r'
}

fn ws_end(s: &str, i: usize) -> (r: usize)
    requires
        i <= s@.len(),
    ensures
        r == skip_ws(s@, i as int),
        i <= r <= s@.len(),
    decreases s@.len() - i,
{
    if i < s.unicode_len() && is_ws(s.get_char(i)) {
        ws_end(s, i + 1)
    } else {
        i
    }
}

fn is_hex_char(c: char) -> (r: bool)
    ensures
        r == is_hex(c),
{
    is_digit_char(c) || (97 <= (c as u32) && (c as u32) <= 102) || (65 <= (c as u32) && (c as u32)
        <= 70)
}

fn hex_val_char(c: char) -> (r: u32)
    requires
        is_hex(c),
    ensures
        r == hex_val(c),
        r < 16,
{
    if is_digit_char(c) {
        (c as u32) - 48
    } else if 97 <= (c as u32) {
        (c as u32) - 87
    } else {
        (c as u32) - 55
    }
}

fn unescape_char(c: char) -> (r: Option<char>)
    ensures
        r == unescaped(c),
{
    if c == '"' {
        Some('"')
    } else if c == '\\' {
        Some('\\')
    } else if c == '/' {
        Some('/')
    } else if c == 'b' {
        Some('\u{8}')
    } else if c == 'f' {
        Some('\u{c}')
    } else if c == 'n' {
        Some('\n')
    } else if c == 'r' {
        Some('\r')
    } else if c == 't' {
        Some('\t')
    } else {
        None
    }
}

fn parse_body_at(s: &str, i: usize) -> (r: Option<(String, usize)>)
    requires
        i <= s@.len(),
    ensures
        match r {
            Some(p) => parse_string_body(s@, i as int) == Some((p.0@, p.1 as int)) && p.1
                <= s@.len(),
            None => parse_string_body(s@, i as int) is None,
        },
    decreases s@.len() - i,
{
    let n = s.unicode_len();
    if i >= n {
        return None;
    }
    let c = s.get_char(i);
    if c == '"' {
        Some((String::new(), i + 1))
    } else if c == '\\' {
        if i + 1 >= n {
            return None;
        }
        if s.get_char(i + 1) == 'u' {
            if n >= 6 && i <= n - 6 && s.get_char(i + 2) == '0' && s.get_char(i + 3) == '0'
                && is_hex_char(s.get_char(i + 4)) && is_hex_char(s.get_char(i + 5)) {
                let a = s.get_char(i + 4);
                let b = s.get_char(i + 5);
                let u = ((16 * hex_val_char(a) + hex_val_char(b)) as u8) as char;
                match parse_body_at(s, i + 6) {
                    Some(p) => {
                        let mut t = String::new();
                        crate::json::push_char(&mut t, u);
                        t.append(p.0.as_str());
                        proof {
                            assert(t@ =~= seq![u] + p.0@);
                        }
                        Some((t, p.1))
                    },
                    None => None,
                }
            } else {
                None
            }
        } else {
            match unescape_char(s.get_char(i + 1)) {
                Some(u) => match parse_body_at(s, i + 2) {
                    Some(p) => {
                        let mut t = String::new();
                        crate::json::push_char(&mut t, u);
                        t.append(p.0.as_str());
                        proof {
                            assert(t@ =~= seq![u] + p.0@);
                        }
                        Some((t, p.1))
                    },
                    None => None,
                },
                None => None,
            }
        }
    } else if (c as u32) < 32 {
        None
    } else {
        match parse_body_at(s, i + 1) {
            Some(p) => {
                let mut t = String::new();
                crate::json::push_char(&mut t, c);
                t.append(p.0.as_str());
                proof {
                    assert(t@ =~= seq![c] + p.0@);
                }
                Some((t, p.1))
            },
            None => None,
        }
    }
}

fn parse_quoted_at(s: &str, i: usize) -> (r: Option<(String, usize)>)
    requires
        i <= s@.len(),
    ensures
        match r {
            Some(p) => parse_quoted(s@, i as int) == Some((p.0@, p.1 as int)) && p.1 <= s@.len(),
            None => parse_quoted(s@, i as int) is None,
        },
{
    if i < s.unicode_len() && s.get_char(i) == '"' {
        parse_body_at(s, i + 1)
    } else {
        None
    }
}

fn is_digit_char(c: char) -> (r: bool)
    ensures
        r == is_digit(c),
{
    48 <= (c as u32) && (c as u32) <= 57
}

fn parse_digits_at(s: &str, i: usize, acc: u32) -> (r: Option<(u16, usize)>)
    requires
        i <= s@.len(),
        acc <= 655359,
    ensures
        match r {
            Some(p) => parse_digits(s@, i as int, acc as int) == Some((p.0 as int, p.1 as int))
                && p.1 <= s@.len(),
            None => parse_digits(s@, i as int, acc as int) is None,
        },
    decreases s@.len() - i,
{
    if acc > 65535 {
        return None;
    }
    let n = s.unicode_len();
    if i < n {
        let c = s.get_char(i);
        if is_digit_char(c) {
            return parse_digits_at(s, i + 1, acc * 10 + ((c as u32) - 48));
        }
    }
    Some((acc as u16, i))
}

fn parse_number_at(s: &str, i: usize) -> (r: Option<(u16, usize)>)
    requires
        i <= s@.len(),
    ensures
        match r {
            Some(p) => parse_number(s@, i as int) == Some((p.0, p.1 as int)) && p.1 <= s@.len(),
            None => parse_number(s@, i as int) is None,
        },
{
    let n = s.unicode_len();
    if !(i < n) {
        return None;
    }
    let c = s.get_char(i);
    if !is_digit_char(c) {
        return None;
    }
    if c == '0' {
        return Some((0, i + 1));
    }
    parse_digits_at(s, i, 0)
}

fn parse_bool_at(s: &str, i: usize) -> (r: Option<(bool, usize)>)
    requires
        i <= s@.len(),
    ensures
        match r {
            Some(p) => parse_bool(s@, i as int) == Some((p.0, p.1 as int)) && p.1 <= s@.len(),
            None => parse_bool(s@, i as int) is None,
        },
{
    let n = s.unicode_len();
    if n >= 4 && i <= n - 4 && s.get_char(i) == 't' && s.get_char(i + 1) == 'r' && s.get_char(i + 2)
        == 'u' && s.get_char(i + 3) == 'e' {
        Some((true, i + 4))
    } else if n >= 5 && i <= n - 5 && s.get_char(i) == 'f' && s.get_char(i + 1) == 'a' && s.get_char(
        i + 2,
    ) == 'l' && s.get_char(i + 3) == 's' && s.get_char(i + 4) == 'e' {
        Some((false, i + 5))
    } else {
        None
    }
}

fn parse_member_at(s: &str, i: usize, p: PartialRecord) -> (r: Option<(PartialRecord, usize)>)
    requires
        i <= s@.len(),
    ensures
        match r {
            Some(q) => parse_member(s@, i as int, p@) == Some((q.0@, q.1 as int)) && q.1
                <= s@.len(),
            None => parse_member(s@, i as int, p@) is None,
        },
{
    let n = s.unicode_len();
    match parse_quoted_at(s, i) {
        Some(kp) => {
            let j = ws_end(s, kp.1);
            if !(j < n) {
                return None;
            }
            if s.get_char(j) != ':' {
                return None;
            }
            let k = ws_end(s, j + 1);
            let key = kp.0;
            if key == String::from_str("id") {
                if p.id.is_some() {
                    return None;
                }
                match parse_quoted_at(s, k) {
                    Some(v) => Some(
                        (
                            PartialRecord {
                                id: Some(v.0),
                                name: p.name,
                                year: p.year,
                                was_good: p.was_good,
                            },
                            v.1,
                        ),
                    ),
                    None => None,
                }
            } else if key == String::from_str("name") {
                if p.name.is_some() {
                    return None;
                }
                match parse_quoted_at(s, k) {
                    Some(v) => Some(
                        (
                            PartialRecord {
                                id: p.id,
                                name: Some(v.0),
                                year: p.year,
                                was_good: p.was_good,
                            },
                            v.1,
                        ),
                    ),
                    None => None,
                }
            } else if key == String::from_str("year") {
                if p.year.is_some() {
                    return None;
                }
                match parse_number_at(s, k) {
                    Some(v) => Some(
                        (
                            PartialRecord {
                                id: p.id,
                                name: p.name,
                                year: Some(v.0),
                                was_good: p.was_good,
                            },
                            v.1,
                        ),
                    ),
                    None => None,
                }
            } else if key == String::from_str("was_good") {
                if p.was_good.is_some() {
                    return None;
                }
                match parse_bool_at(s, k) {
                    Some(v) => Some(
                        (
                            PartialRecord {
                                id: p.id,
                                name: p.name,
                                year: p.year,
                                was_good: Some(v.0),
                            },
                            v.1,
                        ),
                    ),
                    None => None,
                }
            } else {
                None
            }
        },
        None => None,
    }
}

fn parse_members_at(s: &str, i: usize, p: PartialRecord, fuel: u8) -> (r: Option<
    (PartialRecord, usize),
>)
    requires
        i <= s@.len(),
    ensures
        match r {
            Some(q) => parse_members(s@, i as int, p@, fuel as nat) == Some((q.0@, q.1 as int))
                && q.1 <= s@.len(),
            None => parse_members(s@, i as int, p@, fuel as nat) is None,
        },
    decreases fuel,
{
    if fuel == 0 {
        return None;
    }
    let n = s.unicode_len();
    match parse_member_at(s, i, p) {
        Some(mp) => {
            let j = ws_end(s, mp.1);
            if j < n && s.get_char(j) == ',' {
                let k = ws_end(s, j + 1);
                parse_members_at(s, k, mp.0, fuel - 1)
            } else if j < n && s.get_char(j) == '}' {
                Some((mp.0, j + 1))
            } else {
                None
            }
        },
        None => None,
    }
}

/// Reads a record from a complete JSON text; returns the record exactly when
/// the text denotes one.
pub fn parse_movie(s: &str) -> (r: Option<Movie>)
    ensures
        match r {
            Some(m) => spec_parse_movie(s@) == Some(m@),
            None => spec_parse_movie(s@) is None,
        },
{
    let n = s.unicode_len();
    let i = ws_end(s, 0);
    if !(i < n && s.get_char(i) == '{') {
        return None;
    }
    let j = ws_end(s, i + 1);
    let none_yet = PartialRecord { id: None, name: None, year: None, was_good: None };
    let q = if j < n && s.get_char(j) == '}' {
        Some((none_yet, j + 1))
    } else {
        parse_members_at(s, j, none_yet, 4)
    };
    match q {
        Some(q) => {
            if ws_end(s, q.1) == n {
                match (q.0.id, q.0.name, q.0.year, q.0.was_good) {
                    (Some(id), Some(name), Some(year), Some(wg)) => Some(
                        Movie { id, name, year, was_good: wg },
                    ),
                    _ => None,
                }
            } else {
                None
            }
        },
        None => None,
    }
}

} // verus!
