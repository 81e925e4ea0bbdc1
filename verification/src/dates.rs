use vstd::prelude::*;
use crate::text::{is_digit, digit_val};

verus! {

// --- calendar rules ---

pub open spec fn leap_year(y: int) -> bool {
    (y % 4 == 0 && y % 100 != 0) || y % 400 == 0
}

pub open spec fn days_in_month(y: int, m: int) -> int {
    if m == 2 {
        if leap_year(y) {
            29
        } else {
            28
        }
    } else if m == 4 || m == 6 || m == 9 || m == 11 {
        30
    } else {
        31
    }
}

pub open spec fn valid_ymd(y: int, m: int, d: int) -> bool {
    1 <= m <= 12 && 1 <= d <= days_in_month(y, m)
}

// --- strict calendar-date form ---

/// The value of the two decimal digits at positions `i` and `i + 1`.
pub open spec fn two_val(s: Seq<char>, i: int) -> int {
    digit_val(s[i]) * 10 + digit_val(s[i + 1])
}

pub open spec fn year_of(s: Seq<char>) -> int {
    ((digit_val(s[0]) * 10 + digit_val(s[1])) * 10 + digit_val(s[2])) * 10 + digit_val(s[3])
}

pub open spec fn month_of(s: Seq<char>) -> int {
    two_val(s, 5)
}

pub open spec fn day_of(s: Seq<char>) -> int {
    two_val(s, 8)
}

/// A strict `YYYY-MM-DD` calendar date: four digits, dash, two digits,
/// dash, two digits, naming a valid day of the proleptic Gregorian calendar.
pub open spec fn date_ok(s: Seq<char>) -> bool {
    &&& s.len() == 10
    &&& is_digit(s[0])
    &&& is_digit(s[1])
    &&& is_digit(s[2])
    &&& is_digit(s[3])
    &&& s[4] == '-'
    &&& is_digit(s[5])
    &&& is_digit(s[6])
    &&& s[7] == '-'
    &&& is_digit(s[8])
    &&& is_digit(s[9])
    &&& valid_ymd(year_of(s), month_of(s), day_of(s))
}

fn digit_at(s: &str, i: usize) -> (r: Option<u32>)
    requires
        i < s@.len(),
        s@.len() <= usize::MAX,
    ensures
        match r {
            Some(v) => is_digit(s@[i as int]) && v == digit_val(s@[i as int]) && v <= 9,
            None => !is_digit(s@[i as int]),
        },
{
    let c = s.get_char(i);
    if '0' <= c && c <= '9' {
        Some(c as u32 - '0' as u32)
    } else {
        None
    }
}

fn leap_year_exec(y: u32) -> (r: bool)
    ensures
        r == leap_year(y as int),
{
    (y % 4 == 0 && y % 100 != 0) || y % 400 == 0
}

fn days_in_month_exec(y: u32, m: u32) -> (r: u32)
    ensures
        r == days_in_month(y as int, m as int),
{
    if m == 2 {
        if leap_year_exec(y) {
            29
        } else {
            28
        }
    } else if m == 4 || m == 6 || m == 9 || m == 11 {
        30
    } else {
        31
    }
}

/// Parses a strict `YYYY-MM-DD` date, returning year, month and day.
pub fn parse_date(s: &str) -> (r: Option<(u32, u32, u32)>)
    ensures
        r is Some <==> date_ok(s@),
        match r {
            Some(ymd) => ymd.0 == year_of(s@) && ymd.1 == month_of(s@) && ymd.2 == day_of(s@),
            None => true,
        },
{
    let len = s.unicode_len();
    if len != 10 {
        return None;
    }
    if !(s.get_char(4) == '-' && s.get_char(7) == '-') {
        return None;
    }
    let d0 = match digit_at(s, 0) {
        Some(v) => v,
        None => { return None; },
    };
    let d1 = match digit_at(s, 1) {
        Some(v) => v,
        None => { return None; },
    };
    let d2 = match digit_at(s, 2) {
        Some(v) => v,
        None => { return None; },
    };
    let d3 = match digit_at(s, 3) {
        Some(v) => v,
        None => { return None; },
    };
    let m0 = match digit_at(s, 5) {
        Some(v) => v,
        None => { return None; },
    };
    let m1 = match digit_at(s, 6) {
        Some(v) => v,
        None => { return None; },
    };
    let e0 = match digit_at(s, 8) {
        Some(v) => v,
        None => { return None; },
    };
    let e1 = match digit_at(s, 9) {
        Some(v) => v,
        None => { return None; },
    };
    let year = ((d0 * 10 + d1) * 10 + d2) * 10 + d3;
    let month = m0 * 10 + m1;
    let day = e0 * 10 + e1;
    if month < 1 || month > 12 {
        return None;
    }
    if day < 1 || day > days_in_month_exec(year, month) {
        return None;
    }
    Some((year, month, day))
}

// --- RFC 3339 timestamps ---

pub open spec fn offset_ok_at(t: Seq<char>, i: int) -> bool {
    ||| (t.len() == i + 1 && (t[i] == 'Z' || t[i] == 'z'))
    ||| (t.len() == i + 6 && (t[i] == '+' || t[i] == '-') && is_digit(t[i + 1]) && is_digit(
        t[i + 2],
    ) && t[i + 3] == ':' && is_digit(t[i + 4]) && is_digit(t[i + 5]) && two_val(t, i + 1) <= 23
        && two_val(t, i + 4) <= 59)
}

pub open spec fn frac_rest(t: Seq<char>, i: int) -> bool
    decreases t.len() - i,
{
    if i < t.len() && is_digit(t[i]) {
        frac_rest(t, i + 1)
    } else {
        offset_ok_at(t, i)
    }
}

pub open spec fn tail_ok_at(t: Seq<char>, i: int) -> bool {
    if i < t.len() && t[i] == '.' {
        i + 1 < t.len() && is_digit(t[i + 1]) && frac_rest(t, i + 2)
    } else {
        offset_ok_at(t, i)
    }
}

/// An RFC 3339 date-time: a strict calendar date, `T`, a 24-hour clock time
/// with an optional fraction of a second, and a `Z` or `±hh:mm` offset.
pub open spec fn rfc3339_ok(t: Seq<char>) -> bool {
    &&& t.len() >= 20
    &&& date_ok(t.subrange(0, 10))
    &&& (t[10] == 'T' || t[10] == 't')
    &&& is_digit(t[11])
    &&& is_digit(t[12])
    &&& t[13] == ':'
    &&& is_digit(t[14])
    &&& is_digit(t[15])
    &&& t[16] == ':'
    &&& is_digit(t[17])
    &&& is_digit(t[18])
    &&& two_val(t, 11) <= 23
    &&& two_val(t, 14) <= 59
    &&& two_val(t, 17) <= 60
    &&& tail_ok_at(t, 19)
}

fn offset_ok_exec(s: &str, i: usize, len: usize) -> (r: bool)
    requires
        i <= len,
        len == s@.len(),
    ensures
        r == offset_ok_at(s@, i as int),
{
    if len - i == 1 {
        let c = s.get_char(i);
        c == 'Z' || c == 'z'
    } else if len - i == 6 {
        let c = s.get_char(i);
        if !(c == '+' || c == '-') {
            return false;
        }
        let h0 = match digit_at(s, i + 1) {
            Some(v) => v,
            None => { return false; },
        };
        let h1 = match digit_at(s, i + 2) {
            Some(v) => v,
            None => { return false; },
        };
        if s.get_char(i + 3) != ':' {
            return false;
        }
        let m0 = match digit_at(s, i + 4) {
            Some(v) => v,
            None => { return false; },
        };
        let m1 = match digit_at(s, i + 5) {
            Some(v) => v,
            None => { return false; },
        };
        h0 * 10 + h1 <= 23 && m0 * 10 + m1 <= 59
    } else {
        false
    }
}

/// Whether `t` is an RFC 3339 date-time.
#[verifier::loop_isolation(false)]
pub fn is_rfc3339(t: &str) -> (r: bool)
    ensures
        r == rfc3339_ok(t@),
{
    let len = t.unicode_len();
    if len < 20 {
        return false;
    }
    let date_part = t.substring_char(0, 10);
    if parse_date(date_part).is_none() {
        return false;
    }
    let sep = t.get_char(10);
    if !(sep == 'T' || sep == 't') {
        return false;
    }
    if t.get_char(13) != ':' || t.get_char(16) != ':' {
        return false;
    }
    let h0 = match digit_at(t, 11) {
        Some(v) => v,
        None => { return false; },
    };
    let h1 = match digit_at(t, 12) {
        Some(v) => v,
        None => { return false; },
    };
    let m0 = match digit_at(t, 14) {
        Some(v) => v,
        None => { return false; },
    };
    let m1 = match digit_at(t, 15) {
        Some(v) => v,
        None => { return false; },
    };
    let s0 = match digit_at(t, 17) {
        Some(v) => v,
        None => { return false; },
    };
    let s1 = match digit_at(t, 18) {
        Some(v) => v,
        None => { return false; },
    };
    if h0 * 10 + h1 > 23 || m0 * 10 + m1 > 59 || s0 * 10 + s1 > 60 {
        return false;
    }
    // optional fraction, then the offset
    let mut i: usize = 19;
    if t.get_char(19) == '.' {
        if len < 21 {
            return false;
        }
        if digit_at(t, 20).is_none() {
            return false;
        }
        i = 21;
        while i < len
            invariant
                21 <= i <= len,
                len == t@.len(),
                tail_ok_at(t@, 19) == frac_rest(t@, i as int),
            decreases len - i,
        {
            if digit_at(t, i).is_none() {
                return offset_ok_exec(t, i, len);
            }
            i += 1;
        }
    }
    offset_ok_exec(t, i, len)
}

/// The calendar-date part of an RFC 3339 timestamp: its first ten
/// characters, returned only when the whole timestamp is well-formed.
pub fn rfc3339_date(t: &str) -> (r: Option<String>)
    ensures
        r is Some <==> rfc3339_ok(t@),
        match r {
            Some(d) => d@ == t@.subrange(0, 10) && date_ok(d@),
            None => true,
        },
{
    if is_rfc3339(t) {
        let d = t.substring_char(0, 10);
        Some(d.to_owned())
    } else {
        None
    }
}

} // verus!
