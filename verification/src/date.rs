//! Verified calendar arithmetic: ISO calendar dates, RFC-3339 timestamps'
//! date fields, weekday computation, and the date renderings the artifacts
//! and template helpers emit.

use vstd::prelude::*;
use vstd::string::StrSliceExecFns;
use crate::text::{push_str_chars, string_from_chars};

verus! {

broadcast use vstd::std_specs::vec::group_vec_axioms, vstd::seq::group_seq_axioms;

/// An ASCII decimal digit.
pub open spec fn is_digit(c: char) -> bool {
    48 <= c as u32 && c as u32 <= 57
}

/// The value of a decimal digit.
pub open spec fn digit_val(c: char) -> int {
    c as u32 - 48
}

pub open spec fn is_leap_year(y: int) -> bool {
    y % 4 == 0 && (y % 100 != 0 || y % 400 == 0)
}

pub open spec fn days_in_month(y: int, m: int) -> int {
    if m == 1 {
        31
    } else if m == 2 {
        if is_leap_year(y) {
            29
        } else {
            28
        }
    } else if m == 3 {
        31
    } else if m == 4 {
        30
    } else if m == 5 {
        31
    } else if m == 6 {
        30
    } else if m == 7 {
        31
    } else if m == 8 {
        31
    } else if m == 9 {
        30
    } else if m == 10 {
        31
    } else if m == 11 {
        30
    } else {
        31
    }
}

/// A valid calendar date with a four-digit year.
pub open spec fn date_valid(y: int, m: int, d: int) -> bool {
    0 <= y <= 9999 && 1 <= m <= 12 && 1 <= d <= days_in_month(y, m)
}

/// The date an ISO `YYYY-MM-DD` text denotes, if it is well-formed and
/// names a valid calendar date.
pub open spec fn iso_date_of(s: Seq<char>) -> Option<(int, int, int)> {
    if s.len() == 10 && is_digit(s[0]) && is_digit(s[1]) && is_digit(s[2]) && is_digit(s[3])
        && s[4] == '-' && is_digit(s[5]) && is_digit(s[6]) && s[7] == '-' && is_digit(s[8])
        && is_digit(s[9]) {
        let y = digit_val(s[0]) * 1000 + digit_val(s[1]) * 100 + digit_val(s[2]) * 10 + digit_val(
            s[3],
        );
        let m = digit_val(s[5]) * 10 + digit_val(s[6]);
        let d = digit_val(s[8]) * 10 + digit_val(s[9]);
        if date_valid(y, m, d) {
            Some((y, m, d))
        } else {
            None
        }
    } else {
        None
    }
}

fn digit_of(c: char) -> (r: Option<u32>)
    ensures
        match r {
            Some(v) => is_digit(c) && v == digit_val(c),
            None => !is_digit(c),
        },
{
    let u = c as u32;
    if 48 <= u && u <= 57 {
        Some(u - 48)
    } else {
        None
    }
}

/// Parses an ISO `YYYY-MM-DD` calendar date.
pub fn parse_iso_date(s: &str) -> (r: Option<(u32, u32, u32)>)
    ensures
        match r {
            Some(ymd) => iso_date_of(s@) == Some((ymd.0 as int, ymd.1 as int, ymd.2 as int)),
            None => iso_date_of(s@) is None,
        },
{
    if s.unicode_len() != 10 {
        return None;
    }
    let c0 = digit_of(s.get_char(0));
    let c1 = digit_of(s.get_char(1));
    let c2 = digit_of(s.get_char(2));
    let c3 = digit_of(s.get_char(3));
    let c5 = digit_of(s.get_char(5));
    let c6 = digit_of(s.get_char(6));
    let c8 = digit_of(s.get_char(8));
    let c9 = digit_of(s.get_char(9));
    if s.get_char(4) != '-' || s.get_char(7) != '-' {
        return None;
    }
    match (c0, c1, c2, c3, c5, c6, c8, c9) {
        (
            Some(d0),
            Some(d1),
            Some(d2),
            Some(d3),
            Some(d5),
            Some(d6),
            Some(d8),
            Some(d9),
        ) => {
            let y = d0 * 1000 + d1 * 100 + d2 * 10 + d3;
            let m = d5 * 10 + d6;
            let d = d8 * 10 + d9;
            if month_day_valid(y, m, d) {
                Some((y, m, d))
            } else {
                None
            }
        },
        _ => None,
    }
}

fn month_day_valid(y: u32, m: u32, d: u32) -> (r: bool)
    requires
        y <= 9999,
        m <= 99,
        d <= 99,
    ensures
        r == date_valid(y as int, m as int, d as int),
{
    if m < 1 || m > 12 || d < 1 {
        return false;
    }
    let dim: u32 = if m == 1 {
        31
    } else if m == 2 {
        if (y % 4 == 0) && (y % 100 != 0 || y % 400 == 0) {
            29
        } else {
            28
        }
    } else if m == 3 {
        31
    } else if m == 4 {
        30
    } else if m == 5 {
        31
    } else if m == 6 {
        30
    } else if m == 7 {
        31
    } else if m == 8 {
        31
    } else if m == 9 {
        30
    } else if m == 10 {
        31
    } else if m == 11 {
        30
    } else {
        31
    };
    d <= dim
}

/// The number of days from the civil epoch `0000-03-01` to the given date,
/// shifted forward by 400 years. 400 Gregorian years are a whole number of
/// weeks, so the shift leaves every weekday unchanged and keeps the
/// arithmetic non-negative for all four-digit years.
pub open spec fn days_from_epoch(y: int, m: int, d: int) -> int {
    let ys = if m <= 2 {
        y + 399
    } else {
        y + 400
    };
    let era = ys / 400;
    let yoe = ys - era * 400;
    let mp = if m > 2 {
        m - 3
    } else {
        m + 9
    };
    let doy = (153 * mp + 2) / 5 + d - 1;
    let doe = yoe * 365 + yoe / 4 - yoe / 100 + doy;
    era * 146097 + doe
}

/// The weekday of a date: 0 is Sunday. The civil epoch `0000-03-01` was a
/// Wednesday.
pub open spec fn weekday_of(y: int, m: int, d: int) -> int {
    (days_from_epoch(y, m, d) + 3) % 7
}

/// The weekday of a valid date, 0 being Sunday.
pub fn weekday(y: u32, m: u32, d: u32) -> (r: u32)
    requires
        date_valid(y as int, m as int, d as int),
    ensures
        r == weekday_of(y as int, m as int, d as int),
        r < 7,
{
    let ys: u32 = if m <= 2 {
        y + 399
    } else {
        y + 400
    };
    let era: u32 = ys / 400;
    let yoe: u32 = ys - era * 400;
    let mp: u32 = if m > 2 {
        m - 3
    } else {
        m + 9
    };
    let doy: u32 = (153 * mp + 2) / 5 + d - 1;
    let doe: u32 = yoe * 365 + yoe / 4 - yoe / 100 + doy;
    let total: u32 = era * 146097 + doe;
    proof {
        assert(total == days_from_epoch(y as int, m as int, d as int));
    }
    (total + 3) % 7
}

/// The full English month name.
pub open spec fn spec_month_name(m: int) -> Seq<char> {
    if m == 1 {
        "January"@
    } else if m == 2 {
        "February"@
    } else if m == 3 {
        "March"@
    } else if m == 4 {
        "April"@
    } else if m == 5 {
        "May"@
    } else if m == 6 {
        "June"@
    } else if m == 7 {
        "July"@
    } else if m == 8 {
        "August"@
    } else if m == 9 {
        "September"@
    } else if m == 10 {
        "October"@
    } else if m == 11 {
        "November"@
    } else {
        "December"@
    }
}

fn month_name(m: u32) -> (r: &'static str)
    requires
        1 <= m <= 12,
    ensures
        r@ == spec_month_name(m as int),
{
    if m == 1 {
        "January"
    } else if m == 2 {
        "February"
    } else if m == 3 {
        "March"
    } else if m == 4 {
        "April"
    } else if m == 5 {
        "May"
    } else if m == 6 {
        "June"
    } else if m == 7 {
        "July"
    } else if m == 8 {
        "August"
    } else if m == 9 {
        "September"
    } else if m == 10 {
        "October"
    } else if m == 11 {
        "November"
    } else {
        "December"
    }
}

/// The three-letter English month name.
pub open spec fn spec_month_abbrev(m: int) -> Seq<char> {
    spec_month_name(m).subrange(0, 3)
}

fn month_abbrev(m: u32) -> (r: &'static str)
    requires
        1 <= m <= 12,
    ensures
        r@ == spec_month_abbrev(m as int),
{
    let r: &'static str = if m == 1 {
        "Jan"
    } else if m == 2 {
        "Feb"
    } else if m == 3 {
        "Mar"
    } else if m == 4 {
        "Apr"
    } else if m == 5 {
        "May"
    } else if m == 6 {
        "Jun"
    } else if m == 7 {
        "Jul"
    } else if m == 8 {
        "Aug"
    } else if m == 9 {
        "Sep"
    } else if m == 10 {
        "Oct"
    } else if m == 11 {
        "Nov"
    } else {
        "Dec"
    };
    proof {
        reveal_strlit("January");
        reveal_strlit("February");
        reveal_strlit("March");
        reveal_strlit("April");
        reveal_strlit("May");
        reveal_strlit("June");
        reveal_strlit("July");
        reveal_strlit("August");
        reveal_strlit("September");
        reveal_strlit("October");
        reveal_strlit("November");
        reveal_strlit("December");
        reveal_strlit("Jan");
        reveal_strlit("Feb");
        reveal_strlit("Mar");
        reveal_strlit("Apr");
        reveal_strlit("Jun");
        reveal_strlit("Jul");
        reveal_strlit("Aug");
        reveal_strlit("Sep");
        reveal_strlit("Oct");
        reveal_strlit("Nov");
        reveal_strlit("Dec");
        assert(r@ =~= spec_month_abbrev(m as int));
    }
    r
}

/// The three-letter English weekday name, 0 being Sunday.
pub open spec fn spec_weekday_abbrev(w: int) -> Seq<char> {
    if w == 0 {
        "Sun"@
    } else if w == 1 {
        "Mon"@
    } else if w == 2 {
        "Tue"@
    } else if w == 3 {
        "Wed"@
    } else if w == 4 {
        "Thu"@
    } else if w == 5 {
        "Fri"@
    } else {
        "Sat"@
    }
}

fn weekday_abbrev(w: u32) -> (r: &'static str)
    requires
        w < 7,
    ensures
        r@ == spec_weekday_abbrev(w as int),
{
    if w == 0 {
        "Sun"
    } else if w == 1 {
        "Mon"
    } else if w == 2 {
        "Tue"
    } else if w == 3 {
        "Wed"
    } else if w == 4 {
        "Thu"
    } else if w == 5 {
        "Fri"
    } else {
        "Sat"
    }
}

/// The decimal digit character of a value below ten.
pub open spec fn spec_digit_char(d: int) -> char {
    if d == 0 {
        '0'
    } else if d == 1 {
        '1'
    } else if d == 2 {
        '2'
    } else if d == 3 {
        '3'
    } else if d == 4 {
        '4'
    } else if d == 5 {
        '5'
    } else if d == 6 {
        '6'
    } else if d == 7 {
        '7'
    } else if d == 8 {
        '8'
    } else {
        '9'
    }
}

pub fn exec_digit_char(d: u32) -> (r: char)
    requires
        d < 10,
    ensures
        r == spec_digit_char(d as int),
{
    if d == 0 {
        '0'
    } else if d == 1 {
        '1'
    } else if d == 2 {
        '2'
    } else if d == 3 {
        '3'
    } else if d == 4 {
        '4'
    } else if d == 5 {
        '5'
    } else if d == 6 {
        '6'
    } else if d == 7 {
        '7'
    } else if d == 8 {
        '8'
    } else {
        '9'
    }
}

/// A value below 100 as two decimal digits.
pub open spec fn spec_pad2(n: int) -> Seq<char> {
    seq![spec_digit_char(n / 10), spec_digit_char(n % 10)]
}

pub fn push_pad2(out: &mut Vec<char>, n: u32)
    requires
        n < 100,
    ensures
        final(out)@ == old(out)@ + spec_pad2(n as int),
{
    out.push(exec_digit_char(n / 10));
    out.push(exec_digit_char(n % 10));
    proof {
        assert(out@ =~= old(out)@ + spec_pad2(n as int));
    }
}

/// A value below 10000 as four decimal digits.
pub open spec fn spec_pad4(n: int) -> Seq<char> {
    seq![
        spec_digit_char(n / 1000),
        spec_digit_char((n / 100) % 10),
        spec_digit_char((n / 10) % 10),
        spec_digit_char(n % 10),
    ]
}

pub fn push_pad4(out: &mut Vec<char>, n: u32)
    requires
        n < 10000,
    ensures
        final(out)@ == old(out)@ + spec_pad4(n as int),
{
    out.push(exec_digit_char(n / 1000));
    out.push(exec_digit_char((n / 100) % 10));
    out.push(exec_digit_char((n / 10) % 10));
    out.push(exec_digit_char(n % 10));
    proof {
        assert(out@ =~= old(out)@ + spec_pad4(n as int));
    }
}

/// A day of month rendered space-padded to two characters.
pub open spec fn spec_day_space_padded(d: int) -> Seq<char> {
    if d < 10 {
        seq![' ', spec_digit_char(d)]
    } else {
        spec_pad2(d)
    }
}

/// The display rendering of a date: the month's full name, the day of
/// month space-padded to two characters, a comma, and the four-digit year.
pub open spec fn spec_display_date(y: int, m: int, d: int) -> Seq<char> {
    spec_month_name(m) + " "@ + spec_day_space_padded(d) + ", "@ + spec_pad4(y)
}

/// Renders a valid date for display.
pub fn format_display_date(y: u32, m: u32, d: u32) -> (r: String)
    requires
        date_valid(y as int, m as int, d as int),
    ensures
        r@ == spec_display_date(y as int, m as int, d as int),
{
    let mut out: Vec<char> = Vec::new();
    push_str_chars(&mut out, month_name(m));
    push_str_chars(&mut out, " ");
    if d < 10 {
        out.push(' ');
        out.push(exec_digit_char(d));
    } else {
        push_pad2(&mut out, d);
    }
    push_str_chars(&mut out, ", ");
    push_pad4(&mut out, y);
    let r = string_from_chars(&out);
    proof {
        assert(r@ =~= spec_display_date(y as int, m as int, d as int));
    }
    r
}

/// The RFC-822 rendering of midnight UTC on a valid date, as an RSS
/// `pubDate` carries it. The day of month is written without padding, one
/// digit for the first nine days.
pub open spec fn spec_rfc2822_midnight(y: int, m: int, d: int) -> Seq<char> {
    spec_weekday_abbrev(weekday_of(y, m, d)) + ", "@ + dec_u(d as nat) + " "@ + spec_month_abbrev(
        m,
    ) + " "@ + spec_pad4(y) + " 00:00:00 +0000"@
}

/// Renders midnight UTC on a valid date in RFC-822 form.
pub fn format_rfc2822_midnight(y: u32, m: u32, d: u32) -> (r: String)
    requires
        date_valid(y as int, m as int, d as int),
    ensures
        r@ == spec_rfc2822_midnight(y as int, m as int, d as int),
{
    let w = weekday(y, m, d);
    let mut out: Vec<char> = Vec::new();
    push_str_chars(&mut out, weekday_abbrev(w));
    push_str_chars(&mut out, ", ");
    push_dec_u(&mut out, d as u64);
    push_str_chars(&mut out, " ");
    push_str_chars(&mut out, month_abbrev(m));
    push_str_chars(&mut out, " ");
    push_pad4(&mut out, y);
    push_str_chars(&mut out, " 00:00:00 +0000");
    let r = string_from_chars(&out);
    proof {
        assert(r@ =~= spec_rfc2822_midnight(y as int, m as int, d as int));
    }
    r
}

/// The end of the maximal digit run starting at `i`.
pub open spec fn digit_run_end(s: Seq<char>, i: int) -> int
    decreases s.len() - i,
{
    if 0 <= i < s.len() && is_digit(s[i]) {
        digit_run_end(s, i + 1)
    } else {
        i
    }
}

/// A two-digit number at position `i`.
pub open spec fn two_digits_at(s: Seq<char>, i: int) -> Option<int> {
    if 0 <= i && i + 2 <= s.len() && is_digit(s[i]) && is_digit(s[i + 1]) {
        Some(digit_val(s[i]) * 10 + digit_val(s[i + 1]))
    } else {
        None
    }
}

/// A numeric timezone designator fills the rest of the text from `i`:
/// `Z`, `z`, or a sign followed by a two-digit hour, a colon and a
/// two-digit minute.
pub open spec fn zone_fills_rest(s: Seq<char>, i: int) -> bool {
    (i + 1 == s.len() && (s[i] == 'Z' || s[i] == 'z')) || (i + 6 == s.len() && (s[i] == '+' || s[i]
        == '-') && match (two_digits_at(s, i + 1), two_digits_at(s, i + 4)) {
        (Some(h), Some(m)) => s[i + 3] == ':' && h <= 23 && m <= 59,
        _ => false,
    })
}

/// The date fields of an RFC-3339 timestamp: a valid calendar date, `T`,
/// a valid time of day (a leap second allowed), an optional fraction, and
/// a timezone designator; `None` when the text has any other shape.
pub open spec fn rfc3339_date_of(s: Seq<char>) -> Option<(int, int, int)> {
    if s.len() >= 20 && (s[10] == 'T' || s[10] == 't') && s[13] == ':' && s[16] == ':' {
        match (
            iso_date_of(s.subrange(0, 10)),
            two_digits_at(s, 11),
            two_digits_at(s, 14),
            two_digits_at(s, 17),
        ) {
            (Some(ymd), Some(hh), Some(mi), Some(ss)) => {
                if hh <= 23 && mi <= 59 && ss <= 60 {
                    let z = if s.len() > 19 && s[19] == '.' {
                        let e = digit_run_end(s, 20);
                        if e > 20 {
                            zone_fills_rest(s, e)
                        } else {
                            false
                        }
                    } else {
                        zone_fills_rest(s, 19)
                    };
                    if z {
                        Some(ymd)
                    } else {
                        None
                    }
                } else {
                    None
                }
            },
            _ => None,
        }
    } else {
        None
    }
}

fn two_digits_x(t: &Vec<char>, i: usize) -> (r: Option<u32>)
    ensures
        match r {
            Some(v) => two_digits_at(t@, i as int) == Some(v as int) && v <= 99,
            None => two_digits_at(t@, i as int) is None,
        },
{
    let n = t.len();
    if !(i < n && n - i >= 2) {
        return None;
    }
    match (digit_of(t[i]), digit_of(t[i + 1])) {
        (Some(a), Some(b)) => Some(a * 10 + b),
        _ => None,
    }
}

pub fn digit_run_end_vec(t: &Vec<char>, i: usize) -> (e: usize)
    requires
        i <= t@.len(),
    ensures
        e == digit_run_end(t@, i as int),
        i <= e <= t@.len(),
{
    let n = t.len();
    let mut k: usize = i;
    while k < n && digit_of(t[k]).is_some()
        invariant
            i <= k <= n,
            n == t@.len(),
            digit_run_end(t@, i as int) == digit_run_end(t@, k as int),
        decreases n - k,
    {
        proof {
            assert(digit_run_end(t@, k as int) == digit_run_end(t@, k + 1));
        }
        k += 1;
    }
    proof {
        assert(digit_run_end(t@, k as int) == k as int);
    }
    k
}

/// Reads the date fields of an RFC-3339 timestamp.
pub fn parse_rfc3339_date(s: &str) -> (r: Option<(u32, u32, u32)>)
    ensures
        match r {
            Some(ymd) => rfc3339_date_of(s@) == Some((ymd.0 as int, ymd.1 as int, ymd.2 as int)),
            None => rfc3339_date_of(s@) is None,
        },
{
    let t = crate::text::chars_of(s);
    let n = t.len();
    if n < 20 {
        return None;
    }
    if !((t[10] == 'T' || t[10] == 't') && t[13] == ':' && t[16] == ':') {
        return None;
    }
    let datepart = crate::text::sub_chars(&t, 0, 10);
    let datestr = string_from_chars(&datepart);
    let ymd = match parse_iso_date(datestr.as_str()) {
        Some(v) => v,
        None => {
            return None;
        },
    };
    let hh = two_digits_x(&t, 11);
    let mi = two_digits_x(&t, 14);
    let ss = two_digits_x(&t, 17);
    match (hh, mi, ss) {
        (Some(h), Some(m), Some(x)) => {
            if !(h <= 23 && m <= 59 && x <= 60) {
                return None;
            }
            let zone_ok: bool = if t[19] == '.' {
                let e = digit_run_end_vec(&t, 20);
                if e > 20 {
                    zone_rest_x(&t, e)
                } else {
                    false
                }
            } else {
                zone_rest_x(&t, 19)
            };
            if zone_ok {
                Some(ymd)
            } else {
                None
            }
        },
        _ => None,
    }
}

fn zone_rest_x(t: &Vec<char>, i: usize) -> (r: bool)
    requires
        i <= t@.len(),
    ensures
        r == zone_fills_rest(t@, i as int),
{
    let n = t.len();
    if i < n && i + 1 == n && (t[i] == 'Z' || t[i] == 'z') {
        return true;
    }
    if i < n && n - i == 6 && (t[i] == '+' || t[i] == '-') {
        let h = two_digits_x(t, i + 1);
        let m = two_digits_x(t, i + 4);
        match (h, m) {
            (Some(hv), Some(mv)) => t[i + 3] == ':' && hv <= 23 && mv <= 59,
            _ => false,
        }
    } else {
        proof {
            if i < n && i + 1 == n {
                assert(!(t@[i as int] == 'Z' || t@[i as int] == 'z'));
            }
        }
        false
    }
}

/// An ISO date that parses is a valid calendar date.
pub proof fn lemma_iso_date_valid(s: Seq<char>)
    ensures
        match iso_date_of(s) {
            Some(ymd) => date_valid(ymd.0, ymd.1, ymd.2),
            None => true,
        },
{
}

/// An RFC-3339 timestamp's date fields form a valid calendar date.
pub proof fn lemma_rfc3339_date_valid(s: Seq<char>)
    ensures
        match rfc3339_date_of(s) {
            Some(ymd) => date_valid(ymd.0, ymd.1, ymd.2),
            None => true,
        },
{
    if rfc3339_date_of(s) is Some {
        lemma_iso_date_valid(s.subrange(0, 10));
    }
}

/// The decimal rendering of a non-negative number.
pub open spec fn dec_u(n: nat) -> Seq<char>
    decreases n,
{
    if n < 10 {
        seq![spec_digit_char(n as int)]
    } else {
        dec_u(n / 10) + seq![spec_digit_char((n % 10) as int)]
    }
}

/// The decimal rendering of an integer: a minus sign before the magnitude
/// when negative.
pub open spec fn dec_i(n: int) -> Seq<char> {
    if n < 0 {
        seq!['-'] + dec_u((-n) as nat)
    } else {
        dec_u(n as nat)
    }
}

fn push_dec_u(out: &mut Vec<char>, n: u64)
    ensures
        final(out)@ == old(out)@ + dec_u(n as nat),
    decreases n,
{
    if n < 10 {
        out.push(exec_digit_char(n as u32));
        proof {
            assert(out@ =~= old(out)@ + dec_u(n as nat));
        }
    } else {
        push_dec_u(out, n / 10);
        out.push(exec_digit_char((n % 10) as u32));
        proof {
            assert(out@ =~= old(out)@ + dec_u(n as nat));
        }
    }
}

/// The decimal rendering of a 64-bit integer.
pub fn i64_to_string(n: i64) -> (r: String)
    ensures
        r@ == dec_i(n as int),
{
    let mut out: Vec<char> = Vec::new();
    if n < 0 {
        out.push('-');
        let mag: u64 = ((-(n + 1)) as u64) + 1;
        proof {
            assert(mag as int == -(n as int));
        }
        push_dec_u(&mut out, mag);
        proof {
            assert(out@ =~= dec_i(n as int));
        }
    } else {
        push_dec_u(&mut out, n as u64);
    }
    string_from_chars(&out)
}

} // verus!
