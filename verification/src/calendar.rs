//! A proleptic Gregorian calendar over seconds since the Unix epoch.
//!
//! Instants are plain `u64` second counts.  Formatting renders an instant
//! as `YYYY-MM-DDTHH:MM:SSZ` (or the `YYYY-MM-DD` date prefix); parsing
//! reads those shapes back.  Formatting is defined for instants up to
//! `MAX_FMT_EPOCH` (a bound that keeps the derived year within four
//! digits); parsing accepts years 1970 through 2199, a window that keeps
//! every parsed instant far below that bound.
use crate::text::{digit_char, digit_check, digit_val, digit_value, four_digits, is_digit,
    push_four_digits, push_two_digits, two_digits};
use vstd::prelude::*;

verus! {

/// Largest day number (days since 1970-01-01) accepted by `civil_from_days`:
/// 365 * 8029, which bounds the derived year by 9999.
pub const MAX_FMT_DAY: u64 = 2930585;

/// Largest instant accepted by `format_datetime`: the last second of day
/// `MAX_FMT_DAY`, i.e. 2930585 * 86400 + 86399.
pub const MAX_FMT_EPOCH: u64 = 253202630399;

/// Every instant parsed back from a timestamp (years 1970..=2199) is at
/// most this: 86400 * 84185 + 86399.
pub const MAX_RANGE_EPOCH: u64 = 7273670399;

/// A year divisible by four is a leap year, except century years not
/// divisible by four hundred.
pub open spec fn is_leap_year(y: int) -> bool {
    y % 4 == 0 && (y % 100 != 0 || y % 400 == 0)
}

pub open spec fn days_in_year(y: int) -> int {
    if is_leap_year(y) {
        366
    } else {
        365
    }
}

pub open spec fn days_in_month(y: int, m: int) -> int {
    if m == 2 {
        if is_leap_year(y) {
            29
        } else {
            28
        }
    } else if m == 4 || m == 6 || m == 9 || m == 11 {
        30
    } else {
        31
    }
}

/// Splits a day count into (year, day of year), counting years up from `y`.
pub open spec fn year_split(d: int, y: int) -> (int, int)
    decreases d,
{
    if d < 0 || d < days_in_year(y) {
        (y, d)
    } else {
        year_split(d - days_in_year(y), y + 1)
    }
}

/// Splits a day of year into (month, day of month counted from zero),
/// counting months up from `m`; month twelve absorbs any remainder.
pub open spec fn month_split(doy: int, y: int, m: int) -> (int, int)
    decreases doy,
{
    if doy < 0 || doy < days_in_month(y, m) || m >= 12 {
        (m, doy)
    } else {
        month_split(doy - days_in_month(y, m), y, m + 1)
    }
}

/// The civil date (year, month, day of month) of a day number.
pub open spec fn civil_of_day(d: int) -> (int, int, int) {
    let ys = year_split(d, 1970);
    let ms = month_split(ys.1, ys.0, 1);
    (ys.0, ms.0, ms.1 + 1)
}

/// An instant rendered as `YYYY-MM-DDTHH:MM:SSZ`.
pub open spec fn datetime_chars(e: int) -> Seq<char> {
    let c = civil_of_day(e / 86400);
    four_digits(c.0) + seq!['-'] + two_digits(c.1) + seq!['-'] + two_digits(c.2) + seq!['T']
        + two_digits(e % 86400 / 3600) + seq![':'] + two_digits(e % 86400 % 3600 / 60) + seq![':']
        + two_digits(e % 86400 % 60) + seq!['Z']
}

/// An instant's date rendered as `YYYY-MM-DD`.
pub open spec fn date_chars(e: int) -> Seq<char> {
    let c = civil_of_day(e / 86400);
    four_digits(c.0) + seq!['-'] + two_digits(c.1) + seq!['-'] + two_digits(c.2)
}

fn leap_year(y: u64) -> (r: bool)
    ensures
        r == is_leap_year(y as int),
{
    y % 4 == 0 && (y % 100 != 0 || y % 400 == 0)
}

fn year_days(y: u64) -> (r: u64)
    ensures
        r as int == days_in_year(y as int),
{
    if leap_year(y) {
        366
    } else {
        365
    }
}

fn month_days(y: u64, m: u64) -> (r: u64)
    ensures
        r as int == days_in_month(y as int, m as int),
{
    if m == 2 {
        if leap_year(y) {
            29
        } else {
            28
        }
    } else if m == 4 || m == 6 || m == 9 || m == 11 {
        30
    } else {
        31
    }
}

/// The civil date of a day number, by peeling whole years and then whole
/// months off the day count.
pub fn civil_from_days(d0: u64) -> (r: (u64, u64, u64))
    requires
        d0 <= MAX_FMT_DAY,
    ensures
        (r.0 as int, r.1 as int, r.2 as int) == civil_of_day(d0 as int),
        1970 <= r.0 <= 9999,
        1 <= r.1 <= 12,
        1 <= r.2 <= 58,
{
    let mut y: u64 = 1970;
    let mut rem: u64 = d0;
    while rem >= year_days(y)
        invariant
            1970 <= y,
            rem <= d0 <= MAX_FMT_DAY,
            365 * (y - 1970) <= d0 - rem,
            year_split(d0 as int, 1970) == year_split(rem as int, y as int),
        decreases rem,
    {
        let dy = year_days(y);
        assert(year_split(rem as int, y as int) == year_split(rem - dy, y + 1));
        rem = rem - dy;
        y = y + 1;
    }
    assert(y <= 9999) by {
        assert(365 * (y - 1970) <= MAX_FMT_DAY);
    }
    assert(year_split(d0 as int, 1970) == (y as int, rem as int));
    let doy = rem;
    let mut m: u64 = 1;
    while m < 12 && rem >= month_days(y, m)
        invariant
            1 <= m <= 12,
            rem <= doy < 366,
            28 * (m - 1) <= doy - rem,
            month_split(doy as int, y as int, 1) == month_split(rem as int, y as int, m as int),
        decreases 12 - m,
    {
        let dm = month_days(y, m);
        assert(month_split(rem as int, y as int, m as int) == month_split(
            rem - dm,
            y as int,
            m + 1,
        ));
        rem = rem - dm;
        m = m + 1;
    }
    assert(month_split(doy as int, y as int, 1) == (m as int, rem as int));
    (y, m, rem + 1)
}

/// Renders an instant as `YYYY-MM-DDTHH:MM:SSZ`.
pub fn format_datetime(e: u64) -> (r: String)
    requires
        e <= MAX_FMT_EPOCH,
    ensures
        r@ == datetime_chars(e as int),
        r@.len() == 20,
{
    proof {
        reveal_strlit("-");
        reveal_strlit("T");
        reveal_strlit(":");
        reveal_strlit("Z");
    }
    let day = e / 86400;
    let sod = e % 86400;
    let (y, mo, dm) = civil_from_days(day);
    let mut s = String::new();
    push_four_digits(&mut s, y);
    s.append("-");
    push_two_digits(&mut s, mo);
    s.append("-");
    push_two_digits(&mut s, dm);
    s.append("T");
    push_two_digits(&mut s, sod / 3600);
    s.append(":");
    push_two_digits(&mut s, sod % 3600 / 60);
    s.append(":");
    push_two_digits(&mut s, sod % 60);
    s.append("Z");
    proof {
        assert(s@ =~= datetime_chars(e as int));
    }
    s
}

/// Renders an instant's date as `YYYY-MM-DD`.
pub fn format_date(e: u64) -> (r: String)
    requires
        e <= MAX_FMT_EPOCH,
    ensures
        r@ == date_chars(e as int),
        r@.len() == 10,
{
    proof {
        reveal_strlit("-");
    }
    let day = e / 86400;
    let (y, mo, dm) = civil_from_days(day);
    let mut s = String::new();
    push_four_digits(&mut s, y);
    s.append("-");
    push_two_digits(&mut s, mo);
    s.append("-");
    push_two_digits(&mut s, dm);
    proof {
        assert(s@ =~= date_chars(e as int));
    }
    s
}

/// Total days of the years `a .. y`.
pub open spec fn years_range(a: int, y: int) -> int
    decreases y - a,
{
    if y <= a {
        0
    } else {
        years_range(a, y - 1) + days_in_year(y - 1)
    }
}

/// Total days of the months `1 .. m` of year `y`.
pub open spec fn months_range(y: int, m: int) -> int
    decreases m,
{
    if m <= 1 {
        0
    } else {
        months_range(y, m - 1) + days_in_month(y, m - 1)
    }
}

/// The day number (days since 1970-01-01) of a civil date.
pub open spec fn day_of_civil(y: int, m: int, d: int) -> int {
    years_range(1970, y) + months_range(y, m) + (d - 1)
}

/// A civil date that a timestamp may denote: within the supported year
/// window, with a month and day that exist.
pub open spec fn valid_civil(y: int, m: int, d: int) -> bool {
    1970 <= y <= 2199 && 1 <= m <= 12 && 1 <= d <= days_in_month(y, m)
}

pub open spec fn chars_year(s: Seq<char>) -> int {
    1000 * digit_val(s[0]) + 100 * digit_val(s[1]) + 10 * digit_val(s[2]) + digit_val(s[3])
}

pub open spec fn chars_month(s: Seq<char>) -> int {
    10 * digit_val(s[5]) + digit_val(s[6])
}

pub open spec fn chars_dom(s: Seq<char>) -> int {
    10 * digit_val(s[8]) + digit_val(s[9])
}

pub open spec fn chars_hour(s: Seq<char>) -> int {
    10 * digit_val(s[11]) + digit_val(s[12])
}

pub open spec fn chars_minute(s: Seq<char>) -> int {
    10 * digit_val(s[14]) + digit_val(s[15])
}

pub open spec fn chars_second(s: Seq<char>) -> int {
    10 * digit_val(s[17]) + digit_val(s[18])
}

/// The first ten characters have the shape `YYYY-MM-DD`.
pub open spec fn date_shape(s: Seq<char>) -> bool {
    s.len() >= 10 && is_digit(s[0]) && is_digit(s[1]) && is_digit(s[2]) && is_digit(s[3]) && s[4]
        == '-' && is_digit(s[5]) && is_digit(s[6]) && s[7] == '-' && is_digit(s[8]) && is_digit(
        s[9],
    )
}

/// The first ten characters denote a date of the supported window.
pub open spec fn valid_date_prefix(s: Seq<char>) -> bool {
    date_shape(s) && valid_civil(chars_year(s), chars_month(s), chars_dom(s))
}

/// The instant at midnight of the date the first ten characters denote.
pub open spec fn date_value(s: Seq<char>) -> int {
    86400 * day_of_civil(chars_year(s), chars_month(s), chars_dom(s))
}

/// The whole string denotes an instant, `YYYY-MM-DDTHH:MM:SSZ`, of the
/// supported window.
pub open spec fn valid_datetime_chars(s: Seq<char>) -> bool {
    s.len() == 20 && valid_date_prefix(s) && s[10] == 'T' && is_digit(s[11]) && is_digit(s[12])
        && s[13] == ':' && is_digit(s[14]) && is_digit(s[15]) && s[16] == ':' && is_digit(s[17])
        && is_digit(s[18]) && s[19] == 'Z' && chars_hour(s) <= 23 && chars_minute(s) <= 59
        && chars_second(s) <= 59
}

/// The instant a `YYYY-MM-DDTHH:MM:SSZ` string denotes.
pub open spec fn datetime_value(s: Seq<char>) -> int {
    date_value(s) + 3600 * chars_hour(s) + 60 * chars_minute(s) + chars_second(s)
}

/// The day number of a civil date, by summing whole years and then whole
/// months.
pub fn days_from_civil(y: u64, m: u64, d: u64) -> (r: u64)
    requires
        valid_civil(y as int, m as int, d as int),
    ensures
        r as int == day_of_civil(y as int, m as int, d as int),
        r <= 84185,
{
    let mut acc: u64 = 0;
    let mut yy: u64 = 1970;
    while yy < y
        invariant
            1970 <= yy <= y <= 2199,
            acc == years_range(1970, yy as int),
            acc <= 366 * (yy - 1970),
        decreases y - yy,
    {
        acc = acc + year_days(yy);
        yy = yy + 1;
    }
    let mut macc: u64 = 0;
    let mut mm: u64 = 1;
    while mm < m
        invariant
            1 <= mm <= m <= 12,
            macc == months_range(y as int, mm as int),
            macc <= 31 * (mm - 1),
        decreases m - mm,
    {
        macc = macc + month_days(y, mm);
        mm = mm + 1;
    }
    acc + macc + (d - 1)
}

proof fn lemma_years_range_nonneg(a: int, y: int)
    ensures
        years_range(a, y) >= 0,
    decreases y - a,
{
    if y > a {
        lemma_years_range_nonneg(a, y - 1);
    }
}

proof fn lemma_years_range_lo(a: int, y: int)
    requires
        a < y,
    ensures
        years_range(a, y) == days_in_year(a) + years_range(a + 1, y),
    decreases y - a,
{
    if y > a + 1 {
        lemma_years_range_lo(a, y - 1);
    } else {
        assert(years_range(a, a) == 0);
        assert(years_range(a + 1, y) == 0);
    }
}

proof fn lemma_year_split_of_range(a: int, y: int, doy: int)
    requires
        a <= y,
        0 <= doy < days_in_year(y),
    ensures
        year_split(years_range(a, y) + doy, a) == (y, doy),
    decreases y - a,
{
    if a < y {
        lemma_years_range_lo(a, y);
        lemma_years_range_nonneg(a + 1, y);
        lemma_year_split_of_range(a + 1, y, doy);
    }
}

proof fn lemma_months_range_nonneg(y: int, m: int)
    ensures
        months_range(y, m) >= 0,
    decreases m,
{
    if m > 1 {
        lemma_months_range_nonneg(y, m - 1);
    }
}

proof fn lemma_months_range_mono(y: int, a: int, b: int)
    requires
        a <= b,
    ensures
        months_range(y, a) <= months_range(y, b),
    decreases b - a,
{
    if a < b {
        lemma_months_range_mono(y, a, b - 1);
    }
}

proof fn lemma_month_split_of_range(y: int, a: int, m: int, dom: int)
    requires
        1 <= a <= m <= 12,
        0 <= dom < days_in_month(y, m),
    ensures
        month_split(months_range(y, m) - months_range(y, a) + dom, y, a) == (m, dom),
    decreases m - a,
{
    if a < m {
        assert(months_range(y, a + 1) == months_range(y, a) + days_in_month(y, a));
        lemma_months_range_mono(y, a + 1, m);
        lemma_month_split_of_range(y, a + 1, m, dom);
    }
}

proof fn lemma_digit_round(c: char)
    requires
        is_digit(c),
    ensures
        digit_char(digit_val(c)) == c,
{
    assert('0' as int == 48 && '1' as int == 49 && '2' as int == 50 && '3' as int == 51 && '4'
        as int == 52 && '5' as int == 53 && '6' as int == 54 && '7' as int == 55 && '8' as int == 56
        && '9' as int == 57);
}

proof fn lemma_civil_round(y: int, m: int, d: int)
    requires
        valid_civil(y, m, d),
    ensures
        0 <= day_of_civil(y, m, d),
        months_range(y, m) + (d - 1) < days_in_year(y),
        civil_of_day(day_of_civil(y, m, d)) == (y, m, d),
{
    let doy = months_range(y, m) + (d - 1);
    assert(months_range(y, 13) == days_in_year(y)) by {
        reveal_with_fuel(months_range, 13);
    }
    assert(months_range(y, m + 1) == months_range(y, m) + days_in_month(y, m));
    lemma_months_range_mono(y, m + 1, 13);
    lemma_months_range_nonneg(y, m);
    lemma_years_range_nonneg(1970, y);
    lemma_year_split_of_range(1970, y, doy);
    lemma_month_split_of_range(y, 1, m, d - 1);
}

/// Formatting undoes parsing: every string that denotes an instant is
/// the rendering of that instant, character for character.
pub proof fn lemma_datetime_round_trip(s: Seq<char>)
    requires
        valid_datetime_chars(s),
    ensures
        datetime_chars(datetime_value(s)) == s,
{
    let y = chars_year(s);
    let mo = chars_month(s);
    let dm = chars_dom(s);
    let h = chars_hour(s);
    let mi = chars_minute(s);
    let sec = chars_second(s);
    lemma_civil_round(y, mo, dm);
    let d = day_of_civil(y, mo, dm);
    let e = datetime_value(s);
    assert(e == 86400 * d + 3600 * h + 60 * mi + sec);
    assert(e / 86400 == d && e % 86400 == 3600 * h + 60 * mi + sec) by {
        assert(0 <= 3600 * h + 60 * mi + sec < 86400);
    }
    assert(e % 86400 / 3600 == h && e % 86400 % 3600 == 60 * mi + sec) by {
        assert(0 <= 60 * mi + sec < 3600);
    }
    assert(e % 86400 % 3600 / 60 == mi);
    assert(e % 86400 % 60 == sec) by {
        assert((3600 * h + 60 * mi + sec) % 60 == sec);
    }
    lemma_digit_round(s[0]);
    lemma_digit_round(s[1]);
    lemma_digit_round(s[2]);
    lemma_digit_round(s[3]);
    lemma_digit_round(s[5]);
    lemma_digit_round(s[6]);
    lemma_digit_round(s[8]);
    lemma_digit_round(s[9]);
    lemma_digit_round(s[11]);
    lemma_digit_round(s[12]);
    lemma_digit_round(s[14]);
    lemma_digit_round(s[15]);
    lemma_digit_round(s[17]);
    lemma_digit_round(s[18]);
    assert(y / 1000 == digit_val(s[0]) && y / 1000 % 10 == digit_val(s[0]));
    assert(y / 100 % 10 == digit_val(s[1]));
    assert(y / 10 % 10 == digit_val(s[2]));
    assert(y % 10 == digit_val(s[3]));
    assert(mo / 10 == digit_val(s[5]) && mo % 10 == digit_val(s[6]));
    assert(dm / 10 == digit_val(s[8]) && dm % 10 == digit_val(s[9]));
    assert(h / 10 == digit_val(s[11]) && h % 10 == digit_val(s[12]));
    assert(mi / 10 == digit_val(s[14]) && mi % 10 == digit_val(s[15]));
    assert(sec / 10 == digit_val(s[17]) && sec % 10 == digit_val(s[18]));
    assert(datetime_chars(e) =~= s);
}

/// The date rendering undoes date parsing on the ten-character prefix.
pub proof fn lemma_date_round_trip(s: Seq<char>)
    requires
        valid_date_prefix(s),
    ensures
        date_chars(date_value(s)) == s.take(10),
{
    let y = chars_year(s);
    let mo = chars_month(s);
    let dm = chars_dom(s);
    lemma_civil_round(y, mo, dm);
    let d = day_of_civil(y, mo, dm);
    let e = date_value(s);
    assert(e / 86400 == d);
    lemma_digit_round(s[0]);
    lemma_digit_round(s[1]);
    lemma_digit_round(s[2]);
    lemma_digit_round(s[3]);
    lemma_digit_round(s[5]);
    lemma_digit_round(s[6]);
    lemma_digit_round(s[8]);
    lemma_digit_round(s[9]);
    assert(y / 1000 == digit_val(s[0]) && y / 1000 % 10 == digit_val(s[0]));
    assert(y / 100 % 10 == digit_val(s[1]));
    assert(y / 10 % 10 == digit_val(s[2]));
    assert(y % 10 == digit_val(s[3]));
    assert(mo / 10 == digit_val(s[5]) && mo % 10 == digit_val(s[6]));
    assert(dm / 10 == digit_val(s[8]) && dm % 10 == digit_val(s[9]));
    assert(date_chars(e) =~= s.take(10));
}

/// Reads a `YYYY-MM-DDTHH:MM:SSZ` timestamp; `None` for anything else.
pub fn parse_datetime(s: &str) -> (r: Option<u64>)
    ensures
        match r {
            Some(e) => valid_datetime_chars(s@) && e as int == datetime_value(s@) && e
                <= MAX_RANGE_EPOCH,
            None => !valid_datetime_chars(s@),
        },
{
    if s.unicode_len() != 20 {
        return None;
    }
    let c0 = s.get_char(0);
    let c1 = s.get_char(1);
    let c2 = s.get_char(2);
    let c3 = s.get_char(3);
    let c5 = s.get_char(5);
    let c6 = s.get_char(6);
    let c8 = s.get_char(8);
    let c9 = s.get_char(9);
    let c11 = s.get_char(11);
    let c12 = s.get_char(12);
    let c14 = s.get_char(14);
    let c15 = s.get_char(15);
    let c17 = s.get_char(17);
    let c18 = s.get_char(18);
    if !(digit_check(c0) && digit_check(c1) && digit_check(c2) && digit_check(c3) && digit_check(c5)
        && digit_check(c6) && digit_check(c8) && digit_check(c9) && digit_check(c11)
        && digit_check(c12) && digit_check(c14) && digit_check(c15) && digit_check(c17)
        && digit_check(c18)) {
        return None;
    }
    if !(s.get_char(4) == '-' && s.get_char(7) == '-' && s.get_char(10) == 'T' && s.get_char(13)
        == ':' && s.get_char(16) == ':' && s.get_char(19) == 'Z') {
        return None;
    }
    let y = 1000 * digit_value(c0) + 100 * digit_value(c1) + 10 * digit_value(c2) + digit_value(c3);
    let mo = 10 * digit_value(c5) + digit_value(c6);
    let dm = 10 * digit_value(c8) + digit_value(c9);
    let hh = 10 * digit_value(c11) + digit_value(c12);
    let mi = 10 * digit_value(c14) + digit_value(c15);
    let ss = 10 * digit_value(c17) + digit_value(c18);
    if !(1970 <= y && y <= 2199 && 1 <= mo && mo <= 12 && 1 <= dm && dm <= month_days(y, mo) && hh
        <= 23 && mi <= 59 && ss <= 59) {
        return None;
    }
    let days = days_from_civil(y, mo, dm);
    Some(86400 * days + 3600 * hh + 60 * mi + ss)
}

/// Reads the `YYYY-MM-DD` prefix of a timestamp as the instant at its
/// midnight; `None` when the prefix has another shape.
pub fn parse_date_prefix(s: &str) -> (r: Option<u64>)
    ensures
        match r {
            Some(e) => valid_date_prefix(s@) && e as int == date_value(s@) && e <= MAX_RANGE_EPOCH,
            None => !valid_date_prefix(s@),
        },
{
    if s.unicode_len() < 10 {
        return None;
    }
    let c0 = s.get_char(0);
    let c1 = s.get_char(1);
    let c2 = s.get_char(2);
    let c3 = s.get_char(3);
    let c5 = s.get_char(5);
    let c6 = s.get_char(6);
    let c8 = s.get_char(8);
    let c9 = s.get_char(9);
    if !(digit_check(c0) && digit_check(c1) && digit_check(c2) && digit_check(c3) && digit_check(c5)
        && digit_check(c6) && digit_check(c8) && digit_check(c9)) {
        return None;
    }
    if !(s.get_char(4) == '-' && s.get_char(7) == '-') {
        return None;
    }
    let y = 1000 * digit_value(c0) + 100 * digit_value(c1) + 10 * digit_value(c2) + digit_value(c3);
    let mo = 10 * digit_value(c5) + digit_value(c6);
    let dm = 10 * digit_value(c8) + digit_value(c9);
    if !(1970 <= y && y <= 2199 && 1 <= mo && mo <= 12 && 1 <= dm && dm <= month_days(y, mo)) {
        return None;
    }
    let days = days_from_civil(y, mo, dm);
    Some(86400 * days)
}

} // verus!
