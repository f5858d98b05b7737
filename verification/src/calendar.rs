//! Dates, times and durations as text.
use vstd::prelude::*;
use vstd::utf8::*;

use crate::number::{
    dec, digits_value, lemma_digits_order, lemma_padded, padded, parse_number, parse_up_to,
    push_dec, push_padded, unsigned_part,
};
use crate::text::{smaller_from, sorts_before};
use crate::url::byte_chars;

verus! {

// ---------------------------------------------------------------------------
// The calendar
// ---------------------------------------------------------------------------

/// Leap years of the Gregorian calendar.
pub open spec fn is_leap(y: nat) -> bool {
    y % 4 == 0 && (y % 100 != 0 || y % 400 == 0)
}

/// The number of days of a year.
pub open spec fn year_days(y: nat) -> nat {
    if is_leap(y) {
        366
    } else {
        365
    }
}

/// The number of days of a month, counted from 1.
pub open spec fn month_days(y: nat, m: nat) -> nat {
    if m == 2 {
        if is_leap(y) {
            29
        } else {
            28
        }
    } else if m == 4 || m == 6 || m == 9 || m == 11 {
        30
    } else {
        31
    }
}

/// The days from the beginning of 1970 to the beginning of a year; none for a
/// year before that.
pub open spec fn days_before_year(y: nat) -> nat
    decreases y,
{
    if y <= 1970 {
        0
    } else {
        days_before_year((y - 1) as nat) + year_days((y - 1) as nat)
    }
}

/// The days of the first `k` months of a year.
pub open spec fn days_of_months(y: nat, k: nat) -> nat
    decreases k,
{
    if k == 0 {
        0
    } else {
        days_of_months(y, (k - 1) as nat) + month_days(y, k)
    }
}

/// Year, month and day are a date from 1970 on, and `days` whole days lie
/// between the beginning of 1970 and it.
pub open spec fn is_date(days: nat, y: nat, m: nat, d: nat) -> bool {
    &&& y >= 1970
    &&& 1 <= m <= 12
    &&& 1 <= d <= month_days(y, m)
    &&& days == days_before_year(y) + days_of_months(y, (m - 1) as nat) + (d - 1)
}

/// The year in which the day number `rest`, counted from the beginning of year
/// `y`, falls.
pub open spec fn year_from(y: nat, rest: nat) -> nat
    decreases rest,
{
    if rest < year_days(y) {
        y
    } else {
        year_from(y + 1, (rest - year_days(y)) as nat)
    }
}

/// The month of year `y` in which the day number `rest`, counted from the
/// beginning of month `m`, falls.
pub open spec fn month_from(y: nat, m: nat, rest: nat) -> nat
    decreases rest,
{
    if rest < month_days(y, m) || m >= 12 {
        m
    } else {
        month_from(y, m + 1, (rest - month_days(y, m)) as nat)
    }
}

/// Year, month and day of the day `days` days after 1 January 1970.
pub open spec fn date_of(days: nat) -> (nat, nat, nat) {
    let y = year_from(1970, days);
    let rest = (days - days_before_year(y)) as nat;
    let m = month_from(y, 1, rest);
    (y, m, (rest - days_of_months(y, (m - 1) as nat) + 1) as nat)
}

/// All twelve months make a year.
pub proof fn lemma_months_of_year(y: nat)
    ensures
        days_of_months(y, 12) == year_days(y),
{
    reveal_with_fuel(days_of_months, 13);
}

proof fn lemma_year_from(y: nat, rest: nat)
    requires
        y >= 1970,
    ensures
        year_from(y, rest) >= y,
        days_before_year(year_from(y, rest)) <= days_before_year(y) + rest,
        days_before_year(y) + rest < days_before_year(year_from(y, rest)) + year_days(
            year_from(y, rest),
        ),
    decreases rest,
{
    if rest >= year_days(y) {
        lemma_year_from(y + 1, (rest - year_days(y)) as nat);
    }
}

proof fn lemma_month_from(y: nat, m: nat, rest: nat)
    requires
        1 <= m <= 12,
        days_of_months(y, (m - 1) as nat) + rest < year_days(y),
    ensures
        m <= month_from(y, m, rest) <= 12,
        days_of_months(y, (month_from(y, m, rest) - 1) as nat) <= days_of_months(
            y,
            (m - 1) as nat,
        ) + rest,
        days_of_months(y, (m - 1) as nat) + rest < days_of_months(y, month_from(y, m, rest)),
    decreases rest,
{
    lemma_months_of_year(y);
    if rest >= month_days(y, m) && m < 12 {
        lemma_month_from(y, m + 1, (rest - month_days(y, m)) as nat);
    }
}

/// `date_of` gives a date of the calendar that lies the given number of days
/// after 1 January 1970.
pub proof fn law_date_of_is_date(days: nat)
    ensures
        is_date(days, date_of(days).0, date_of(days).1, date_of(days).2),
{
    lemma_year_from(1970, days);
    let y = year_from(1970, days);
    let rest = (days - days_before_year(y)) as nat;
    assert(days_of_months(y, 0) == 0);
    lemma_month_from(y, 1, rest);
    let m = month_from(y, 1, rest);
    assert(days_of_months(y, m) == days_of_months(y, (m - 1) as nat) + month_days(y, m));
}

proof fn lemma_years_grow(a: nat, b: nat)
    requires
        1970 <= a < b,
    ensures
        days_before_year(a) + year_days(a) <= days_before_year(b),
    decreases b,
{
    if a + 1 < b {
        lemma_years_grow(a, (b - 1) as nat);
    }
}

proof fn lemma_months_grow(y: nat, a: nat, b: nat)
    requires
        a <= b,
    ensures
        days_of_months(y, a) <= days_of_months(y, b),
    decreases b,
{
    if a < b {
        lemma_months_grow(y, a, (b - 1) as nat);
    }
}

/// Two dates with the same number of days since 1970 are the same date.
pub proof fn law_dates_are_unique(
    days: nat,
    y: nat,
    m: nat,
    d: nat,
    y2: nat,
    m2: nat,
    d2: nat,
)
    requires
        is_date(days, y, m, d),
        is_date(days, y2, m2, d2),
    ensures
        y == y2 && m == m2 && d == d2,
{
    lemma_months_of_year(y);
    lemma_months_of_year(y2);
    lemma_months_grow(y, m, 12);
    lemma_months_grow(y2, m2, 12);
    assert(days_of_months(y, m) == days_of_months(y, (m - 1) as nat) + month_days(y, m));
    assert(days_of_months(y2, m2) == days_of_months(y2, (m2 - 1) as nat) + month_days(y2, m2));
    if y < y2 {
        lemma_years_grow(y, y2);
    } else if y2 < y {
        lemma_years_grow(y2, y);
    } else if m < m2 {
        lemma_months_grow(y, m, (m2 - 1) as nat);
    } else if m2 < m {
        lemma_months_grow(y, m2, (m - 1) as nat);
    }
}

/// Whether a year is a leap year.
fn leap(y: u64) -> (r: bool)
    ensures
        r == is_leap(y as nat),
{
    y % 4 == 0 && (y % 100 != 0 || y % 400 == 0)
}

/// The number of days of a month.
fn length_of_month(y: u64, m: u64) -> (n: u64)
    ensures
        n == month_days(y as nat, m as nat),
        28 <= n <= 31,
{
    if m == 2 {
        if leap(y) {
            29
        } else {
            28
        }
    } else if m == 4 || m == 6 || m == 9 || m == 11 {
        30
    } else {
        31
    }
}

/// Year, month and day of the day `days` days after 1 January 1970.
pub fn days_to_ymd(days: u64) -> (r: (u64, u64, u64))
    ensures
        date_of(days as nat) == (r.0 as nat, r.1 as nat, r.2 as nat),
        is_date(days as nat, r.0 as nat, r.1 as nat, r.2 as nat),
{
    let mut y: u64 = 1970;
    let mut remaining: u64 = days;
    loop
        invariant
            y >= 1970,
            365 * (y - 1970) + remaining <= days,
            days == days_before_year(y as nat) + remaining,
            year_from(1970, days as nat) == year_from(y as nat, remaining as nat),
        ensures
            y >= 1970,
            days == days_before_year(y as nat) + remaining,
            y == year_from(1970, days as nat),
            remaining < year_days(y as nat),
        decreases remaining,
    {
        let length: u64 = if leap(y) {
            366
        } else {
            365
        };
        if remaining < length {
            break;
        }
        remaining -= length;
        y += 1;
    }
    let ghost rest = remaining;
    let mut mo: u64 = 1;
    assert(days_of_months(y as nat, 0) == 0);
    while mo < 12 && remaining >= length_of_month(y, mo)
        invariant
            1 <= mo <= 12,
            remaining <= rest < year_days(y as nat),
            rest == days_of_months(y as nat, (mo - 1) as nat) + remaining,
            month_from(y as nat, 1, rest as nat) == month_from(
                y as nat,
                mo as nat,
                remaining as nat,
            ),
        decreases 12 - mo,
    {
        remaining -= length_of_month(y, mo);
        mo += 1;
        assert(days_of_months(y as nat, (mo - 1) as nat) == days_of_months(
            y as nat,
            (mo - 2) as nat,
        ) + month_days(y as nat, (mo - 1) as nat));
    }
    proof {
        law_date_of_is_date(days as nat);
    }
    (y, mo, remaining + 1)
}

// ---------------------------------------------------------------------------
// Writing times
// ---------------------------------------------------------------------------

/// A time as text: year, month, day, hour, minute and second in UTC.
pub open spec fn iso_text(y: nat, mo: nat, d: nat, h: nat, m: nat, s: nat) -> Seq<char> {
    padded(y, 4) + seq!['-'] + padded(mo, 2) + seq!['-'] + padded(d, 2) + seq!['T'] + padded(h, 2)
        + seq![':'] + padded(m, 2) + seq![':'] + padded(s, 2) + seq!['Z']
}

/// The time `secs` seconds after the beginning of 1970 as text.
pub open spec fn iso_of(secs: nat) -> Seq<char> {
    let date = date_of(secs / 86400);
    let rest = secs % 86400;
    iso_text(date.0, date.1, date.2, rest / 3600, (rest % 3600) / 60, rest % 60)
}

/// The time `secs` seconds after the beginning of 1970 as text.
pub fn format_unix_iso(secs: u64) -> (r: String)
    ensures
        r@ == iso_of(secs as nat),
{
    let days: u64 = secs / 86400;
    let rem: u64 = secs % 86400;
    let (y, mo, d) = days_to_ymd(days);
    let mut out = String::new();
    push_padded(&mut out, y, 4);
    out.push('-');
    push_padded(&mut out, mo, 2);
    out.push('-');
    push_padded(&mut out, d, 2);
    out.push('T');
    push_padded(&mut out, rem / 3600, 2);
    out.push(':');
    push_padded(&mut out, (rem % 3600) / 60, 2);
    out.push(':');
    push_padded(&mut out, rem % 60, 2);
    out.push('Z');
    assert(out@ =~= iso_of(secs as nat));
    out
}

/// The present time as text, given the seconds since the beginning of 1970.
pub fn utc_now_iso(now_secs: u64) -> (r: String)
    ensures
        r@ == iso_of(now_secs as nat),
{
    format_unix_iso(now_secs)
}

// ---------------------------------------------------------------------------
// Reading times
// ---------------------------------------------------------------------------

/// The number that the bytes from `i` to `j` name.
pub open spec fn number_at(b: Seq<u8>, i: int, j: int) -> Option<nat> {
    parse_up_to(byte_chars(b.subrange(i, j)), u64::MAX as nat)
}

/// All six numbers of a time are there.
pub open spec fn has_numbers(b: Seq<u8>) -> bool {
    &&& number_at(b, 0, 4) is Some
    &&& number_at(b, 5, 7) is Some
    &&& number_at(b, 8, 10) is Some
    &&& number_at(b, 11, 13) is Some
    &&& number_at(b, 14, 16) is Some
    &&& number_at(b, 17, 19) is Some
}

/// Both ends of a range of bytes lie between characters.
pub open spec fn whole(b: Seq<u8>, i: int, j: int) -> bool {
    is_char_boundary(b, i) && is_char_boundary(b, j)
}

/// The places at which a time is read lie between characters, as far as it is
/// read, and neither month nor day is zero.
pub open spec fn iso_readable(b: Seq<u8>) -> bool {
    b.len() >= 19 ==> {
        &&& whole(b, 0, 4)
        &&& number_at(b, 0, 4) is Some ==> {
            &&& whole(b, 5, 7)
            &&& number_at(b, 5, 7) is Some ==> {
                &&& whole(b, 8, 10)
                &&& number_at(b, 8, 10) is Some ==> {
                    &&& whole(b, 11, 13)
                    &&& number_at(b, 11, 13) is Some ==> {
                        &&& whole(b, 14, 16)
                        &&& number_at(b, 14, 16) is Some ==> whole(b, 17, 19)
                    }
                }
            }
        }
        &&& has_numbers(b) ==> number_at(b, 5, 7)->0 >= 1 && number_at(b, 8, 10)->0 >= 1
    }
}

/// The seconds from the beginning of 1970 to a time whose numbers are given;
/// a month after December counts as the end of the year.
pub open spec fn secs_of(y: nat, mo: nat, d: nat, h: nat, m: nat, s: nat) -> int {
    (days_before_year(y) + days_of_months(
        y,
        if mo > 13 {
            12
        } else {
            (mo - 1) as nat
        },
    ) + d - 1) * 86400 + h * 3600 + m * 60 + s
}

/// The seconds from the beginning of 1970 to the time that a text names; `None`
/// where the text is shorter than a time or one of its six numbers is missing.
pub open spec fn parsed_iso(b: Seq<u8>) -> Option<int> {
    if b.len() < 19 || !has_numbers(b) {
        None
    } else {
        Some(
            secs_of(
                number_at(b, 0, 4)->0,
                number_at(b, 5, 7)->0,
                number_at(b, 8, 10)->0,
                number_at(b, 11, 13)->0,
                number_at(b, 14, 16)->0,
                number_at(b, 17, 19)->0,
            ),
        )
    }
}

proof fn lemma_digits_bound(s: Seq<char>)
    ensures
        digits_value(s) matches Some(v) ==> {
            &&& s.len() <= 1 ==> v < 10
            &&& s.len() <= 2 ==> v < 100
            &&& s.len() <= 3 ==> v < 1000
            &&& s.len() <= 4 ==> v < 10000
        },
    decreases s.len(),
{
    if s.len() > 0 {
        lemma_digits_bound(s.drop_last());
    }
}

/// The number that the bytes from `i` to `j` name.
fn read_number(b: &[u8], i: usize, j: usize) -> (r: Option<u64>)
    requires
        i <= j <= b@.len(),
        j - i <= 4,
    ensures
        (match r {
            Some(v) => number_at(b@, i as int, j as int) == Some(v as nat) && v < 10000 && (j - i
                <= 2 ==> v < 100),
            None => number_at(b@, i as int, j as int) is None,
        }),
{
    let mut v: Vec<char> = Vec::new();
    let mut k: usize = i;
    while k < j
        invariant
            i <= k <= j <= b@.len(),
            v@ =~= byte_chars(b@.subrange(i as int, k as int)),
        decreases j - k,
    {
        v.push(b[k] as char);
        k += 1;
    }
    proof {
        lemma_digits_bound(unsigned_part(v@));
    }
    parse_number(v.as_slice(), u64::MAX)
}

/// Whether a text can be read as a time: see `iso_readable`.
pub fn iso_is_readable(iso: &str) -> (r: bool)
    ensures
        r == iso_readable(encode_utf8(iso@)),
{
    let b = iso.as_bytes();
    if b.len() < 19 {
        return true;
    }
    if !(iso.is_char_boundary(0) && iso.is_char_boundary(4)) {
        return false;
    }
    let y = read_number(b, 0, 4);
    if y.is_none() {
        return true;
    }
    if !(iso.is_char_boundary(5) && iso.is_char_boundary(7)) {
        return false;
    }
    let mo = read_number(b, 5, 7);
    if mo.is_none() {
        return true;
    }
    if !(iso.is_char_boundary(8) && iso.is_char_boundary(10)) {
        return false;
    }
    let d = read_number(b, 8, 10);
    if d.is_none() {
        return true;
    }
    if !(iso.is_char_boundary(11) && iso.is_char_boundary(13)) {
        return false;
    }
    let h = read_number(b, 11, 13);
    if h.is_none() {
        return true;
    }
    if !(iso.is_char_boundary(14) && iso.is_char_boundary(16)) {
        return false;
    }
    let m = read_number(b, 14, 16);
    if m.is_none() {
        return true;
    }
    if !(iso.is_char_boundary(17) && iso.is_char_boundary(19)) {
        return false;
    }
    let s = read_number(b, 17, 19);
    if s.is_none() {
        return true;
    }
    mo.unwrap() >= 1 && d.unwrap() >= 1
}

/// The seconds from the beginning of 1970 to the time that a text names.
pub fn parse_iso_to_secs(iso: &str) -> (r: Option<u64>)
    requires
        iso_readable(encode_utf8(iso@)),
    ensures
        (match r {
            Some(v) => parsed_iso(encode_utf8(iso@)) == Some(v as int),
            None => parsed_iso(encode_utf8(iso@)) is None,
        }),
{
    let b = iso.as_bytes();
    if b.len() < 19 {
        return None;
    }
    let y = match read_number(b, 0, 4) {
        Some(v) => v,
        None => return None,
    };
    let mo = match read_number(b, 5, 7) {
        Some(v) => v,
        None => return None,
    };
    let d = match read_number(b, 8, 10) {
        Some(v) => v,
        None => return None,
    };
    let h = match read_number(b, 11, 13) {
        Some(v) => v,
        None => return None,
    };
    let m = match read_number(b, 14, 16) {
        Some(v) => v,
        None => return None,
    };
    let s = match read_number(b, 17, 19) {
        Some(v) => v,
        None => return None,
    };
    let mut days: u64 = 0;
    let mut year: u64 = 1970;
    while year < y
        invariant
            y < 10000,
            1970 <= year,
            year <= y || year == 1970,
            days == days_before_year(year as nat),
            days <= 366 * (year - 1970),
        decreases y - year,
    {
        days += if leap(year) {
            366
        } else {
            365
        };
        year += 1;
    }
    assert(days == days_before_year(y as nat));
    let months: u64 = if mo > 13 {
        12
    } else {
        mo - 1
    };
    let ghost before = days;
    let mut k: u64 = 0;
    while k < months
        invariant
            k <= months <= 12,
            before <= 366 * 10000,
            days == before + days_of_months(y as nat, k as nat),
            days <= before + 31 * k,
        decreases months - k,
    {
        k += 1;
        days += length_of_month(y, k);
    }
    days += d - 1;
    Some(days * 86400 + h * 3600 + m * 60 + s)
}

/// A time that was written by `format_unix_iso` is read back as it was, for
/// years of four digits.
pub proof fn law_iso_round_trip(secs: nat)
    requires
        date_of(secs / 86400).0 <= 9999,
    ensures
        iso_readable(encode_utf8(iso_of(secs))),
        parsed_iso(encode_utf8(iso_of(secs))) == Some(secs as int),
{
    let days = secs / 86400;
    let rest = secs % 86400;
    let (y, mo, d) = date_of(days);
    law_date_of_is_date(days);
    let h = rest / 3600;
    let m = (rest % 3600) / 60;
    let s = rest % 60;
    assert(h < 24 && m < 60 && s < 60 && rest == h * 3600 + m * 60 + s);
    lemma_padded(y, 4);
    lemma_padded(mo, 2);
    lemma_padded(d, 2);
    lemma_padded(h, 2);
    lemma_padded(m, 2);
    lemma_padded(s, 2);
    let t = iso_of(secs);
    let b = encode_utf8(t);
    assert(t.len() == 20);
    assert(t.subrange(0, 4) =~= padded(y, 4));
    assert(t.subrange(5, 7) =~= padded(mo, 2));
    assert(t.subrange(8, 10) =~= padded(d, 2));
    assert(t.subrange(11, 13) =~= padded(h, 2));
    assert(t.subrange(14, 16) =~= padded(m, 2));
    assert(t.subrange(17, 19) =~= padded(s, 2));
    assert forall|i: int| 0 <= i < t.len() implies '\0' <= #[trigger] t[i] <= '\u{7f}' by {
        if i < 4 {
            assert(t[i] == padded(y, 4)[i]);
        } else if 5 <= i < 7 {
            assert(t[i] == padded(mo, 2)[i - 5]);
        } else if 8 <= i < 10 {
            assert(t[i] == padded(d, 2)[i - 8]);
        } else if 11 <= i < 13 {
            assert(t[i] == padded(h, 2)[i - 11]);
        } else if 14 <= i < 16 {
            assert(t[i] == padded(m, 2)[i - 14]);
        } else if 17 <= i < 19 {
            assert(t[i] == padded(s, 2)[i - 17]);
        }
    }
    is_ascii_chars_encode_utf8(t);
    assert(byte_chars(b.subrange(0, 4)) =~= t.subrange(0, 4));
    assert(byte_chars(b.subrange(5, 7)) =~= t.subrange(5, 7));
    assert(byte_chars(b.subrange(8, 10)) =~= t.subrange(8, 10));
    assert(byte_chars(b.subrange(11, 13)) =~= t.subrange(11, 13));
    assert(byte_chars(b.subrange(14, 16)) =~= t.subrange(14, 16));
    assert(byte_chars(b.subrange(17, 19)) =~= t.subrange(17, 19));
    encode_utf8_valid_utf8(t);
    assert forall|i: int| 0 <= i < b.len() implies is_char_boundary(b, i) by {
        is_char_boundary_iff_not_is_continuation_byte(b, i);
        assert(b[i] == t[i] as u8);
    }
}

/// The date of a later day is later: its year is, or its month in the same year, or
/// its day in the same month.
proof fn lemma_later_date(days: nat, later: nat)
    requires
        days < later,
    ensures
        ({
            let (y, m, d) = date_of(days);
            let (y2, m2, d2) = date_of(later);
            y < y2 || (y == y2 && (m < m2 || (m == m2 && d < d2)))
        }),
{
    let (y, m, d) = date_of(days);
    let (y2, m2, d2) = date_of(later);
    law_date_of_is_date(days);
    law_date_of_is_date(later);
    lemma_months_of_year(y2);
    lemma_months_grow(y2, m2, 12);
    assert(days_of_months(y2, m2) == days_of_months(y2, (m2 - 1) as nat) + month_days(y2, m2));
    if y2 < y {
        lemma_years_grow(y2, y);
    } else if y2 == y && m2 < m {
        lemma_months_grow(y, m2, (m - 1) as nat);
    }
}

/// A number in a place of `w` digits, a mark and some text.
spec fn numbered(n: nat, w: nat, mark: char, text: Seq<char>) -> Seq<char> {
    padded(n, w) + seq![mark] + text
}

/// The text with the smaller number comes first; where the numbers are the same,
/// what follows decides.
proof fn lemma_number_decides(
    n: nat,
    n2: nat,
    w: nat,
    mark: char,
    text: Seq<char>,
    text2: Seq<char>,
)
    requires
        (w == 2 && n2 < 100) || (w == 4 && n2 < 10000),
        n < n2 || (n == n2 && sorts_before(text, text2)),
    ensures
        sorts_before(numbered(n, w, mark, text), numbered(n2, w, mark, text2)),
{
    let p = padded(n, w);
    let p2 = padded(n2, w);
    let a = numbered(n, w, mark, text);
    let b = numbered(n2, w, mark, text2);
    lemma_padded(n, w);
    lemma_padded(n2, w);
    if n < n2 {
        lemma_digits_order(p, p2);
        let i = choose|i: int| i < p.len() && smaller_from(p, p2, i);
        assert(a.take(i) =~= p.take(i));
        assert(b.take(i) =~= p2.take(i));
        assert(smaller_from(a, b, i));
    } else {
        let i = choose|i: int| smaller_from(text, text2, i);
        let j = w + 1 + i;
        assert(a.take(j) =~= p + seq![mark] + text.take(i));
        assert(b.take(j) =~= p + seq![mark] + text2.take(i));
        assert(smaller_from(a, b, j));
    }
}

/// Three numbers come before three others: the first that differ decide.
spec fn three_before(a: (nat, nat, nat), b: (nat, nat, nat)) -> bool {
    a.0 < b.0 || (a.0 == b.0 && (a.1 < b.1 || (a.1 == b.1 && a.2 < b.2)))
}

/// A time as text, number by number.
spec fn iso_parts(date: (nat, nat, nat), time: (nat, nat, nat)) -> Seq<char> {
    numbered(
        date.0,
        4,
        '-',
        numbered(
            date.1,
            2,
            '-',
            numbered(
                date.2,
                2,
                'T',
                numbered(time.0, 2, ':', numbered(time.1, 2, ':', numbered(time.2, 2, 'Z', seq![]))),
            ),
        ),
    )
}

proof fn lemma_regroup(head: Seq<char>, n: nat, mark: char, text: Seq<char>)
    ensures
        head + padded(n, 2) + seq![mark] + text == head + numbered(n, 2, mark, text),
{
    assert(head + padded(n, 2) + seq![mark] + text =~= head + numbered(n, 2, mark, text));
}

proof fn lemma_iso_parts(date: (nat, nat, nat), time: (nat, nat, nat))
    ensures
        iso_text(date.0, date.1, date.2, time.0, time.1, time.2) == iso_parts(date, time),
{
    let none = Seq::<char>::empty();
    let s = numbered(time.2, 2, 'Z', none);
    let m = numbered(time.1, 2, ':', s);
    let h = numbered(time.0, 2, ':', m);
    let d = numbered(date.2, 2, 'T', h);
    let to_mo = padded(date.0, 4) + seq!['-'];
    let to_d = to_mo + padded(date.1, 2) + seq!['-'];
    let to_h = to_d + padded(date.2, 2) + seq!['T'];
    let to_m = to_h + padded(time.0, 2) + seq![':'];
    let to_s = to_m + padded(time.1, 2) + seq![':'];
    let all = to_s + padded(time.2, 2) + seq!['Z'];
    assert(all + none =~= all);
    lemma_regroup(to_s, time.2, 'Z', none);
    lemma_regroup(to_m, time.1, ':', s);
    lemma_regroup(to_h, time.0, ':', m);
    lemma_regroup(to_d, date.2, 'T', h);
    lemma_regroup(to_mo, date.1, '-', d);
}

proof fn lemma_iso_order(
    date: (nat, nat, nat),
    time: (nat, nat, nat),
    date2: (nat, nat, nat),
    time2: (nat, nat, nat),
)
    requires
        three_before(date, date2) || (date == date2 && three_before(time, time2)),
        date2.0 <= 9999,
        date2.1 < 100,
        date2.2 < 100,
        time2.0 < 100,
        time2.1 < 100,
        time2.2 < 100,
    ensures
        sorts_before(
            iso_text(date.0, date.1, date.2, time.0, time.1, time.2),
            iso_text(date2.0, date2.1, date2.2, time2.0, time2.1, time2.2),
        ),
{
    lemma_iso_parts(date, time);
    lemma_iso_parts(date2, time2);
    let none = Seq::<char>::empty();
    let s = numbered(time.2, 2, 'Z', none);
    let s2 = numbered(time2.2, 2, 'Z', none);
    let m = numbered(time.1, 2, ':', s);
    let m2 = numbered(time2.1, 2, ':', s2);
    let h = numbered(time.0, 2, ':', m);
    let h2 = numbered(time2.0, 2, ':', m2);
    let d = numbered(date.2, 2, 'T', h);
    let d2 = numbered(date2.2, 2, 'T', h2);
    let mo = numbered(date.1, 2, '-', d);
    let mo2 = numbered(date2.1, 2, '-', d2);
    if time.2 < time2.2 {
        lemma_number_decides(time.2, time2.2, 2, 'Z', none, none);
    }
    if time.1 < time2.1 || (time.1 == time2.1 && time.2 < time2.2) {
        lemma_number_decides(time.1, time2.1, 2, ':', s, s2);
    }
    if three_before(time, time2) {
        lemma_number_decides(time.0, time2.0, 2, ':', m, m2);
    }
    if date.2 < date2.2 || (date.2 == date2.2 && three_before(time, time2)) {
        lemma_number_decides(date.2, date2.2, 2, 'T', h, h2);
    }
    if date.1 < date2.1 || (date.1 == date2.1 && sorts_before(d, d2)) {
        lemma_number_decides(date.1, date2.1, 2, '-', d, d2);
    }
    lemma_number_decides(date.0, date2.0, 4, '-', mo, mo2);
}

/// A later time gives a text that comes later in the order of strings, for years of
/// four digits.
pub proof fn law_later_times_sort_later(secs: nat, later: nat)
    requires
        secs < later,
        date_of(later / 86400).0 <= 9999,
    ensures
        sorts_before(iso_of(secs), iso_of(later)),
{
    let (y, mo, d) = date_of(secs / 86400);
    let (y2, mo2, d2) = date_of(later / 86400);
    let rest = secs % 86400;
    let rest2 = later % 86400;
    law_date_of_is_date(later / 86400);
    if secs / 86400 < later / 86400 {
        lemma_later_date(secs / 86400, later / 86400);
    } else {
        assert(rest < rest2);
    }
    lemma_iso_order(
        (y, mo, d),
        (rest / 3600, (rest % 3600) / 60, rest % 60),
        (y2, mo2, d2),
        (rest2 / 3600, (rest2 % 3600) / 60, rest2 % 60),
    );
}

// ---------------------------------------------------------------------------
// Durations
// ---------------------------------------------------------------------------

/// A duration in its largest units: seconds, minutes, hours and minutes, or days
/// and hours.
pub open spec fn uptime_text(secs: nat) -> Seq<char> {
    if secs < 60 {
        dec(secs) + "s"@
    } else if secs < 3600 {
        dec(secs / 60) + "m"@
    } else if secs < 86400 {
        dec(secs / 3600) + "h "@ + dec((secs % 3600) / 60) + "m"@
    } else {
        dec(secs / 86400) + "d "@ + dec((secs % 86400) / 3600) + "h"@
    }
}

/// A duration as text.
pub fn fmt_uptime(secs: u64) -> (r: String)
    ensures
        r@ == uptime_text(secs as nat),
{
    let mut out = String::new();
    if secs < 60 {
        push_dec(&mut out, secs as u128);
        out.append("s");
    } else if secs < 3600 {
        push_dec(&mut out, (secs / 60) as u128);
        out.append("m");
    } else if secs < 86400 {
        push_dec(&mut out, (secs / 3600) as u128);
        out.append("h ");
        push_dec(&mut out, ((secs % 3600) / 60) as u128);
        out.append("m");
    } else {
        push_dec(&mut out, (secs / 86400) as u128);
        out.append("d ");
        push_dec(&mut out, ((secs % 86400) / 3600) as u128);
        out.append("h");
    }
    assert(out@ =~= uptime_text(secs as nat));
    out
}

/// How long ago a time was, as text.
pub open spec fn duration_text(iso: Seq<char>, now: nat) -> Seq<char> {
    match parsed_iso(encode_utf8(iso)) {
        None => "—"@,
        Some(then) => if now <= then {
            "just now"@
        } else {
            uptime_text((now - then) as nat)
        },
    }
}

/// How long ago a time was, as text; a dash where there is no time to read.
pub fn deployed_duration(iso: &str, now_secs: u64) -> (r: String)
    requires
        iso_readable(encode_utf8(iso@)),
    ensures
        r@ == duration_text(iso@, now_secs as nat),
{
    match parse_iso_to_secs(iso) {
        None => "—".to_owned(),
        Some(deployed) => {
            if now_secs <= deployed {
                "just now".to_owned()
            } else {
                fmt_uptime(now_secs - deployed)
            }
        },
    }
}

} // verus!
