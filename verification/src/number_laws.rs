//! What holds of numbers, dates and durations as text.
use vstd::prelude::*;
use vstd::utf8::encode_utf8;

use crate::calendar::{
    date_of, days_before_year, days_of_months, duration_text, iso_of, law_iso_round_trip,
    lemma_months_of_year, month_days, uptime_text, year_days,
};
use crate::number::{
    dec, digits_value, hex, hex_pair, is_digit, lemma_dec_value, lemma_hex, padded, parse_up_to,
    zeros,
};

verus! {

// ---------------------------------------------------------------------------
// Decimal and hexadecimal
// ---------------------------------------------------------------------------

/// A number in decimal is made of digits, begins with a zero only where it is zero,
/// and is read back wherever it is not too large.
pub proof fn law_decimal(n: nat, max: nat)
    ensures
        dec(n).len() > 0,
        forall|i: int| 0 <= i < dec(n).len() ==> '0' <= #[trigger] dec(n)[i] <= '9',
        dec(n)[0] == '0' ==> n == 0,
        n == 0 ==> dec(n) == seq!['0'],
        n <= max ==> parse_up_to(dec(n), max) == Some(n),
        n > max ==> parse_up_to(dec(n), max) is None,
    decreases n,
{
    lemma_dec_value(n);
    assert(is_digit(dec(n)[0]));
    if n >= 10 {
        law_decimal(n / 10, max);
        assert(dec(n)[0] == dec(n / 10)[0]);
    }
}

/// A text with anything in it but digits behind a plus sign is no number, and neither
/// is the empty text.
pub proof fn law_no_number(s: Seq<char>, max: nat, i: int)
    requires
        s.len() == 0 || s == seq!['+'] || (0 <= i < s.len() && !('0' <= s[i] <= '9') && !(i == 0
            && s[0] == '+')),
    ensures
        parse_up_to(s, max) is None,
{
    if s.len() > 0 && s != seq!['+'] {
        if s[0] == '+' {
            lemma_not_digits(s.drop_first(), i - 1);
        } else {
            lemma_not_digits(s, i);
        }
    }
}

proof fn lemma_not_digits(s: Seq<char>, i: int)
    requires
        0 <= i < s.len(),
        !is_digit(s[i]),
    ensures
        digits_value(s) is None,
    decreases s.len(),
{
    if i < s.len() - 1 {
        assert(s.drop_last()[i] == s[i]);
        lemma_not_digits(s.drop_last(), i);
    }
}

/// A plus sign in front of digits does not change the number.
pub proof fn law_plus_sign(n: nat, max: nat)
    ensures
        parse_up_to(seq!['+'] + dec(n), max) == parse_up_to(dec(n), max),
{
    lemma_dec_value(n);
    assert(is_digit(dec(n)[0]));
    assert((seq!['+'] + dec(n)).drop_first() =~= dec(n));
}

/// Padding puts zeros in front of a number that takes fewer places, and only there.
pub proof fn law_padding(n: nat, w: nat)
    ensures
        padded(n, w).len() >= w,
        dec(n).len() >= w ==> padded(n, w) == dec(n),
        dec(n).len() < w ==> padded(n, w).len() == w && padded(n, w).skip(w - dec(n).len()) == dec(
            n,
        ) && forall|i: int| 0 <= i < w - dec(n).len() ==> #[trigger] padded(n, w)[i] == '0',
{
    if dec(n).len() < w {
        let z = zeros((w - dec(n).len()) as nat);
        assert((z + dec(n)).skip(z.len() as int) =~= dec(n));
    }
}

/// Each byte in hexadecimal is two characters, and those two name the byte; capital
/// letters do not occur.
pub proof fn law_hex_round_trip(bytes: Seq<u8>)
    ensures
        hex(bytes).len() == 2 * bytes.len(),
        forall|i: int|
            0 <= i < bytes.len() ==> #[trigger] bytes[i] as nat == hex_pair(
                hex(bytes)[2 * i],
                hex(bytes)[2 * i + 1],
            )->0 && hex_pair(hex(bytes)[2 * i], hex(bytes)[2 * i + 1]) is Some,
        forall|i: int|
            0 <= i < hex(bytes).len() ==> '0' <= #[trigger] hex(bytes)[i] <= '9' || 'a' <= hex(
                bytes,
            )[i] <= 'f',
    decreases bytes.len(),
{
    lemma_hex(bytes);
    if bytes.len() > 0 {
        let before = bytes.drop_last();
        law_hex_round_trip(before);
        assert forall|i: int| 0 <= i < bytes.len() implies #[trigger] bytes[i] as nat == hex_pair(
            hex(bytes)[2 * i],
            hex(bytes)[2 * i + 1],
        )->0 && hex_pair(hex(bytes)[2 * i], hex(bytes)[2 * i + 1]) is Some by {
            if i < before.len() {
                assert(before[i] == bytes[i]);
                assert(hex(bytes)[2 * i] == hex(before)[2 * i]);
                assert(hex(bytes)[2 * i + 1] == hex(before)[2 * i + 1]);
            } else {
                assert(hex(before).len() == 2 * i);
            }
        }
    }
}

/// Two characters name a byte where both are hexadecimal digits, small or capital, by
/// their values times sixteen and times one.
pub proof fn law_hex_pair(a: char, b: char, x: nat, y: nat)
    requires
        x < 16,
        y < 16,
        a as nat == (if x < 10 {
            48 + x
        } else {
            87 + x
        }) || (x >= 10 && a as nat == 55 + x),
        b as nat == (if y < 10 {
            48 + y
        } else {
            87 + y
        }) || (y >= 10 && b as nat == 55 + y),
    ensures
        hex_pair(a, b) == Some(16 * x + y),
{
}

// ---------------------------------------------------------------------------
// The calendar
// ---------------------------------------------------------------------------

/// How many leap years there are from year 1 to a year.
pub open spec fn leap_years_to(y: int) -> int {
    y / 4 - y / 100 + y / 400
}

/// From 1970 to a later year there are 365 days for each year and one more for each
/// leap year: one in four, but for one in a hundred, and with one in four hundred.
pub proof fn law_days_before_year(y: nat)
    requires
        y >= 1970,
    ensures
        days_before_year(y) == 365 * (y - 1970) + leap_years_to(y - 1) - leap_years_to(1969),
        year_days(y) == 365 + leap_years_to(y as int) - leap_years_to(y - 1),
    decreases y,
{
    lemma_leap_step(y as int);
    if y > 1970 {
        law_days_before_year((y - 1) as nat);
        lemma_leap_step(y - 1);
    }
}

proof fn lemma_leap_step(y: int)
    requires
        y > 0,
    ensures
        leap_years_to(y) - leap_years_to(y - 1) == (if y % 4 == 0 && (y % 100 != 0 || y % 400
            == 0) {
            1int
        } else {
            0int
        }),
{
    assert(y / 4 - (y - 1) / 4 == (if y % 4 == 0 {
        1int
    } else {
        0int
    }));
    assert(y / 100 - (y - 1) / 100 == (if y % 100 == 0 {
        1int
    } else {
        0int
    }));
    assert(y / 400 - (y - 1) / 400 == (if y % 400 == 0 {
        1int
    } else {
        0int
    }));
}

/// Up to July the odd months have 31 days and the even ones 30, from August on it is
/// the other way round; February has 28 or 29, and the months make up the year.
pub proof fn law_month_lengths(y: nat, m: nat)
    requires
        1 <= m <= 12,
    ensures
        m != 2 && m <= 7 ==> month_days(y, m) == 30 + m % 2,
        m >= 8 ==> month_days(y, m) == 31 - m % 2,
        month_days(y, 2) == year_days(y) - 337,
        days_of_months(y, 12) == year_days(y),
        days_of_months(y, m) == days_of_months(y, (m - 1) as nat) + month_days(y, m),
{
    lemma_months_of_year(y);
}

// ---------------------------------------------------------------------------
// Durations
// ---------------------------------------------------------------------------

/// A duration below a minute is told in seconds, and one below an hour in whole
/// minutes.
pub proof fn law_short_uptime_text(a: nat, left: nat)
    requires
        a < 60,
        left < 60,
    ensures
        uptime_text(a) == dec(a) + "s"@,
        a > 0 ==> uptime_text(60 * a + left) == dec(a) + "m"@,
{
    let secs = 60 * a + left;
    assert(secs / 60 == a);
}

/// A duration of an hour or more is told in hours and whole minutes below a day, and
/// in days and whole hours from there on.
pub proof fn law_long_uptime_text(days: nat, hours: nat, minutes: nat, left: nat)
    requires
        hours < 24,
        minutes < 60,
        left < 60,
    ensures
        hours > 0 ==> uptime_text(3600 * hours + 60 * minutes + left) == dec(hours) + "h "@ + dec(
            minutes,
        ) + "m"@,
        days > 0 ==> uptime_text(86400 * days + 3600 * hours + 60 * minutes + left) == dec(days)
            + "d "@ + dec(hours) + "h"@,
{
    let rest = 60 * minutes + left;
    assert(rest < 3600 && rest / 60 == minutes);
    let part = 3600 * hours + rest;
    assert(part < 86400 && part / 3600 == hours && part % 3600 == rest);
    let all = 86400 * days + part;
    assert(all / 86400 == days && all % 86400 == part);
    assert(all == 86400 * days + 3600 * hours + 60 * minutes + left);
}

/// The time since a moment that was written down is told as a duration, and a moment
/// that has not passed as just now; what is no time has a dash.
pub proof fn law_duration_since(then: nat, now: nat)
    requires
        date_of(then / 86400).0 <= 9999,
    ensures
        now > then ==> duration_text(iso_of(then), now) == uptime_text((now - then) as nat),
        now <= then ==> duration_text(iso_of(then), now) == "just now"@,
        forall|iso: Seq<char>|
            #![trigger duration_text(iso, now)]
            encode_utf8(iso).len() < 19 ==> duration_text(iso, now) == "—"@,
{
    law_iso_round_trip(then);
}

} // verus!
