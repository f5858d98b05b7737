//! Numbers as text: decimal and hexadecimal digits.
use vstd::prelude::*;
use vstd::slice::slice_subrange;

use crate::text::smaller_from;

verus! {

// ---------------------------------------------------------------------------
// Decimal
// ---------------------------------------------------------------------------

/// The decimal digit of a number below ten.
pub open spec fn digit(d: nat) -> char {
    (('0' as u8) + d) as char
}

/// A decimal digit.
pub open spec fn is_digit(c: char) -> bool {
    '0' <= c <= '9'
}

/// The value of a decimal digit.
pub open spec fn digit_value(c: char) -> nat {
    (c as int - '0' as int) as nat
}

/// A number in decimal, without leading zeros.
pub open spec fn dec(n: nat) -> Seq<char>
    decreases n,
{
    if n < 10 {
        seq![digit(n)]
    } else {
        dec(n / 10).push(digit(n % 10))
    }
}

/// `k` zeros.
pub open spec fn zeros(k: nat) -> Seq<char> {
    Seq::new(k, |i: int| '0')
}

/// A number in decimal, with leading zeros up to a width of `w`.
pub open spec fn padded(n: nat, w: nat) -> Seq<char> {
    if dec(n).len() >= w {
        dec(n)
    } else {
        zeros((w - dec(n).len()) as nat) + dec(n)
    }
}

/// The value of a run of decimal digits; `None` where another character stands
/// among them. The empty run has the value zero.
pub open spec fn digits_value(s: Seq<char>) -> Option<nat>
    decreases s.len(),
{
    if s.len() == 0 {
        Some(0)
    } else {
        match digits_value(s.drop_last()) {
            Some(v) if is_digit(s.last()) => Some(10 * v + digit_value(s.last())),
            _ => None,
        }
    }
}

/// The text after a leading plus sign.
pub open spec fn unsigned_part(s: Seq<char>) -> Seq<char> {
    if s.len() > 0 && s[0] == '+' {
        s.drop_first()
    } else {
        s
    }
}

/// The number that a text names: an optional plus sign, then at least one
/// decimal digit and nothing else, with a value of at most `max`.
pub open spec fn parse_up_to(s: Seq<char>, max: nat) -> Option<nat> {
    let t = unsigned_part(s);
    if t.len() == 0 {
        None
    } else {
        match digits_value(t) {
            Some(v) if v <= max => Some(v),
            _ => None,
        }
    }
}

/// Every digit is a digit character, and its value is the number it stands for.
pub proof fn lemma_digit(d: nat)
    requires
        d < 10,
    ensures
        is_digit(digit(d)),
        digit_value(digit(d)) == d,
{
}

/// Reading what `dec` wrote gives the number back.
pub proof fn lemma_dec_value(n: nat)
    ensures
        digits_value(dec(n)) == Some(n),
        dec(n).len() > 0,
        forall|i: int| 0 <= i < dec(n).len() ==> is_digit(#[trigger] dec(n)[i]),
    decreases n,
{
    if n < 10 {
        assert(dec(n).drop_last() =~= Seq::<char>::empty());
        assert(digits_value(dec(n).drop_last()) == Some(0nat));
    } else {
        lemma_dec_value(n / 10);
        assert(dec(n).drop_last() =~= dec(n / 10));
        lemma_digit(n % 10);
    }
}

/// Leading zeros do not change the value.
pub proof fn lemma_zeros_value(k: nat, s: Seq<char>)
    requires
        digits_value(s) is Some,
    ensures
        digits_value(zeros(k) + s) == digits_value(s),
    decreases s.len(), k,
{
    let t = zeros(k) + s;
    if s.len() == 0 {
        assert(t =~= zeros(k));
        if k > 0 {
            assert(t.drop_last() =~= zeros((k - 1) as nat) + s);
            lemma_zeros_value((k - 1) as nat, s);
        }
    } else {
        lemma_zeros_value(k, s.drop_last());
        assert(t.drop_last() =~= zeros(k) + s.drop_last());
    }
}

/// The length of a number in decimal grows with the number.
pub proof fn lemma_dec_len(n: nat)
    ensures
        n < 10 ==> dec(n).len() == 1,
        10 <= n < 100 ==> dec(n).len() == 2,
        100 <= n < 1000 ==> dec(n).len() == 3,
        1000 <= n < 10000 ==> dec(n).len() == 4,
        n >= 10000 ==> dec(n).len() >= 5,
    decreases n,
{
    if n >= 10 {
        lemma_dec_len(n / 10);
    }
}

/// Of two runs of digits of the same length, the one with the smaller value has the
/// smaller digit at the first place where they differ.
pub proof fn lemma_digits_order(a: Seq<char>, b: Seq<char>)
    requires
        a.len() == b.len(),
        digits_value(a) is Some,
        digits_value(b) is Some,
    ensures
        digits_value(a) == digits_value(b) ==> a == b,
        digits_value(a)->0 < digits_value(b)->0 ==> exists|i: int|
            i < a.len() && smaller_from(a, b, i),
    decreases a.len(),
{
    if a.len() == 0 {
        assert(a =~= b);
    } else {
        let a1 = a.drop_last();
        let b1 = b.drop_last();
        let n = a.len() - 1;
        lemma_digits_order(a1, b1);
        if a1 == b1 {
            assert(a.take(n) =~= a1);
            assert(b.take(n) =~= b1);
            assert(a =~= a1.push(a.last()));
            assert(b =~= b1.push(b.last()));
            if digits_value(a)->0 < digits_value(b)->0 {
                assert(smaller_from(a, b, n));
            }
        } else if digits_value(a1)->0 < digits_value(b1)->0 {
            let i = choose|i: int| i < a1.len() && smaller_from(a1, b1, i);
            assert(a.take(i) =~= a1.take(i));
            assert(b.take(i) =~= b1.take(i));
            assert(smaller_from(a, b, i));
        } else {
            lemma_digits_order(b1, a1);
        }
    }
}

/// A number below a hundred takes two places with padding, one below ten
/// thousand four.
pub proof fn lemma_padded(n: nat, w: nat)
    requires
        (w == 2 && n < 100) || (w == 4 && n < 10000),
    ensures
        padded(n, w).len() == w,
        digits_value(padded(n, w)) == Some(n),
        forall|i: int| 0 <= i < w ==> is_digit(#[trigger] padded(n, w)[i]),
        parse_up_to(padded(n, w), u64::MAX as nat) == Some(n),
{
    lemma_dec_len(n);
    lemma_dec_value(n);
    lemma_zeros_value((w - dec(n).len()) as nat, dec(n));
    assert forall|i: int| 0 <= i < w implies is_digit(#[trigger] padded(n, w)[i]) by {
        if i < w - dec(n).len() {
        } else {
            assert(padded(n, w)[i] == dec(n)[i - (w - dec(n).len())]);
        }
    }
    assert(is_digit(padded(n, w)[0]));
}

/// The value of a run of digits is at least that of any run it begins with.
pub proof fn lemma_digits_prefix(s: Seq<char>, i: int)
    requires
        0 <= i <= s.len(),
        digits_value(s) is Some,
    ensures
        digits_value(s.take(i)) is Some,
        digits_value(s.take(i))->0 <= digits_value(s)->0,
    decreases s.len(),
{
    if i == s.len() {
        assert(s.take(i) =~= s);
    } else {
        lemma_digits_prefix(s.drop_last(), i);
        assert(s.drop_last().take(i) =~= s.take(i));
    }
}

/// The decimal digit of a number below ten.
pub fn digit_of(d: u8) -> (c: char)
    requires
        d < 10,
    ensures
        c == digit(d as nat),
{
    (48 + d) as char
}

/// Appends a number in decimal.
pub fn push_dec(s: &mut String, n: u128)
    ensures
        final(s)@ == old(s)@ + dec(n as nat),
    decreases n,
{
    if n >= 10 {
        push_dec(s, n / 10);
    }
    s.push(digit_of((n % 10) as u8));
    assert(s@ =~= old(s)@ + dec(n as nat));
}

/// A number in decimal.
pub fn decimal(n: u128) -> (s: String)
    ensures
        s@ == dec(n as nat),
{
    let mut s = String::new();
    push_dec(&mut s, n);
    assert(s@ =~= dec(n as nat));
    s
}

/// Appends a number in decimal with leading zeros up to a width of two or four.
pub fn push_padded(s: &mut String, n: u64, w: usize)
    requires
        w == 2 || w == 4,
    ensures
        final(s)@ == old(s)@ + padded(n as nat, w as nat),
{
    proof {
        lemma_dec_len(n as nat);
    }
    let width: usize = if n < 10 {
        1
    } else if n < 100 {
        2
    } else if n < 1000 {
        3
    } else {
        4
    };
    let ghost start = s@;
    let mut k: usize = width;
    while k < w
        invariant
            width <= k,
            k <= w || k == width,
            s@ == start + zeros((k - width) as nat),
        decreases w - k,
    {
        s.push('0');
        k += 1;
        assert(s@ =~= start + zeros((k - width) as nat));
    }
    push_dec(s, n as u128);
    assert(s@ =~= start + padded(n as nat, w as nat));
}

/// The number that `s` names, if it is at most `max`.
pub fn parse_number(s: &[char], max: u64) -> (r: Option<u64>)
    ensures
        (match r {
            Some(v) => parse_up_to(s@, max as nat) == Some(v as nat),
            None => parse_up_to(s@, max as nat) is None,
        }),
{
    let t = if s.len() > 0 && s[0] == '+' {
        let rest = slice_subrange(s, 1, s.len());
        assert(rest@ == s@.drop_first());
        rest
    } else {
        s
    };
    if t.len() == 0 {
        return None;
    }
    let mut v: u64 = 0;
    let mut i: usize = 0;
    while i < t.len()
        invariant
            t@ == unsigned_part(s@),
            t@.len() > 0,
            i <= t@.len(),
            digits_value(t@.take(i as int)) == Some(v as nat),
            v <= max,
        decreases t@.len() - i,
    {
        let c = t[i];
        assert(t@.take(i + 1).drop_last() =~= t@.take(i as int));
        if c < '0' || c > '9' {
            proof {
                if digits_value(t@) is Some {
                    lemma_digits_prefix(t@, i + 1);
                }
            }
            return None;
        }
        let next: u128 = 10 * (v as u128) + (c as u32 - 48) as u128;
        if next > max as u128 {
            proof {
                if digits_value(t@) is Some {
                    lemma_digits_prefix(t@, i + 1);
                }
            }
            return None;
        }
        v = next as u64;
        i += 1;
    }
    assert(t@.take(t@.len() as int) =~= t@);
    Some(v)
}

// ---------------------------------------------------------------------------
// Hexadecimal
// ---------------------------------------------------------------------------

/// The lowercase hexadecimal digit of a number below sixteen.
pub open spec fn hex_digit(d: nat) -> char {
    if d < 10 {
        digit(d)
    } else {
        (('a' as u8) + (d - 10)) as char
    }
}

/// The uppercase hexadecimal digit of a number below sixteen.
pub open spec fn upper_hex_digit(d: nat) -> char {
    if d < 10 {
        digit(d)
    } else {
        (('A' as u8) + (d - 10)) as char
    }
}

/// The value of a hexadecimal digit of either case.
pub open spec fn hex_value(c: char) -> Option<nat> {
    if is_digit(c) {
        Some(digit_value(c))
    } else if 'a' <= c <= 'f' {
        Some((c as int - 'a' as int + 10) as nat)
    } else if 'A' <= c <= 'F' {
        Some((c as int - 'A' as int + 10) as nat)
    } else {
        None
    }
}

/// The byte that two characters name in hexadecimal: two digits, or a plus sign
/// and one digit.
pub open spec fn hex_pair(a: char, b: char) -> Option<nat> {
    if a == '+' {
        hex_value(b)
    } else {
        match (hex_value(a), hex_value(b)) {
            (Some(x), Some(y)) => Some(16 * x + y),
            _ => None,
        }
    }
}

/// Bytes in lowercase hexadecimal, two digits each.
pub open spec fn hex(bytes: Seq<u8>) -> Seq<char>
    decreases bytes.len(),
{
    if bytes.len() == 0 {
        seq![]
    } else {
        hex(bytes.drop_last()).push(hex_digit((bytes.last() / 16) as nat)).push(
            hex_digit((bytes.last() % 16) as nat),
        )
    }
}

/// The lowercase hexadecimal digits: `0` to `9` and `a` to `f`.
pub open spec fn is_lower_hex(c: char) -> bool {
    is_digit(c) || 'a' <= c <= 'f'
}

/// Hexadecimal text is twice as long as the bytes and holds only lowercase
/// hexadecimal digits.
pub proof fn lemma_hex(bytes: Seq<u8>)
    ensures
        hex(bytes).len() == 2 * bytes.len(),
        forall|i: int| 0 <= i < hex(bytes).len() ==> is_lower_hex(#[trigger] hex(bytes)[i]),
    decreases bytes.len(),
{
    if bytes.len() > 0 {
        lemma_hex(bytes.drop_last());
        let before = hex(bytes.drop_last());
        assert forall|i: int| 0 <= i < hex(bytes).len() implies is_lower_hex(
            #[trigger] hex(bytes)[i],
        ) by {
            if i < before.len() {
                assert(hex(bytes)[i] == before[i]);
            }
        }
    }
}

/// Reading two uppercase hexadecimal digits gives the byte back.
pub proof fn lemma_hex_pair(b: u8)
    ensures
        hex_pair(upper_hex_digit((b / 16) as nat), upper_hex_digit((b % 16) as nat)) == Some(
            b as nat,
        ),
{
}

/// The lowercase hexadecimal digit of a number below sixteen.
pub fn hex_digit_of(d: u8) -> (c: char)
    requires
        d < 16,
    ensures
        c == hex_digit(d as nat),
{
    if d < 10 {
        (48 + d) as char
    } else {
        (87 + d) as char
    }
}

/// The uppercase hexadecimal digit of a number below sixteen.
pub fn upper_hex_digit_of(d: u8) -> (c: char)
    requires
        d < 16,
    ensures
        c == upper_hex_digit(d as nat),
{
    if d < 10 {
        (48 + d) as char
    } else {
        (55 + d) as char
    }
}

/// The value of a hexadecimal digit of either case.
pub fn hex_value_of(c: char) -> (r: Option<u8>)
    ensures
        (match r {
            Some(v) => v < 16 && hex_value(c) == Some(v as nat),
            None => hex_value(c) is None,
        }),
{
    if '0' <= c && c <= '9' {
        Some((c as u32 - 48) as u8)
    } else if 'a' <= c && c <= 'f' {
        Some((c as u32 - 87) as u8)
    } else if 'A' <= c && c <= 'F' {
        Some((c as u32 - 55) as u8)
    } else {
        None
    }
}

/// The byte that two characters name in hexadecimal.
pub fn hex_pair_of(a: char, b: char) -> (r: Option<u8>)
    ensures
        (match r {
            Some(v) => hex_pair(a, b) == Some(v as nat),
            None => hex_pair(a, b) is None,
        }),
{
    if a == '+' {
        return hex_value_of(b);
    }
    match (hex_value_of(a), hex_value_of(b)) {
        (Some(x), Some(y)) => Some(16 * x + y),
        _ => None,
    }
}

/// Bytes in lowercase hexadecimal, two digits each.
pub fn hex_of(bytes: &[u8]) -> (s: String)
    ensures
        s@ == hex(bytes@),
{
    let mut s = String::new();
    let mut i: usize = 0;
    while i < bytes.len()
        invariant
            i <= bytes@.len(),
            s@ == hex(bytes@.take(i as int)),
        decreases bytes@.len() - i,
    {
        assert(bytes@.take(i + 1).drop_last() =~= bytes@.take(i as int));
        s.push(hex_digit_of(bytes[i] / 16));
        s.push(hex_digit_of(bytes[i] % 16));
        i += 1;
    }
    assert(bytes@.take(bytes@.len() as int) =~= bytes@);
    s
}

} // verus!
