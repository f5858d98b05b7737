//! Percent encoding, query strings and form bodies.
use vstd::prelude::*;
use vstd::utf8::*;

use crate::number::{hex_pair, hex_pair_of, lemma_hex_pair, upper_hex_digit, upper_hex_digit_of};
use crate::split::{cut, lemma_split_once, pieces, split, split_once};
use crate::store::{inserted, PairSeq, Pairs};
use crate::text::{chars_of, lemma_find_any_from, same_chars, string_of, texts};

verus! {

// ---------------------------------------------------------------------------
// Encoding
// ---------------------------------------------------------------------------

/// The bytes that stand for themselves in a query: letters, digits and `-_.~`.
pub open spec fn is_unreserved(b: u8) -> bool {
    ||| 'A' as u8 <= b <= 'Z' as u8
    ||| 'a' as u8 <= b <= 'z' as u8
    ||| '0' as u8 <= b <= '9' as u8
    ||| b == '-' as u8
    ||| b == '_' as u8
    ||| b == '.' as u8
    ||| b == '~' as u8
}

/// What stands for one byte in a query.
pub open spec fn encoded_byte(b: u8) -> Seq<char> {
    if is_unreserved(b) {
        seq![b as char]
    } else {
        seq!['%', upper_hex_digit((b / 16) as nat), upper_hex_digit((b % 16) as nat)]
    }
}

/// Bytes in percent encoding.
pub open spec fn percent_encoded(bytes: Seq<u8>) -> Seq<char>
    decreases bytes.len(),
{
    if bytes.len() == 0 {
        seq![]
    } else {
        encoded_byte(bytes[0]) + percent_encoded(bytes.drop_first())
    }
}

/// The UTF-8 bytes of a text in percent encoding.
pub fn url_encode_query(s: &str) -> (r: String)
    ensures
        r@ == percent_encoded(encode_utf8(s@)),
{
    let bytes = s.as_bytes();
    let mut out = String::new();
    let mut i: usize = 0;
    assert(bytes@.skip(0) =~= bytes@);
    assert(out@ + percent_encoded(bytes@) =~= percent_encoded(bytes@));
    while i < bytes.len()
        invariant
            i <= bytes@.len(),
            percent_encoded(bytes@) == out@ + percent_encoded(bytes@.skip(i as int)),
        decreases bytes@.len() - i,
    {
        let b: u8 = bytes[i];
        let ghost before = out@;
        let c: char = b as char;
        if ('A' <= c && c <= 'Z') || ('a' <= c && c <= 'z') || ('0' <= c && c <= '9') || c == '-'
            || c == '_' || c == '.' || c == '~' {
            out.push(c);
        } else {
            out.push('%');
            out.push(upper_hex_digit_of(b / 16));
            out.push(upper_hex_digit_of(b % 16));
        }
        assert(out@ =~= before + encoded_byte(b));
        assert(bytes@.skip(i as int).drop_first() =~= bytes@.skip(i + 1));
        assert(percent_encoded(bytes@) =~= out@ + percent_encoded(bytes@.skip(i + 1)));
        i += 1;
    }
    assert(percent_encoded(bytes@) =~= out@);
    out
}

// ---------------------------------------------------------------------------
// Decoding
// ---------------------------------------------------------------------------

/// The character at a position of a percent escape; a zero where the text ends
/// before it.
pub open spec fn escape_char(bytes: Seq<u8>, i: int) -> char {
    if i < bytes.len() {
        bytes[i] as char
    } else {
        '0'
    }
}

/// What a percent escape at the beginning of `bytes` stands for: one character,
/// or nothing where its two characters are not hexadecimal.
pub open spec fn unescaped(bytes: Seq<u8>) -> Seq<char> {
    match hex_pair(escape_char(bytes, 1), escape_char(bytes, 2)) {
        Some(v) => seq![v as char],
        None => seq![],
    }
}

/// Percent-encoded bytes read back, one character for each byte.
pub open spec fn percent_decoded(bytes: Seq<u8>) -> Seq<char>
    decreases bytes.len(),
{
    if bytes.len() == 0 {
        seq![]
    } else if bytes[0] == '+' as u8 {
        seq![' '] + percent_decoded(bytes.skip(1))
    } else if bytes[0] == '%' as u8 {
        unescaped(bytes) + percent_decoded(
            bytes.skip(
                if bytes.len() < 3 {
                    bytes.len() as int
                } else {
                    3
                },
            ),
        )
    } else {
        seq![bytes[0] as char] + percent_decoded(bytes.skip(1))
    }
}

/// Percent-encoded text read back.
pub open spec fn decoded(s: Seq<char>) -> Seq<char> {
    percent_decoded(encode_utf8(s))
}

/// Reads percent-encoded text: `+` is a space, `%` and two hexadecimal digits
/// are one character, and every other byte is the character of its number.
pub fn url_decode(s: &str) -> (r: String)
    ensures
        r@ == decoded(s@),
{
    let bytes = s.as_bytes();
    let n: usize = bytes.len();
    let mut out = String::new();
    let mut i: usize = 0;
    assert(bytes@.skip(0) =~= bytes@);
    assert(out@ + percent_decoded(bytes@) =~= percent_decoded(bytes@));
    while i < n
        invariant
            n == bytes@.len(),
            i <= n,
            percent_decoded(bytes@) == out@ + percent_decoded(bytes@.skip(i as int)),
        decreases n - i,
    {
        let c: char = bytes[i] as char;
        let ghost before = out@;
        let ghost rest = bytes@.skip(i as int);
        if c == '+' {
            out.push(' ');
            assert(rest.skip(1) =~= bytes@.skip(i + 1));
            assert(percent_decoded(bytes@) =~= out@ + percent_decoded(bytes@.skip(i + 1)));
            i += 1;
        } else if c == '%' {
            let h1: char = if n - i > 1 {
                bytes[i + 1] as char
            } else {
                '0'
            };
            let h2: char = if n - i > 2 {
                bytes[i + 2] as char
            } else {
                '0'
            };
            match hex_pair_of(h1, h2) {
                Some(v) => out.push(v as char),
                None => {},
            }
            assert(out@ =~= before + unescaped(rest));
            let step: usize = if n - i < 3 {
                n - i
            } else {
                3
            };
            assert(rest.skip(step as int) =~= bytes@.skip(i + step));
            assert(percent_decoded(bytes@) =~= out@ + percent_decoded(bytes@.skip(i + step)));
            i += step;
        } else {
            out.push(c);
            assert(rest.skip(1) =~= bytes@.skip(i + 1));
            assert(percent_decoded(bytes@) =~= out@ + percent_decoded(bytes@.skip(i + 1)));
            i += 1;
        }
    }
    assert(percent_decoded(bytes@) =~= out@);
    out
}

/// The characters whose numbers are the given bytes.
pub open spec fn byte_chars(bytes: Seq<u8>) -> Seq<char> {
    Seq::new(bytes.len(), |i: int| bytes[i] as char)
}

/// The bytes of ASCII text.
pub open spec fn ascii_bytes(s: Seq<char>) -> Seq<u8> {
    Seq::new(s.len(), |i: int| s[i] as u8)
}

proof fn lemma_percent_round_trip(bytes: Seq<u8>)
    ensures
        is_ascii_chars(percent_encoded(bytes)),
        percent_decoded(ascii_bytes(percent_encoded(bytes))) == byte_chars(bytes),
    decreases bytes.len(),
{
    if bytes.len() == 0 {
        assert(percent_decoded(ascii_bytes(percent_encoded(bytes))) =~= byte_chars(bytes));
    } else {
        let b = bytes[0];
        let tail = bytes.drop_first();
        let enc = percent_encoded(bytes);
        lemma_percent_round_trip(tail);
        let piece = encoded_byte(b);
        assert(enc == piece + percent_encoded(tail));
        assert forall|i: int| 0 <= i < enc.len() implies '\0' <= #[trigger] enc[i] <= '\u{7f}' by {
            if i < piece.len() {
                assert(enc[i] == piece[i]);
            } else {
                assert(enc[i] == percent_encoded(tail)[i - piece.len()]);
            }
        }
        let ab = ascii_bytes(enc);
        assert(ab.skip(piece.len() as int) =~= ascii_bytes(percent_encoded(tail)));
        if is_unreserved(b) {
            assert(ab[0] == b);
            assert(percent_decoded(ab) =~= byte_chars(bytes));
        } else {
            lemma_hex_pair(b);
            assert(ab[0] == '%' as u8);
            assert(ab[1] as char == upper_hex_digit((b / 16) as nat));
            assert(ab[2] as char == upper_hex_digit((b % 16) as nat));
            assert(unescaped(ab) =~= seq![b as char]);
            assert(percent_decoded(ab) =~= byte_chars(bytes));
        }
    }
}

/// Decoding what `url_encode_query` wrote gives the bytes of the text back, one
/// character for each; ASCII text comes back as it was.
pub proof fn law_percent_round_trip(s: Seq<char>)
    ensures
        decoded(percent_encoded(encode_utf8(s))) == byte_chars(encode_utf8(s)),
        is_ascii_chars(s) ==> decoded(percent_encoded(encode_utf8(s))) == s,
{
    let bytes = encode_utf8(s);
    lemma_percent_round_trip(bytes);
    is_ascii_chars_encode_utf8(percent_encoded(bytes));
    assert(encode_utf8(percent_encoded(bytes)) =~= ascii_bytes(percent_encoded(bytes)));
    if is_ascii_chars(s) {
        is_ascii_chars_encode_utf8(s);
        assert(byte_chars(bytes) =~= s);
    }
}

/// Letters, digits and the four characters `-_.~` stand for themselves in a query, and
/// every other byte is a percent sign and two hexadecimal digits; bytes are encoded one
/// by one, in order.
pub proof fn law_encoding_byte_by_byte(bytes: Seq<u8>, more: Seq<u8>, b: u8)
    ensures
        percent_encoded(bytes + more) == percent_encoded(bytes) + percent_encoded(more),
        percent_encoded(seq![b]).len() == (if ('A' as u8 <= b <= 'Z' as u8) || ('a' as u8 <= b
            <= 'z' as u8) || ('0' as u8 <= b <= '9' as u8) || b == '-' as u8 || b == '_' as u8 || b
            == '.' as u8 || b == '~' as u8 {
            1nat
        } else {
            3nat
        }),
        percent_encoded(seq![b]).len() == 1 ==> percent_encoded(seq![b])[0] == b as char,
        percent_encoded(seq![b]).len() == 3 ==> percent_encoded(seq![b])[0] == '%' && hex_pair(
            percent_encoded(seq![b])[1],
            percent_encoded(seq![b])[2],
        ) == Some(b as nat),
    decreases bytes.len(),
{
    assert(seq![b].drop_first() =~= Seq::<u8>::empty());
    assert(percent_encoded(seq![b].drop_first()).len() == 0);
    assert(percent_encoded(seq![b]) =~= encoded_byte(b));
    lemma_hex_pair(b);
    if bytes.len() == 0 {
        assert(bytes + more =~= more);
        assert(percent_encoded(bytes) + percent_encoded(more) =~= percent_encoded(more));
    } else {
        law_encoding_byte_by_byte(bytes.drop_first(), more, b);
        assert((bytes + more).drop_first() =~= bytes.drop_first() + more);
        assert(percent_encoded(bytes + more) =~= percent_encoded(bytes) + percent_encoded(more));
    }
}

// ---------------------------------------------------------------------------
// Queries and forms
// ---------------------------------------------------------------------------

/// The value of a parameter among the `&`-separated pieces of a query from `i`
/// on: the first piece with that name counts, and one without an equals sign is
/// empty.
pub open spec fn param_from(ps: Seq<Seq<char>>, key: Seq<char>, i: int) -> Seq<char>
    decreases ps.len() - i,
{
    if i < 0 || i >= ps.len() {
        seq![]
    } else {
        match split_once(ps[i], "="@) {
            Some((name, value)) => if name == key {
                decoded(value)
            } else {
                param_from(ps, key, i + 1)
            },
            None => if ps[i] == key {
                seq![]
            } else {
                param_from(ps, key, i + 1)
            },
        }
    }
}

/// The value of a query parameter, decoded; empty where there is none.
pub fn get_query_param(query: &str, key: &str) -> (r: String)
    ensures
        r@ == param_from(split(query@, "&"@), key@, 0),
{
    let q = chars_of(query);
    let k = chars_of(key);
    let ps = pieces(q.as_slice(), "&");
    let mut i: usize = 0;
    while i < ps.len()
        invariant
            i <= ps@.len(),
            k@ == key@,
            texts(ps@) == split(query@, "&"@),
            param_from(texts(ps@), key@, 0) == param_from(texts(ps@), key@, i as int),
        decreases ps@.len() - i,
    {
        let piece = ps[i];
        assert(texts(ps@)[i as int] == piece@);
        match cut(piece, "=") {
            Some((name, value)) => {
                if same_chars(name, k.as_slice()) {
                    return url_decode(string_of(value).as_str());
                }
            },
            None => {
                if same_chars(piece, k.as_slice()) {
                    return String::new();
                }
            },
        }
        i += 1;
    }
    String::new()
}

/// The pairs of a form body: names and values decoded, pieces without an equals
/// sign passed over, and of two pieces with one name the later counts.
pub open spec fn form_pairs(ps: Seq<Seq<char>>) -> PairSeq
    decreases ps.len(),
{
    if ps.len() == 0 {
        seq![]
    } else {
        let before = form_pairs(ps.drop_last());
        match split_once(ps.last(), "="@) {
            None => before,
            Some((k, v)) => inserted(before, decoded(k), decoded(v)),
        }
    }
}

/// Reads a form body.
pub fn parse_form(body: &str) -> (p: Pairs)
    ensures
        p.wf(),
        p@ == form_pairs(split(body@, "&"@)),
{
    let b = chars_of(body);
    let ps = pieces(b.as_slice(), "&");
    let mut p = Pairs::new();
    let mut i: usize = 0;
    assert(texts(ps@).take(0) =~= Seq::<Seq<char>>::empty());
    while i < ps.len()
        invariant
            i <= ps@.len(),
            p.wf(),
            p@ == form_pairs(texts(ps@).take(i as int)),
        decreases ps@.len() - i,
    {
        assert(texts(ps@).take(i + 1).drop_last() =~= texts(ps@).take(i as int));
        match cut(ps[i], "=") {
            None => {},
            Some((k, v)) => {
                p.insert(
                    url_decode(string_of(k).as_str()),
                    url_decode(string_of(v).as_str()),
                );
            },
        }
        i += 1;
    }
    assert(texts(ps@).take(ps@.len() as int) =~= texts(ps@));
    p
}

/// Where the status of a Wind Tunnel runner is shown.
pub open spec fn status_url(hostname: Seq<char>) -> Seq<char> {
    "https://wind-tunnel-runner-status.holochain.org/status?hostname="@ + percent_encoded(
        encode_utf8(hostname),
    )
}

/// Where the status of a Wind Tunnel runner is shown.
pub fn wt_status_url(wt_hostname: &str) -> (r: String)
    ensures
        r@ == status_url(wt_hostname@),
{
    let mut out = String::new();
    out.append("https://wind-tunnel-runner-status.holochain.org/status?hostname=");
    out.append(url_encode_query(wt_hostname).as_str());
    assert(out@ =~= status_url(wt_hostname@));
    out
}

/// Encoded text has neither of the characters that stand between names and values.
pub proof fn lemma_encoded_characters(bytes: Seq<u8>)
    ensures
        !percent_encoded(bytes).contains('&'),
        !percent_encoded(bytes).contains('='),
    decreases bytes.len(),
{
    if bytes.len() > 0 {
        let tail = bytes.drop_first();
        let piece = encoded_byte(bytes[0]);
        let enc = percent_encoded(bytes);
        lemma_encoded_characters(tail);
        assert forall|i: int| 0 <= i < enc.len() implies enc[i] != '&' && enc[i] != '=' by {
            if i < piece.len() {
                assert(enc[i] == piece[i]);
            } else {
                assert(enc[i] == percent_encoded(tail)[i - piece.len()]);
            }
        }
    }
}

/// A query with one parameter that was encoded gives its value back, where that
/// is ASCII text.
pub proof fn law_query_round_trip(key: Seq<char>, value: Seq<char>)
    requires
        !key.contains('&'),
        !key.contains('='),
        is_ascii_chars(value),
    ensures
        param_from(
            split(key + seq!['='] + percent_encoded(encode_utf8(value)), "&"@),
            key,
            0,
        ) == value,
{
    let enc = percent_encoded(encode_utf8(value));
    let query = key + seq!['='] + enc;
    reveal_strlit("&");
    reveal_strlit("=");
    assert("&"@ =~= seq!['&']);
    assert("="@ =~= seq!['=']);
    lemma_encoded_characters(encode_utf8(value));
    assert forall|i: int| 0 <= i < query.len() implies !"&"@.contains(query[i]) by {
        if i < key.len() {
            assert(query[i] == key[i]);
        } else if i > key.len() {
            assert(query[i] == enc[i - key.len() - 1]);
        }
    }
    lemma_find_any_from(query, "&"@, 0);
    assert(split(query, "&"@) =~= seq![query]);
    lemma_split_once(key, '=', enc, "="@);
    law_percent_round_trip(value);
}

} // verus!
