//! Reading fields out of JSON text by key.
//!
//! The readers look for the key as text and take what follows it; they do not
//! check that the text around it is well formed.
use vstd::prelude::*;
use vstd::slice::slice_subrange;

use crate::escape::{escaped, json_escape, Escape};
use crate::split::{cut, split_once, trim_start, trimmed_start};
use crate::text::{
    chars_of, contains_text, find, find_any, index_of, index_of_any, lemma_find_any_from,
    lemma_find_any_is, lemma_find_from, lemma_find_is, matches_at, occurs, same, starts_with,
    string_of,
};

verus! {

/// A key in its double quotes.
pub open spec fn quoted(key: Seq<char>) -> Seq<char> {
    seq!['"'] + key + seq!['"']
}

/// A key in its double quotes with the colon that follows.
pub open spec fn keyed(key: Seq<char>) -> Seq<char> {
    seq!['"'] + key + seq!['"', ':']
}

/// What follows the first place where `pat` stands.
pub open spec fn after(s: Seq<char>, pat: Seq<char>) -> Option<Seq<char>> {
    match find(s, pat) {
        None => None,
        Some(p) => Some(s.skip(p + pat.len())),
    }
}

/// What stands between the double quote that `s` begins with and the next one;
/// empty where either is missing.
pub open spec fn quoted_value(s: Seq<char>) -> Seq<char> {
    if s.len() > 0 && s[0] == '"' {
        match find_any(s.drop_first(), "\""@) {
            None => seq![],
            Some(q) => s.drop_first().take(q),
        }
    } else {
        seq![]
    }
}

/// The position at which the brackets opened from `i` on, and the `depth` that
/// were open before, are all closed.
pub open spec fn block_end(s: Seq<char>, open: char, close: char, i: int, depth: int) -> Option<int>
    decreases s.len() - i,
{
    if i < 0 || i >= s.len() {
        None
    } else if s[i] == open {
        block_end(s, open, close, i + 1, depth + 1)
    } else if s[i] == close {
        if depth == 1 {
            Some(i)
        } else {
            block_end(s, open, close, i + 1, depth - 1)
        }
    } else {
        block_end(s, open, close, i + 1, depth)
    }
}

/// The bracketed text that `s` begins with, up to the bracket that closes the
/// first one; empty where `s` does not begin with one or it is never closed.
pub open spec fn block(s: Seq<char>, open: char, close: char) -> Seq<char> {
    if s.len() > 0 && s[0] == open {
        match block_end(s, open, close, 0, 0) {
            None => seq![],
            Some(i) => s.take(i + 1),
        }
    } else {
        seq![]
    }
}

/// The string under a key: what stands in double quotes after the first colon
/// behind the first occurrence of the quoted key, with only white space between.
pub open spec fn string_field(json: Seq<char>, key: Seq<char>) -> Seq<char> {
    match after(json, quoted(key)) {
        None => seq![],
        Some(rest) => match split_once(rest, ":"@) {
            None => seq![],
            Some((_, value)) => quoted_value(trim_start(value)),
        },
    }
}

/// The string under a key that a colon follows directly.
pub open spec fn tight_string_field(json: Seq<char>, key: Seq<char>) -> Seq<char> {
    match after(json, keyed(key)) {
        None => seq![],
        Some(rest) => quoted_value(trim_start(rest)),
    }
}

/// The object under a key that a colon follows directly.
pub open spec fn object_field(json: Seq<char>, key: Seq<char>) -> Seq<char> {
    match after(json, keyed(key)) {
        None => seq![],
        Some(rest) => block(trim_start(rest), '{', '}'),
    }
}

/// The string, object or array under a key that a colon follows directly; a
/// string without its quotes.
pub open spec fn raw_field(json: Seq<char>, key: Seq<char>) -> Seq<char> {
    match after(json, keyed(key)) {
        None => seq![],
        Some(rest) => {
            let value = trim_start(rest);
            if value.len() > 0 && value[0] == '"' {
                quoted_value(value)
            } else if value.len() > 0 && value[0] == '{' {
                block(value, '{', '}')
            } else {
                block(value, '[', ']')
            }
        },
    }
}

/// The string under `inner` in the object under `outer`.
pub open spec fn nested_field(json: Seq<char>, outer: Seq<char>, inner: Seq<char>) -> Seq<char> {
    let part = object_field(json, outer);
    if part.len() == 0 {
        seq![]
    } else {
        string_field(part, inner)
    }
}

/// The truth under a key: `default` where the quoted key does not occur, else
/// true unless the string under it is `false` or `0`.
pub open spec fn flag_field(json: Seq<char>, key: Seq<char>, default: bool) -> bool {
    if !occurs(json, quoted(key)) {
        default
    } else {
        string_field(json, key) != "false"@ && string_field(json, key) != "0"@
    }
}

// ---------------------------------------------------------------------------
// Readers on character slices
// ---------------------------------------------------------------------------

/// A key in its double quotes.
fn quote(key: &str) -> (v: Vec<char>)
    ensures
        v@ == quoted(key@),
{
    let mut v: Vec<char> = vec!['"'];
    let mut k = chars_of(key);
    v.append(&mut k);
    v.push('"');
    assert(v@ =~= quoted(key@));
    v
}

/// A key in its double quotes with the colon that follows.
fn quote_colon(key: &str) -> (v: Vec<char>)
    ensures
        v@ == keyed(key@),
{
    let mut v = quote(key);
    v.push(':');
    assert(v@ =~= keyed(key@));
    v
}

/// The empty beginning of a slice.
fn nothing(s: &[char]) -> (r: &[char])
    ensures
        r@ == Seq::<char>::empty(),
{
    let r = slice_subrange(s, 0, 0);
    assert(r@ =~= Seq::<char>::empty());
    r
}

/// What follows the first place where `pat` stands.
pub fn rest_after<'a>(s: &'a [char], pat: &[char]) -> (r: Option<&'a [char]>)
    ensures
        (match r {
            Some(t) => after(s@, pat@) == Some(t@),
            None => after(s@, pat@) is None,
        }),
{
    let n: usize = pat.len();
    let end: usize = s.len();
    match index_of(s, pat) {
        None => None,
        Some(p) => {
            let t = slice_subrange(s, p + n, end);
            assert(t@ =~= s@.skip(p + pat@.len()));
            Some(t)
        },
    }
}

/// What stands between the double quote that `s` begins with and the next one.
pub fn quoted_text(s: &[char]) -> (r: &[char])
    ensures
        r@ == quoted_value(s@),
{
    if s.len() > 0 && s[0] == '"' {
        let inner = slice_subrange(s, 1, s.len());
        assert(inner@ =~= s@.drop_first());
        match index_of_any(inner, "\"") {
            None => nothing(s),
            Some(q) => {
                let r = slice_subrange(inner, 0, q);
                assert(r@ =~= inner@.take(q as int));
                r
            },
        }
    } else {
        nothing(s)
    }
}

/// The bracketed text that `s` begins with.
pub fn block_text(s: &[char], open: char, close: char) -> (r: &[char])
    requires
        open != close,
    ensures
        r@ == block(s@, open, close),
{
    if s.len() == 0 || s[0] != open {
        return nothing(s);
    }
    let mut depth: usize = 0;
    let mut i: usize = 0;
    while i < s.len()
        invariant
            open != close,
            s@.len() > 0,
            s@[0] == open,
            i <= s@.len(),
            depth <= i,
            i > 0 ==> depth > 0,
            block_end(s@, open, close, 0, 0) == block_end(s@, open, close, i as int, depth as int),
        decreases s@.len() - i,
    {
        if s[i] == open {
            depth += 1;
        } else if s[i] == close {
            if depth == 1 {
                let r = slice_subrange(s, 0, i + 1);
                assert(r@ =~= s@.take(i + 1));
                return r;
            }
            depth -= 1;
        }
        i += 1;
    }
    nothing(s)
}

/// The string under a key.
pub fn string_in<'a>(json: &'a [char], key: &str) -> (r: &'a [char])
    ensures
        r@ == string_field(json@, key@),
{
    let needle = quote(key);
    match rest_after(json, needle.as_slice()) {
        None => nothing(json),
        Some(rest) => match cut(rest, ":") {
            None => nothing(json),
            Some((_, value)) => quoted_text(trimmed_start(value)),
        },
    }
}

/// The object under a key.
pub fn object_in<'a>(json: &'a [char], key: &str) -> (r: &'a [char])
    ensures
        r@ == object_field(json@, key@),
{
    let needle = quote_colon(key);
    match rest_after(json, needle.as_slice()) {
        None => nothing(json),
        Some(rest) => block_text(trimmed_start(rest), '{', '}'),
    }
}

// ---------------------------------------------------------------------------
// Readers on strings
// ---------------------------------------------------------------------------

/// The string under a key that a colon follows directly, or the empty string.
pub fn extract_json_str(json: &str, key: &str) -> (r: String)
    ensures
        r@ == tight_string_field(json@, key@),
{
    let j = chars_of(json);
    let needle = quote_colon(key);
    match rest_after(j.as_slice(), needle.as_slice()) {
        None => String::new(),
        Some(rest) => string_of(quoted_text(trimmed_start(rest))),
    }
}

/// Whether the quoted key occurs.
pub fn json_has_key(json: &str, key: &str) -> (r: bool)
    ensures
        r == occurs(json@, quoted(key@)),
{
    let j = chars_of(json);
    let needle = quote(key);
    contains_text(j.as_slice(), needle.as_slice())
}

/// The string under a key, or the empty string.
pub fn json_str(json: &str, key: &str) -> (r: String)
    ensures
        r@ == string_field(json@, key@),
{
    let j = chars_of(json);
    string_of(string_in(j.as_slice(), key))
}

/// The truth under a key.
pub fn json_bool(json: &str, key: &str, default: bool) -> (r: bool)
    ensures
        r == flag_field(json@, key@, default),
{
    if !json_has_key(json, key) {
        return default;
    }
    let v = json_str(json, key);
    !(same(v.as_str(), "false") || same(v.as_str(), "0"))
}

/// The object under a key, or the empty string.
pub fn json_block(json: &str, key: &str) -> (r: String)
    ensures
        r@ == object_field(json@, key@),
{
    let j = chars_of(json);
    string_of(object_in(j.as_slice(), key))
}

/// The string under `inner` in the object under `outer`, or the empty string.
pub fn json_nested_str(json: &str, outer: &str, inner: &str) -> (r: String)
    ensures
        r@ == nested_field(json@, outer@, inner@),
{
    let j = chars_of(json);
    let part = object_in(j.as_slice(), outer);
    if part.len() == 0 {
        return String::new();
    }
    string_of(string_in(part, inner))
}

/// The string, object or array under a key, or the empty string.
pub fn json_raw_value(json: &str, key: &str) -> (r: String)
    ensures
        r@ == raw_field(json@, key@),
{
    let j = chars_of(json);
    let needle = quote_colon(key);
    match rest_after(j.as_slice(), needle.as_slice()) {
        None => String::new(),
        Some(rest) => {
            let value = trimmed_start(rest);
            if value.len() > 0 && value[0] == '"' {
                string_of(quoted_text(value))
            } else if value.len() > 0 && value[0] == '{' {
                string_of(block_text(value, '{', '}'))
            } else {
                string_of(block_text(value, '[', ']'))
            }
        },
    }
}

// ---------------------------------------------------------------------------
// Writing
// ---------------------------------------------------------------------------

/// A string under a name.
pub open spec fn member(name: Seq<char>, value: Seq<char>) -> Seq<char> {
    keyed(name) + quoted(escaped(value, Escape::Json))
}

/// Appends a string under a name.
pub fn push_member(out: &mut String, name: &str, value: &str)
    ensures
        final(out)@ == old(out)@ + member(name@, value@),
{
    out.push('"');
    out.append(name);
    out.push('"');
    out.push(':');
    out.push('"');
    out.append(json_escape(value).as_str());
    out.push('"');
    assert(out@ =~= old(out)@ + member(name@, value@));
}

// ---------------------------------------------------------------------------
// Looking for a quoted key
// ---------------------------------------------------------------------------

/// A pattern that begins with a quote is first looked for at the first quote, and
/// then behind it.
pub proof fn lemma_after_quote(seg: Seq<char>, rest: Seq<char>, w: Seq<char>)
    requires
        !seg.contains('"'),
    ensures
        after(seg + seq!['"'] + rest, seq!['"'] + w) == (if starts_with(rest, w) {
            Some(rest.skip(w.len() as int))
        } else {
            after(rest, seq!['"'] + w)
        }),
{
    let s = seg + seq!['"'] + rest;
    let pat = seq!['"'] + w;
    let n = seg.len() as int;
    assert forall|p: int| matches_at(s, pat, p) implies s[p] == '"' by {
        assert(s.subrange(p, p + pat.len())[0] == pat[0]);
    }
    assert forall|p: int| 0 <= p < n implies !matches_at(s, pat, p) by {
        if matches_at(s, pat, p) {
            assert(s[p] == '"');
            assert(s[p] == seg[p]);
        }
    }
    assert(matches_at(s, pat, n) == starts_with(rest, w)) by {
        if n + pat.len() <= s.len() {
            let part = s.subrange(n, n + pat.len());
            assert(part =~= seq!['"'] + rest.take(w.len() as int));
            assert(part.drop_first() =~= rest.take(w.len() as int));
            assert(pat.drop_first() =~= w);
            assert(rest.subrange(0, 0 + w.len() as int) =~= rest.take(w.len() as int));
        }
    }
    if starts_with(rest, w) {
        lemma_find_is(s, pat, 0, n);
        assert(s.skip(n + pat.len()) =~= rest.skip(w.len() as int));
    } else {
        assert forall|p: int| p > n implies matches_at(s, pat, p) == #[trigger] matches_at(
            rest,
            pat,
            p - n - 1,
        ) by {
            if p + pat.len() <= s.len() {
                assert(s.subrange(p, p + pat.len()) =~= rest.subrange(
                    p - n - 1,
                    p - n - 1 + pat.len(),
                ));
            }
        }
        lemma_find_from(rest, pat, 0);
        lemma_find_from(s, pat, 0);
        match find(rest, pat) {
            Some(r) => {
                let p = r + n + 1;
                assert(matches_at(rest, pat, p - n - 1));
                assert forall|j: int| 0 <= j < p implies !matches_at(s, pat, j) by {
                    if j > n {
                        assert(!matches_at(rest, pat, j - n - 1));
                    }
                }
                lemma_find_is(s, pat, 0, p);
                assert(s.skip(p + pat.len()) =~= rest.skip(r + pat.len()));
            },
            None => {
                match find(s, pat) {
                    Some(p) => {
                        assert(!matches_at(rest, pat, p - n - 1));
                    },
                    None => {},
                }
            },
        }
    }
}

/// Two texts without quotes that a quote follows are equal where one begins as
/// the other.
pub proof fn lemma_quoted_start(seg: Seq<char>, rest: Seq<char>, key: Seq<char>, x: Seq<char>)
    requires
        !seg.contains('"'),
        !key.contains('"'),
    ensures
        starts_with(seg + seq!['"'] + rest, key + seq!['"'] + x) == (seg == key && starts_with(
            rest,
            x,
        )),
{
    let s = seg + seq!['"'] + rest;
    let w = key + seq!['"'] + x;
    if starts_with(s, w) {
        let part = s.subrange(0, 0 + w.len() as int);
        assert forall|j: int| 0 <= j < w.len() implies s[j] == w[j] by {
            assert(part[j] == w[j]);
        }
        if seg.len() < key.len() {
            assert(s[seg.len() as int] == '"');
            assert(key[seg.len() as int] == '"');
        } else if key.len() < seg.len() {
            assert(w[key.len() as int] == '"');
            assert(seg[key.len() as int] == '"');
        } else {
            assert(seg =~= key) by {
                assert forall|j: int| 0 <= j < seg.len() implies seg[j] == key[j] by {
                    assert(s[j] == w[j]);
                }
            }
            assert forall|j: int| 0 <= j < x.len() implies rest[j] == x[j] by {
                assert(s[seg.len() + 1 + j] == w[seg.len() + 1 + j]);
            }
            assert(rest.subrange(0, 0 + x.len() as int) =~= x);
        }
    } else if seg == key && starts_with(rest, x) {
        assert(s.subrange(0, 0 + w.len() as int) =~= w) by {
            let part = rest.subrange(0, 0 + x.len() as int);
            assert forall|j: int| 0 <= j < x.len() implies rest[j] == x[j] by {
                assert(part[j] == x[j]);
            }
        }
    }
}

/// A text in quotes at the beginning is the one found there.
pub proof fn lemma_quoted_value(value: Seq<char>, rest: Seq<char>)
    requires
        !value.contains('"'),
    ensures
        quoted_value(trim_start(quoted(value) + rest)) == value,
{
    let s = quoted(value) + rest;
    assert(s[0] == '"');
    assert(trim_start(s) == s);
    reveal_strlit("\"");
    assert("\""@ =~= seq!['"']);
    assert("\""@[0] == '"');
    let t = s.drop_first();
    assert(t =~= value + seq!['"'] + rest);
    assert forall|j: int| 0 <= j < value.len() implies !"\""@.contains(t[j]) by {
        assert(t[j] == value[j]);
        if "\""@.contains(t[j]) {
            assert(value.contains('"'));
        }
    }
    lemma_find_any_is(t, "\""@, 0, value.len() as int);
    assert(t.take(value.len() as int) =~= value);
}

/// A string that was read has no quotes in it.
pub proof fn lemma_string_field_plain(json: Seq<char>, key: Seq<char>)
    ensures
        !string_field(json, key).contains('"'),
{
    reveal_strlit("\"");
    assert("\""@ =~= seq!['"']);
    assert("\""@[0] == '"');
    match after(json, quoted(key)) {
        None => {},
        Some(rest) => match split_once(rest, ":"@) {
            None => {},
            Some((_, value)) => {
                let s = trim_start(value);
                if s.len() > 0 {
                    lemma_find_any_from(s.drop_first(), "\""@, 0);
                }
            },
        },
    }
}

} // verus!
