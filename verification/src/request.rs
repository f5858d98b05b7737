//! The head of a request: its first line, its headers and its cookies.
use vstd::prelude::*;
use vstd::slice::slice_subrange;
use vstd::utf8::*;

use crate::number::{parse_number, parse_up_to};
use crate::split::{
    cut, lemma_split_once, lemma_trim_ends, lemma_trim_id, lines, lines_of, pieces, split,
    split_once, trim, trimmed,
};
use crate::text::{
    begins_with, bytes_after, chars_of, lemma_ascii_split, lemma_find_any_from, lowercase, opt,
    same_chars, split_at_byte, starts_with, string_of, texts, to_lowercase,
};

verus! {

/// The most that is read of a body, in bytes.
pub const BODY_LIMIT: usize = 1048576;

/// Method, path and query of a request line; `None` where it has no second word.
pub open spec fn request_line(line: Seq<char>) -> Option<(Seq<char>, Seq<char>, Seq<char>)> {
    match split_once(trim(line), " "@) {
        None => None,
        Some((method, rest)) => {
            let target = match split_once(rest, " "@) {
                None => rest,
                Some((first, _)) => first,
            };
            match split_once(target, "?"@) {
                None => Some((method, target, Seq::empty())),
                Some((path, query)) => Some((method, path, query)),
            }
        },
    }
}

/// The length that a lowered header line announces: zero where it is no number;
/// `None` for any other header.
pub open spec fn announced_length(lower: Seq<char>) -> Option<nat> {
    if starts_with(lower, "content-length:"@) {
        match parse_up_to(trim(lower.skip("content-length:"@.len() as int)), usize::MAX as nat) {
            Some(v) => Some(v),
            None => Some(0),
        }
    } else {
        None
    }
}

/// What is known of a request before its body is read.
#[derive(Debug, PartialEq, Eq)]
pub struct Head {
    pub method: String,
    pub path: String,
    pub query: String,
    /// The header lines as they came.
    pub headers: String,
    pub content_length: usize,
}

/// Reads the first line of a request.
pub fn begin_request(line: &str) -> (r: Option<Head>)
    ensures
        (match r {
            Some(h) => request_line(line@) == Some((h.method@, h.path@, h.query@)) && h.headers@
                == Seq::<char>::empty() && h.content_length == 0,
            None => request_line(line@) is None,
        }),
{
    let l = chars_of(line);
    match cut(trimmed(l.as_slice()), " ") {
        None => None,
        Some((method, rest)) => {
            let target = match cut(rest, " ") {
                None => rest,
                Some((first, _)) => first,
            };
            let (path, query) = match cut(target, "?") {
                None => (string_of(target), String::new()),
                Some((p, q)) => (string_of(p), string_of(q)),
            };
            Some(
                Head {
                    method: string_of(method),
                    path,
                    query,
                    headers: String::new(),
                    content_length: 0,
                },
            )
        },
    }
}

/// The length that a lowered header line announces.
fn length_in(lower: &str) -> (r: Option<usize>)
    ensures
        (match r {
            Some(n) => announced_length(lower@) == Some(n as nat),
            None => announced_length(lower@) is None,
        }),
{
    let l = chars_of(lower);
    let prefix = chars_of("content-length:");
    if !begins_with(l.as_slice(), prefix.as_slice()) {
        return None;
    }
    let value = slice_subrange(l.as_slice(), prefix.len(), l.len());
    assert(value@ =~= l@.skip("content-length:"@.len() as int));
    match parse_number(trimmed(value), usize::MAX as u64) {
        Some(n) => Some(n as usize),
        None => Some(0),
    }
}

impl Head {
    /// Takes in a header line, given with its lowered form; false at the blank
    /// line that ends the headers.
    pub fn add_lowered_line(&mut self, line: &str, lower: &str) -> (more: bool)
        ensures
            more == (trim(line@).len() > 0),
            final(self).method == old(self).method,
            final(self).path == old(self).path,
            final(self).query == old(self).query,
            !more ==> *final(self) == *old(self),
            more ==> final(self).headers@ == old(self).headers@ + line@,
            more ==> final(self).content_length == (match announced_length(lower@) {
                Some(n) => n,
                None => old(self).content_length as nat,
            }),
    {
        let l = chars_of(line);
        if trimmed(l.as_slice()).len() == 0 {
            return false;
        }
        match length_in(lower) {
            Some(n) => {
                self.content_length = n;
            },
            None => {},
        }
        self.headers.append(line);
        true
    }

    /// Takes in a header line; false at the blank line that ends the headers.
    pub fn add_line(&mut self, line: &str) -> (more: bool)
        ensures
            more == (trim(line@).len() > 0),
            final(self).method == old(self).method,
            final(self).path == old(self).path,
            final(self).query == old(self).query,
            !more ==> *final(self) == *old(self),
            more ==> final(self).headers@ == old(self).headers@ + line@,
            more ==> final(self).content_length == (match announced_length(lowercase(line@)) {
                Some(n) => n,
                None => old(self).content_length as nat,
            }),
    {
        let lower = to_lowercase(line);
        self.add_lowered_line(line, lower.as_str())
    }

    /// How many bytes of the body are read.
    pub fn body_len(&self) -> (n: usize)
        ensures
            n == (if self.content_length < BODY_LIMIT {
                self.content_length
            } else {
                BODY_LIMIT
            }),
            n <= 1048576,
            n <= self.content_length,
            n < self.content_length ==> n == 1048576,
    {
        if self.content_length < BODY_LIMIT {
            self.content_length
        } else {
            BODY_LIMIT
        }
    }
}

/// A request with its body.
#[derive(Debug, PartialEq, Eq)]
pub struct Req {
    pub method: String,
    pub path: String,
    pub query: String,
    pub headers: String,
    pub body: String,
}

impl Head {
    /// The request that the head and a body make.
    pub fn with_body(self, body: String) -> (r: Req)
        ensures
            r.method == self.method,
            r.path == self.path,
            r.query == self.query,
            r.headers == self.headers,
            r.body == body,
    {
        Req {
            method: self.method,
            path: self.path,
            query: self.query,
            headers: self.headers,
            body,
        }
    }
}

// ---------------------------------------------------------------------------
// Cookies
// ---------------------------------------------------------------------------

/// The value of the first cookie with a name among `;`-separated pieces, from
/// the `i`th on.
pub open spec fn cookie_from(ps: Seq<Seq<char>>, name: Seq<char>, i: int) -> Option<Seq<char>>
    decreases ps.len() - i,
{
    if i < 0 || i >= ps.len() {
        None
    } else {
        match split_once(trim(ps[i]), "="@) {
            Some((k, v)) => if trim(k) == name {
                Some(trim(v))
            } else {
                cookie_from(ps, name, i + 1)
            },
            None => cookie_from(ps, name, i + 1),
        }
    }
}

/// The value of a cookie in a header line, given with its lowered form: the line
/// has to be a `Cookie:` header, and its first seven bytes are passed over.
pub open spec fn cookie_in_header(line: Seq<char>, lower: Seq<char>, name: Seq<char>) -> Option<
    Seq<char>,
> {
    if starts_with(lower, "cookie:"@) && is_char_boundary(encode_utf8(line), 7) {
        cookie_from(split(trim(bytes_after(line, 7)), ";"@), name, 0)
    } else {
        None
    }
}

/// The value of a cookie in the header lines from the `i`th on.
pub open spec fn cookie_in_lines(ls: Seq<Seq<char>>, name: Seq<char>, i: int) -> Option<Seq<char>>
    decreases ls.len() - i,
{
    if i < 0 || i >= ls.len() {
        None
    } else {
        match cookie_in_header(ls[i], lowercase(ls[i]), name) {
            Some(v) => Some(v),
            None => cookie_in_lines(ls, name, i + 1),
        }
    }
}

/// The value of a cookie in a header line, given with its lowered form.
pub fn cookie_in_line(line: &str, lower: &str, name: &str) -> (r: Option<String>)
    ensures
        opt(r) == cookie_in_header(line@, lower@, name@),
{
    let low = chars_of(lower);
    let prefix = chars_of("cookie:");
    if !begins_with(low.as_slice(), prefix.as_slice()) {
        return None;
    }
    let (_, value) = match split_at_byte(line, 7) {
        Some(parts) => parts,
        None => return None,
    };
    let wanted = chars_of(name);
    let v = chars_of(value.as_str());
    let ps = pieces(trimmed(v.as_slice()), ";");
    let ghost all = texts(ps@);
    let mut i: usize = 0;
    while i < ps.len()
        invariant
            i <= ps@.len(),
            all == texts(ps@),
            wanted@ == name@,
            cookie_in_header(line@, lower@, name@) == cookie_from(all, name@, i as int),
        decreases ps@.len() - i,
    {
        assert(all[i as int] == ps@[i as int]@);
        match cut(trimmed(ps[i]), "=") {
            Some((k, value)) => {
                if same_chars(trimmed(k), wanted.as_slice()) {
                    return Some(string_of(trimmed(value)));
                }
            },
            None => {},
        }
        i += 1;
    }
    None
}

/// The value of a cookie in the headers of a request.
pub fn get_cookie(headers: &str, name: &str) -> (r: Option<String>)
    ensures
        opt(r) == cookie_in_lines(lines(headers@), name@, 0),
{
    let h = chars_of(headers);
    let ls = lines_of(h.as_slice());
    let ghost all = texts(ls@);
    let mut i: usize = 0;
    while i < ls.len()
        invariant
            i <= ls@.len(),
            all == texts(ls@),
            all == lines(headers@),
            cookie_in_lines(all, name@, 0) == cookie_in_lines(all, name@, i as int),
        decreases ls@.len() - i,
    {
        assert(all[i as int] == ls@[i as int]@);
        let line = string_of(ls[i]);
        let lower = to_lowercase(line.as_str());
        match cookie_in_line(line.as_str(), lower.as_str(), name) {
            Some(v) => return Some(v),
            None => {},
        }
        i += 1;
    }
    None
}

/// A cookie that a browser sends back in a header of its own is found there with
/// its value.
pub proof fn law_cookie_found(name: Seq<char>, value: Seq<char>, lower: Seq<char>)
    requires
        is_ascii_chars(name),
        is_ascii_chars(value),
        name.len() > 0,
        trim(name) == name,
        trim(value) == value,
        !name.contains('='),
        !name.contains(';'),
        !value.contains(';'),
        starts_with(lower, "cookie:"@),
    ensures
        cookie_in_header("Cookie: "@ + name + "="@ + value, lower, name) == Some(value),
{
    reveal_strlit("Cookie: ");
    reveal_strlit("=");
    reveal_strlit(";");
    assert("="@ =~= seq!['=']);
    assert(";"@ =~= seq![';']);
    let line = "Cookie: "@ + name + "="@ + value;
    let pair = name + seq!['='] + value;
    assert(is_ascii_chars(line)) by {
        assert forall|i: int| 0 <= i < line.len() implies '\0' <= #[trigger] line[i]
            <= '\u{7f}' by {
            if 8 <= i < 8 + name.len() {
                assert(line[i] == name[i - 8]);
            } else if i > 8 + name.len() {
                assert(line[i] == value[i - 9 - name.len()]);
            }
        }
    }
    lemma_ascii_split(line, 7);
    let rest = line.skip(7);
    assert(rest =~= seq![' '] + pair);
    lemma_trim_ends(name);
    lemma_trim_ends(value);
    assert(pair[0] == name[0]);
    assert(pair.last() == (if value.len() > 0 {
        value.last()
    } else {
        '='
    }));
    lemma_trim_id(pair);
    assert(rest.drop_first() =~= pair);
    assert(trim(rest) == pair);
    assert forall|i: int| 0 <= i < pair.len() implies !";"@.contains(pair[i]) by {
        assert(pair[i] != ';') by {
            if i < name.len() {
                assert(pair[i] == name[i]);
            } else if i > name.len() {
                assert(pair[i] == value[i - name.len() - 1]);
            }
        }
    }
    lemma_find_any_from(pair, ";"@, 0);
    assert(split(pair, ";"@) =~= seq![pair]);
    lemma_split_once(name, '=', value, "="@);
}

} // verus!
