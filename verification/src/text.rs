//! Text as sequences of characters: searching, trimming, splitting and escaping.
//!
//! Every function here works on `&[char]`; `chars_of` and `string_of` lead in
//! and out. The spec functions say what each operation means on `Seq<char>`.
use vstd::prelude::*;
use vstd::slice::slice_subrange;
use vstd::utf8::*;

verus! {

/// `String::push`: appends one character to the end of the string.
pub assume_specification[ String::push ](s: &mut String, c: char)
    ensures
        final(s)@ == old(s)@.push(c),
;

/// What `str::to_lowercase` returns: the text with each character replaced by
/// its Unicode lowercase mapping.
pub uninterp spec fn lowercase(s: Seq<char>) -> Seq<char>;

/// The ASCII lowercase letter of an ASCII uppercase letter; any other character
/// stays as it is.
pub open spec fn ascii_lower(c: char) -> char {
    if 'A' <= c <= 'Z' {
        ((c as u8) + 32) as char
    } else {
        c
    }
}

/// Calls `str::to_lowercase`. The result depends on the text alone and has the
/// name `lowercase`; on ASCII text it is the text with `A` to `Z` replaced by
/// `a` to `z`. What the Unicode tables say of other characters is left unsaid.
#[verifier::external_body]
pub(crate) fn to_lowercase(s: &str) -> (r: String)
    ensures
        r@ == lowercase(s@),
        is_ascii_chars(s@) ==> r@ == s@.map_values(|c: char| ascii_lower(c)),
{
    s.to_lowercase()
}

// ---------------------------------------------------------------------------
// Conversions
// ---------------------------------------------------------------------------

/// The characters of a string.
pub fn chars_of(s: &str) -> (v: Vec<char>)
    ensures
        v@ == s@,
{
    let mut v: Vec<char> = Vec::new();
    for c in it: s.chars()
        invariant
            v@ == s@.take(it.index() as int),
            it.seq() == s@,
    {
        v.push(c);
        assert(s@.take(it.index() + 1) == s@.take(it.index() as int).push(c));
    }
    assert(s@.take(s@.len() as int) == s@);
    v
}

/// The string made of the given characters.
pub fn string_of(v: &[char]) -> (s: String)
    ensures
        s@ == v@,
{
    let mut s = String::new();
    let mut i: usize = 0;
    while i < v.len()
        invariant
            i <= v.len(),
            s@ == v@.take(i as int),
        decreases v.len() - i,
    {
        s.push(v[i]);
        i += 1;
        assert(v@.take(i as int) == v@.take(i - 1).push(v@[i - 1]));
    }
    assert(v@.take(v@.len() as int) == v@);
    s
}

/// The string with its ASCII uppercase letters replaced by lowercase ones.
pub fn ascii_lowered(s: &str) -> (r: String)
    ensures
        r@ == s@.map_values(|c: char| ascii_lower(c)),
{
    let v = chars_of(s);
    let mut out = String::new();
    let mut i: usize = 0;
    while i < v.len()
        invariant
            i <= v@.len(),
            v@ == s@,
            out@ =~= s@.take(i as int).map_values(|c: char| ascii_lower(c)),
        decreases v@.len() - i,
    {
        let c = v[i];
        out.push(
            if 'A' <= c && c <= 'Z' {
                (c as u8 + 32) as char
            } else {
                c
            },
        );
        i += 1;
    }
    assert(s@.take(s@.len() as int) =~= s@);
    out
}

/// The number of bytes of a text in UTF-8.
pub open spec fn byte_len(s: Seq<char>) -> nat {
    encode_utf8(s).len()
}

/// The number of bytes of a string.
pub fn byte_count(s: &str) -> (n: usize)
    ensures
        n == byte_len(s@),
{
    s.as_bytes().len()
}

/// The characters of the first `n` bytes of a text.
pub open spec fn bytes_before(s: Seq<char>, n: int) -> Seq<char> {
    decode_utf8(encode_utf8(s).subrange(0, n))
}

/// The characters after the first `n` bytes of a text.
pub open spec fn bytes_after(s: Seq<char>, n: int) -> Seq<char> {
    decode_utf8(encode_utf8(s).subrange(n, encode_utf8(s).len() as int))
}

/// The text before and after its first `n` bytes; `None` where byte `n` lies
/// within a character or beyond the end.
pub fn split_at_byte(s: &str, n: usize) -> (r: Option<(String, String)>)
    ensures
        (match r {
            Some((a, b)) => is_char_boundary(encode_utf8(s@), n as int) && a@ == bytes_before(
                s@,
                n as int,
            ) && b@ == bytes_after(s@, n as int),
            None => !is_char_boundary(encode_utf8(s@), n as int),
        }),
{
    if !s.is_char_boundary(n) {
        return None;
    }
    let (a, b) = s.split_at(n);
    proof {
        encode_utf8_decode_utf8(a@);
        encode_utf8_decode_utf8(b@);
    }
    Some((a.to_owned(), b.to_owned()))
}

/// In ASCII text, the bytes and the characters have the same positions.
pub proof fn lemma_ascii_split(s: Seq<char>, n: int)
    requires
        is_ascii_chars(s),
        0 <= n <= s.len(),
    ensures
        encode_utf8(s).len() == s.len(),
        is_char_boundary(encode_utf8(s), n),
        bytes_before(s, n) == s.take(n),
        bytes_after(s, n) == s.skip(n),
{
    let b = encode_utf8(s);
    is_ascii_chars_encode_utf8(s);
    is_ascii_chars_encode_utf8(s.take(n));
    is_ascii_chars_encode_utf8(s.skip(n));
    assert(b.subrange(0, n) =~= encode_utf8(s.take(n)));
    assert(b.subrange(n, b.len() as int) =~= encode_utf8(s.skip(n)));
    encode_utf8_decode_utf8(s.take(n));
    encode_utf8_decode_utf8(s.skip(n));
    encode_utf8_valid_utf8(s);
    if n == s.len() {
        is_char_boundary_start_end_of_seq(b);
    } else {
        is_char_boundary_iff_not_is_continuation_byte(b, n);
        assert(s[n] as u8 == b[n]);
    }
}

/// A text that comes apart between two characters is made of its two parts, and the
/// first has as many bytes as were asked for.
pub proof fn law_bytes_come_apart(s: Seq<char>, n: int)
    requires
        is_char_boundary(encode_utf8(s), n),
        0 <= n <= byte_len(s),
    ensures
        bytes_before(s, n) + bytes_after(s, n) == s,
        byte_len(bytes_before(s, n)) == n,
        byte_len(bytes_after(s, n)) == byte_len(s) - n,
{
    let b = encode_utf8(s);
    encode_utf8_valid_utf8(s);
    encode_utf8_decode_utf8(s);
    valid_utf8_split(b, n);
    decode_utf8_split(b, n);
    decode_utf8_encode_utf8(b.subrange(0, n));
    decode_utf8_encode_utf8(b.subrange(n, b.len() as int));
}

/// Whether there is nothing in a text.
pub fn is_blank(s: &str) -> (r: bool)
    ensures
        r == (s@.len() == 0),
{
    s.unicode_len() == 0
}

/// Whether two strings hold the same characters.
pub fn same(a: &str, b: &str) -> (r: bool)
    ensures
        r == (a@ == b@),
{
    let left = a.to_owned();
    let right = b.to_owned();
    left == right
}

/// Whether two character slices are equal.
pub fn same_chars(a: &[char], b: &[char]) -> (r: bool)
    ensures
        r == (a@ == b@),
{
    if a.len() != b.len() {
        return false;
    }
    let mut i: usize = 0;
    while i < a.len()
        invariant
            i <= a.len(),
            a.len() == b.len(),
            forall|j: int| 0 <= j < i ==> a@[j] == b@[j],
        decreases a.len() - i,
    {
        if a[i] != b[i] {
            return false;
        }
        i += 1;
    }
    assert(a@ =~= b@);
    true
}

/// The views of a sequence of slices.
pub open spec fn texts(v: Seq<&[char]>) -> Seq<Seq<char>> {
    Seq::new(v.len(), |i: int| v[i]@)
}

/// The view of a string that may be missing.
pub open spec fn opt(s: Option<String>) -> Option<Seq<char>> {
    match s {
        Some(t) => Some(t@),
        None => None,
    }
}

/// The view of a borrowed string that may be missing.
pub open spec fn opt_str(s: Option<&str>) -> Option<Seq<char>> {
    match s {
        Some(t) => Some(t@),
        None => None,
    }
}

/// The views of a sequence of strings.
pub open spec fn strings(v: Seq<String>) -> Seq<Seq<char>> {
    Seq::new(v.len(), |i: int| v[i]@)
}

// ---------------------------------------------------------------------------
// Searching
// ---------------------------------------------------------------------------

/// `pat` stands in `s` at position `i`.
pub open spec fn matches_at(s: Seq<char>, pat: Seq<char>, i: int) -> bool {
    &&& 0 <= i
    &&& i + pat.len() <= s.len()
    &&& s.subrange(i, i + pat.len()) == pat
}

/// The first position from `i` on at which `pat` stands in `s`.
pub open spec fn find_from(s: Seq<char>, pat: Seq<char>, i: int) -> Option<int>
    decreases s.len() - i + 1,
{
    if i < 0 || i + pat.len() > s.len() {
        None
    } else if matches_at(s, pat, i) {
        Some(i)
    } else {
        find_from(s, pat, i + 1)
    }
}

/// The first position at which `pat` stands in `s`.
pub open spec fn find(s: Seq<char>, pat: Seq<char>) -> Option<int> {
    find_from(s, pat, 0)
}

/// `pat` stands somewhere in `s`.
pub open spec fn occurs(s: Seq<char>, pat: Seq<char>) -> bool {
    find(s, pat) is Some
}

/// `s` begins with `pat`.
pub open spec fn starts_with(s: Seq<char>, pat: Seq<char>) -> bool {
    matches_at(s, pat, 0)
}

/// The first position from `i` on that holds a character of `set`.
pub open spec fn find_any_from(s: Seq<char>, set: Seq<char>, i: int) -> Option<int>
    decreases s.len() - i,
{
    if i < 0 || i >= s.len() {
        None
    } else if set.contains(s[i]) {
        Some(i)
    } else {
        find_any_from(s, set, i + 1)
    }
}

/// The texts agree up to position `i`, and there the first ends or has the smaller
/// character.
pub open spec fn smaller_from(a: Seq<char>, b: Seq<char>, i: int) -> bool {
    &&& 0 <= i <= a.len()
    &&& i < b.len()
    &&& a.take(i) == b.take(i)
    &&& i == a.len() || a[i] < b[i]
}

/// The first text comes before the second in the order of strings.
pub open spec fn sorts_before(a: Seq<char>, b: Seq<char>) -> bool {
    exists|i: int| smaller_from(a, b, i)
}

/// The first position that holds a character of `set`.
pub open spec fn find_any(s: Seq<char>, set: Seq<char>) -> Option<int> {
    find_any_from(s, set, 0)
}

/// The last position that holds a character of `set`.
pub open spec fn rfind_any(s: Seq<char>, set: Seq<char>) -> Option<int>
    decreases s.len(),
{
    if s.len() == 0 {
        None
    } else if set.contains(s.last()) {
        Some(s.len() - 1)
    } else {
        rfind_any(s.drop_last(), set)
    }
}

/// A found position is a match, lies in the text, and no earlier one matches.
pub proof fn lemma_find_from(s: Seq<char>, pat: Seq<char>, i: int)
    requires
        0 <= i,
    ensures
        find_from(s, pat, i) matches Some(p) ==> i <= p && matches_at(s, pat, p) && (forall|j: int|
            i <= j < p ==> !matches_at(s, pat, j)),
        find_from(s, pat, i) is None ==> forall|j: int| i <= j ==> !matches_at(s, pat, j),
    decreases s.len() - i + 1,
{
    if i + pat.len() <= s.len() && !matches_at(s, pat, i) {
        lemma_find_from(s, pat, i + 1);
    }
}

/// A position that matches, with none before it that does, is the one found.
pub proof fn lemma_find_is(s: Seq<char>, pat: Seq<char>, i: int, p: int)
    requires
        0 <= i <= p,
        matches_at(s, pat, p),
        forall|j: int| i <= j < p ==> !matches_at(s, pat, j),
    ensures
        find_from(s, pat, i) == Some(p),
{
    lemma_find_from(s, pat, i);
    match find_from(s, pat, i) {
        Some(q) => {
            if q < p {
                assert(!matches_at(s, pat, q));
            } else if q > p {
                assert(!matches_at(s, pat, p));
            }
        },
        None => {
            assert(!matches_at(s, pat, p));
        },
    }
}

/// A text that goes on with `pat` behind some beginning has `pat` in it.
pub proof fn lemma_occurs(s: Seq<char>, before: Seq<char>, pat: Seq<char>)
    requires
        before.len() + pat.len() <= s.len(),
        forall|j: int| 0 <= j < pat.len() ==> s[before.len() + j] == #[trigger] pat[j],
    ensures
        occurs(s, pat),
{
    lemma_find_from(s, pat, 0);
    assert(s.subrange(before.len() as int, before.len() as int + pat.len()) =~= pat);
    assert(matches_at(s, pat, before.len() as int));
}

/// A found position holds a character of the set, and no earlier one does.
pub proof fn lemma_find_any_from(s: Seq<char>, set: Seq<char>, i: int)
    requires
        0 <= i,
    ensures
        find_any_from(s, set, i) matches Some(p) ==> i <= p < s.len() && set.contains(s[p])
            && (forall|j: int| i <= j < p ==> !set.contains(s[j])),
        find_any_from(s, set, i) is None ==> forall|j: int|
            i <= j < s.len() ==> !set.contains(s[j]),
    decreases s.len() - i,
{
    if i < s.len() && !set.contains(s[i]) {
        lemma_find_any_from(s, set, i + 1);
    }
}

/// A position that holds a character of the set, with none before it that does,
/// is the one found.
pub proof fn lemma_find_any_is(s: Seq<char>, set: Seq<char>, i: int, p: int)
    requires
        0 <= i <= p < s.len(),
        set.contains(s[p]),
        forall|j: int| i <= j < p ==> !set.contains(s[j]),
    ensures
        find_any_from(s, set, i) == Some(p),
{
    lemma_find_any_from(s, set, i);
}

/// The last position that holds a character of the set lies in the text.
pub proof fn lemma_rfind_any(s: Seq<char>, set: Seq<char>)
    ensures
        rfind_any(s, set) matches Some(p) ==> 0 <= p < s.len() && set.contains(s[p]) && (forall|
            j: int,
        |
            p < j < s.len() ==> !set.contains(s[j])),
        rfind_any(s, set) is None ==> forall|j: int| 0 <= j < s.len() ==> !set.contains(s[j]),
    decreases s.len(),
{
    if s.len() > 0 && !set.contains(s.last()) {
        lemma_rfind_any(s.drop_last(), set);
        assert forall|j: int| 0 <= j < s.len() - 1 implies s[j] == s.drop_last()[j] by {}
    }
}

/// Whether `pat` stands in `s` at position `i`.
pub fn match_here(s: &[char], pat: &[char], i: usize) -> (r: bool)
    ensures
        r == matches_at(s@, pat@, i as int),
{
    if i > s.len() || pat.len() > s.len() - i {
        return false;
    }
    same_chars(slice_subrange(s, i, i + pat.len()), pat)
}

/// Where `pat` first stands in `s`.
pub fn index_of(s: &[char], pat: &[char]) -> (r: Option<usize>)
    ensures
        (match r {
            Some(p) => find(s@, pat@) == Some(p as int) && p + pat@.len() <= s@.len(),
            None => find(s@, pat@) is None,
        }),
{
    if pat.len() > s.len() {
        return None;
    }
    let last: usize = s.len() - pat.len();
    let mut i: usize = 0;
    loop
        invariant
            i <= last,
            last == s@.len() - pat@.len(),
            find(s@, pat@) == find_from(s@, pat@, i as int),
        decreases last - i,
    {
        if match_here(s, pat, i) {
            return Some(i);
        }
        if i == last {
            assert(find_from(s@, pat@, i + 1) is None);
            return None;
        }
        i += 1;
    }
}

/// Whether `pat` stands somewhere in `s`.
pub fn contains_text(s: &[char], pat: &[char]) -> (r: bool)
    ensures
        r == occurs(s@, pat@),
{
    index_of(s, pat).is_some()
}

/// Whether `c` is one of the characters of `set`.
pub fn in_set(set: &str, c: char) -> (r: bool)
    ensures
        r == set@.contains(c),
{
    for x in it: set.chars()
        invariant
            it.seq() == set@,
            forall|j: int| 0 <= j < it.index() ==> set@[j] != c,
    {
        if x == c {
            assert(set@[it.index() as int] == c);
            return true;
        }
    }
    false
}

/// Where a character of `set` first stands in `s`.
pub fn index_of_any(s: &[char], set: &str) -> (r: Option<usize>)
    ensures
        (match r {
            Some(p) => find_any(s@, set@) == Some(p as int) && p < s@.len(),
            None => find_any(s@, set@) is None,
        }),
{
    let mut i: usize = 0;
    while i < s.len()
        invariant
            i <= s.len(),
            find_any(s@, set@) == find_any_from(s@, set@, i as int),
        decreases s.len() - i,
    {
        if in_set(set, s[i]) {
            return Some(i);
        }
        i += 1;
    }
    None
}

/// Where a character of `set` last stands in `s`.
pub fn last_index_of_any(s: &[char], set: &str) -> (r: Option<usize>)
    ensures
        (match r {
            Some(p) => rfind_any(s@, set@) == Some(p as int) && p < s@.len(),
            None => rfind_any(s@, set@) is None,
        }),
{
    let mut n: usize = s.len();
    assert(s@.take(n as int) == s@);
    while n > 0
        invariant
            n <= s@.len(),
            rfind_any(s@, set@) == rfind_any(s@.take(n as int), set@),
        decreases n,
    {
        assert(s@.take(n as int).drop_last() == s@.take(n - 1));
        if in_set(set, s[n - 1]) {
            return Some(n - 1);
        }
        n -= 1;
    }
    None
}

/// Whether `s` begins with `pat`.
pub fn begins_with(s: &[char], pat: &[char]) -> (r: bool)
    ensures
        r == starts_with(s@, pat@),
{
    match_here(s, pat, 0)
}

} // verus!
