//! Trimming text and taking it apart: lines, words and fields.
use vstd::prelude::*;
use vstd::slice::slice_subrange;

use crate::text::{
    find, find_any, in_set, index_of, index_of_any, lemma_find_any_from, lemma_find_any_is,
    lemma_find_from, texts,
};

verus! {

// ---------------------------------------------------------------------------
// Trimming
// ---------------------------------------------------------------------------

/// The characters with the Unicode property White_Space.
pub open spec fn is_space(c: char) -> bool {
    ||| '\u{9}' <= c <= '\u{d}'
    ||| c == ' '
    ||| c == '\u{85}'
    ||| c == '\u{a0}'
    ||| c == '\u{1680}'
    ||| '\u{2000}' <= c <= '\u{200a}'
    ||| c == '\u{2028}'
    ||| c == '\u{2029}'
    ||| c == '\u{202f}'
    ||| c == '\u{205f}'
    ||| c == '\u{3000}'
}

/// Whether `c` has the Unicode property White_Space.
pub fn is_white(c: char) -> (r: bool)
    ensures
        r == is_space(c),
{
    ('\u{9}' <= c && c <= '\u{d}') || c == ' ' || c == '\u{85}' || c == '\u{a0}' || c == '\u{1680}'
        || ('\u{2000}' <= c && c <= '\u{200a}') || c == '\u{2028}' || c == '\u{2029}' || c
        == '\u{202f}' || c == '\u{205f}' || c == '\u{3000}'
}

/// `s` without the white space it begins with.
pub open spec fn trim_start(s: Seq<char>) -> Seq<char>
    decreases s.len(),
{
    if s.len() > 0 && is_space(s[0]) {
        trim_start(s.drop_first())
    } else {
        s
    }
}

/// `s` without the white space it ends with.
pub open spec fn trim_end(s: Seq<char>) -> Seq<char>
    decreases s.len(),
{
    if s.len() > 0 && is_space(s.last()) {
        trim_end(s.drop_last())
    } else {
        s
    }
}

/// `s` without white space at either end.
pub open spec fn trim(s: Seq<char>) -> Seq<char> {
    trim_end(trim_start(s))
}

/// `s` without the characters of `set` that it begins with.
pub open spec fn strip_start(s: Seq<char>, set: Seq<char>) -> Seq<char>
    decreases s.len(),
{
    if s.len() > 0 && set.contains(s[0]) {
        strip_start(s.drop_first(), set)
    } else {
        s
    }
}

/// `s` without the characters of `set` that it ends with.
pub open spec fn strip_end(s: Seq<char>, set: Seq<char>) -> Seq<char>
    decreases s.len(),
{
    if s.len() > 0 && set.contains(s.last()) {
        strip_end(s.drop_last(), set)
    } else {
        s
    }
}

/// `s` without the characters of `set` at either end.
pub open spec fn strip(s: Seq<char>, set: Seq<char>) -> Seq<char> {
    strip_end(strip_start(s, set), set)
}

/// Text with no white space at its ends is its own trimming.
pub proof fn lemma_trim_id(s: Seq<char>)
    requires
        s.len() > 0 ==> !is_space(s[0]) && !is_space(s.last()),
    ensures
        trim(s) == s,
        trim_start(s) == s,
        trim_end(s) == s,
{
}

/// Trimming gives text with no white space at its ends.
pub proof fn lemma_trim_ends(s: Seq<char>)
    ensures
        trim(s).len() > 0 ==> !is_space(trim(s)[0]) && !is_space(trim(s).last()),
        trim(trim(s)) == trim(s),
{
    lemma_trim_start_head(s);
    lemma_trim_end_tail(trim_start(s));
    lemma_trim_id(trim(s));
}

pub proof fn lemma_trim_start_head(s: Seq<char>)
    ensures
        trim_start(s).len() > 0 ==> !is_space(trim_start(s)[0]),
    decreases s.len(),
{
    if s.len() > 0 && is_space(s[0]) {
        lemma_trim_start_head(s.drop_first());
    }
}

pub proof fn lemma_trim_end_tail(s: Seq<char>)
    ensures
        trim_end(s).len() > 0 ==> !is_space(trim_end(s).last()) && trim_end(s)[0] == s[0],
        trim_end(s).len() <= s.len(),
    decreases s.len(),
{
    if s.len() > 0 && is_space(s.last()) {
        lemma_trim_end_tail(s.drop_last());
    }
}

/// The slice without leading white space.
pub fn trimmed_start(s: &[char]) -> (r: &[char])
    ensures
        r@ == trim_start(s@),
{
    let mut i: usize = 0;
    assert(s@.skip(0) == s@);
    while i < s.len() && is_white(s[i])
        invariant
            i <= s@.len(),
            trim_start(s@) == trim_start(s@.skip(i as int)),
        decreases s@.len() - i,
    {
        assert(s@.skip(i as int).drop_first() == s@.skip(i + 1));
        i += 1;
    }
    assert(s@.subrange(i as int, s@.len() as int) == s@.skip(i as int));
    slice_subrange(s, i, s.len())
}

/// The slice without trailing white space.
pub fn trimmed_end(s: &[char]) -> (r: &[char])
    ensures
        r@ == trim_end(s@),
{
    let mut n: usize = s.len();
    assert(s@.take(n as int) == s@);
    while n > 0 && is_white(s[n - 1])
        invariant
            n <= s@.len(),
            trim_end(s@) == trim_end(s@.take(n as int)),
        decreases n,
    {
        assert(s@.take(n as int).drop_last() == s@.take(n - 1));
        n -= 1;
    }
    assert(s@.subrange(0, n as int) == s@.take(n as int));
    slice_subrange(s, 0, n)
}

/// The slice without white space at either end.
pub fn trimmed(s: &[char]) -> (r: &[char])
    ensures
        r@ == trim(s@),
{
    trimmed_end(trimmed_start(s))
}

/// The slice without the characters of `set` at either end.
pub fn stripped<'a>(s: &'a [char], set: &str) -> (r: &'a [char])
    ensures
        r@ == strip(s@, set@),
{
    let mut i: usize = 0;
    assert(s@.skip(0) == s@);
    while i < s.len() && in_set(set, s[i])
        invariant
            i <= s@.len(),
            strip_start(s@, set@) == strip_start(s@.skip(i as int), set@),
        decreases s@.len() - i,
    {
        assert(s@.skip(i as int).drop_first() == s@.skip(i + 1));
        i += 1;
    }
    let ghost front = s@.skip(i as int);
    let mut n: usize = s.len();
    assert(s@.subrange(i as int, n as int) == front);
    while n > i && in_set(set, s[n - 1])
        invariant
            i <= n <= s@.len(),
            strip_end(front, set@) == strip_end(s@.subrange(i as int, n as int), set@),
        decreases n,
    {
        assert(s@.subrange(i as int, n as int).drop_last() == s@.subrange(i as int, n - 1));
        n -= 1;
    }
    slice_subrange(s, i, n)
}

/// The slice without the characters of `set` that it begins with.
pub fn stripped_start<'a>(s: &'a [char], set: &str) -> (r: &'a [char])
    ensures
        r@ == strip_start(s@, set@),
{
    let mut i: usize = 0;
    assert(s@.skip(0) == s@);
    while i < s.len() && in_set(set, s[i])
        invariant
            i <= s@.len(),
            strip_start(s@, set@) == strip_start(s@.skip(i as int), set@),
        decreases s@.len() - i,
    {
        assert(s@.skip(i as int).drop_first() == s@.skip(i + 1));
        i += 1;
    }
    assert(s@.subrange(i as int, s@.len() as int) == s@.skip(i as int));
    slice_subrange(s, i, s.len())
}

// ---------------------------------------------------------------------------
// Splitting
// ---------------------------------------------------------------------------

/// The pieces of `s` between the characters of `set`: one more than there are
/// such characters.
pub open spec fn split(s: Seq<char>, set: Seq<char>) -> Seq<Seq<char>>
    decreases s.len(),
{
    match find_any(s, set) {
        None => seq![s],
        Some(p) => {
            proof {
                lemma_find_any_from(s, set, 0);
            }
            seq![s.take(p)] + split(s.skip(p + 1), set)
        },
    }
}

/// What stands before the first character of `set` in `s`, and what stands after
/// it.
pub open spec fn split_once(s: Seq<char>, set: Seq<char>) -> Option<(Seq<char>, Seq<char>)> {
    match find_any(s, set) {
        None => None,
        Some(p) => Some((s.take(p), s.skip(p + 1))),
    }
}

/// Text comes apart at the first separator.
pub proof fn lemma_split_once(a: Seq<char>, sep: char, b: Seq<char>, set: Seq<char>)
    requires
        set == seq![sep],
        !a.contains(sep),
    ensures
        split_once(a + seq![sep] + b, set) == Some((a, b)),
{
    let s = a + seq![sep] + b;
    assert(set[0] == sep);
    assert forall|j: int| 0 <= j < a.len() implies !set.contains(s[j]) by {
        assert(s[j] == a[j]);
        if set.contains(s[j]) {
            assert(a.contains(sep));
        }
    }
    lemma_find_any_is(s, set, 0, a.len() as int);
    assert(s.take(a.len() as int) =~= a);
    assert(s.skip(a.len() as int + 1) =~= b);
}

/// A line without the carriage return that a line feed may follow.
pub open spec fn without_return(s: Seq<char>) -> Seq<char> {
    if s.len() > 0 && s.last() == '\r' {
        s.drop_last()
    } else {
        s
    }
}

/// The lines of `s`: each ends with a line feed, or a carriage return and a line
/// feed, and only the last may lack that ending.
pub open spec fn lines(s: Seq<char>) -> Seq<Seq<char>>
    decreases s.len(),
{
    if s.len() == 0 {
        seq![]
    } else {
        match find_any(s, "\n"@) {
            None => seq![s],
            Some(p) => {
                proof {
                    lemma_find_any_from(s, "\n"@, 0);
                }
                seq![without_return(s.take(p))] + lines(s.skip(p + 1))
            },
        }
    }
}

/// The length of the text before its first white space.
pub open spec fn word_len(s: Seq<char>) -> nat
    decreases s.len(),
{
    if s.len() == 0 || is_space(s[0]) {
        0
    } else {
        1 + word_len(s.drop_first())
    }
}

pub proof fn lemma_word_len(s: Seq<char>)
    ensures
        word_len(s) <= s.len(),
        s.len() > 0 && !is_space(s[0]) ==> word_len(s) > 0,
    decreases s.len(),
{
    if s.len() > 0 && !is_space(s[0]) {
        lemma_word_len(s.drop_first());
    }
}

pub proof fn lemma_trim_start_len(s: Seq<char>)
    ensures
        trim_start(s).len() <= s.len(),
    decreases s.len(),
{
    if s.len() > 0 && is_space(s[0]) {
        lemma_trim_start_len(s.drop_first());
    }
}

/// The words of `s`: its maximal runs of characters that are not white space.
pub open spec fn words(s: Seq<char>) -> Seq<Seq<char>>
    decreases s.len(),
{
    let t = trim_start(s);
    if t.len() == 0 {
        seq![]
    } else {
        proof {
            lemma_trim_start_len(s);
            lemma_trim_start_head(s);
            lemma_word_len(t);
        }
        seq![t.take(word_len(t) as int)] + words(t.skip(word_len(t) as int))
    }
}

/// How often `pat` stands in `s`, counted from the left without overlap.
pub open spec fn count_of(s: Seq<char>, pat: Seq<char>) -> nat
    decreases s.len(),
{
    if pat.len() == 0 {
        0
    } else {
        match find(s, pat) {
            None => 0,
            Some(p) => {
                proof {
                    lemma_find_from(s, pat, 0);
                }
                1 + count_of(s.skip(p + pat.len()), pat)
            },
        }
    }
}

/// The pieces of `s` between the characters of `set`.
pub fn pieces<'a>(s: &'a [char], set: &str) -> (v: Vec<&'a [char]>)
    ensures
        texts(v@) == split(s@, set@),
{
    let mut v: Vec<&'a [char]> = Vec::new();
    let mut rest: &'a [char] = s;
    assert(texts(v@) + split(s@, set@) =~= split(s@, set@));
    loop
        invariant
            split(s@, set@) == texts(v@) + split(rest@, set@),
        decreases rest@.len(),
    {
        let ghost before = v@;
        match index_of_any(rest, set) {
            None => {
                v.push(rest);
                assert(texts(v@) =~= texts(before).push(rest@));
                assert(split(s@, set@) =~= texts(v@));
                return v;
            },
            Some(p) => {
                let piece = slice_subrange(rest, 0, p);
                let end: usize = rest.len();
                let tail = slice_subrange(rest, p + 1, end);
                v.push(piece);
                assert(texts(v@) =~= texts(before).push(piece@));
                assert(piece@ == rest@.take(p as int));
                assert(tail@ == rest@.skip(p + 1));
                assert(split(s@, set@) =~= texts(v@) + split(tail@, set@));
                rest = tail;
            },
        }
    }
}

/// What stands before the first character of `set` in `s`, and after it.
pub fn cut<'a>(s: &'a [char], set: &str) -> (r: Option<(&'a [char], &'a [char])>)
    ensures
        (match r {
            Some((a, b)) => split_once(s@, set@) == Some((a@, b@)),
            None => split_once(s@, set@) is None,
        }),
{
    match index_of_any(s, set) {
        None => None,
        Some(p) => {
            let a = slice_subrange(s, 0, p);
            let end: usize = s.len();
            let b = slice_subrange(s, p + 1, end);
            assert(a@ == s@.take(p as int));
            assert(b@ == s@.skip(p + 1));
            Some((a, b))
        },
    }
}

/// The lines of `s`.
pub fn lines_of<'a>(s: &'a [char]) -> (v: Vec<&'a [char]>)
    ensures
        texts(v@) == lines(s@),
{
    let mut v: Vec<&'a [char]> = Vec::new();
    let mut rest: &'a [char] = s;
    assert(texts(v@) + lines(s@) =~= lines(s@));
    while rest.len() > 0
        invariant
            lines(s@) == texts(v@) + lines(rest@),
        decreases rest@.len(),
    {
        let ghost before = v@;
        match index_of_any(rest, "\n") {
            None => {
                v.push(rest);
                assert(texts(v@) =~= texts(before).push(rest@));
                assert(lines(s@) =~= texts(v@));
                return v;
            },
            Some(p) => {
                let whole = slice_subrange(rest, 0, p);
                assert(whole@ == rest@.take(p as int));
                let line = if p > 0 && whole[p - 1] == '\r' {
                    let shorter = slice_subrange(whole, 0, p - 1);
                    assert(shorter@ == whole@.drop_last());
                    shorter
                } else {
                    whole
                };
                let tail = slice_subrange(rest, p + 1, rest.len());
                v.push(line);
                assert(texts(v@) =~= texts(before).push(line@));
                assert(tail@ == rest@.skip(p + 1));
                assert(lines(s@) =~= texts(v@) + lines(tail@));
                rest = tail;
            },
        }
    }
    assert(lines(s@) =~= texts(v@));
    v
}

/// The words of `s`.
pub fn words_of<'a>(s: &'a [char]) -> (v: Vec<&'a [char]>)
    ensures
        texts(v@) == words(s@),
{
    let mut v: Vec<&'a [char]> = Vec::new();
    let mut rest: &'a [char] = s;
    assert(texts(v@) + words(s@) =~= words(s@));
    loop
        invariant
            words(s@) == texts(v@) + words(rest@),
        decreases rest@.len(),
    {
        let ghost before = v@;
        let t = trimmed_start(rest);
        proof {
            lemma_trim_start_len(rest@);
            lemma_trim_start_head(rest@);
            lemma_word_len(t@);
        }
        if t.len() == 0 {
            assert(words(s@) =~= texts(v@));
            return v;
        }
        let mut n: usize = 0;
        assert(t@.skip(0) == t@);
        while n < t.len() && !is_white(t[n])
            invariant
                n <= t@.len(),
                word_len(t@) == n + word_len(t@.skip(n as int)),
            decreases t@.len() - n,
        {
            assert(t@.skip(n as int).drop_first() == t@.skip(n + 1));
            n += 1;
        }
        let word = slice_subrange(t, 0, n);
        let tail = slice_subrange(t, n, t.len());
        v.push(word);
        assert(texts(v@) =~= texts(before).push(word@));
        assert(word@ == t@.take(n as int));
        assert(tail@ == t@.skip(n as int));
        assert(words(s@) =~= texts(v@) + words(tail@));
        rest = tail;
    }
}

/// Whether `pat` stands in `s` at least twice without overlap.
pub fn twice(s: &[char], pat: &[char]) -> (r: bool)
    requires
        pat@.len() > 0,
    ensures
        r == (count_of(s@, pat@) >= 2),
{
    let n: usize = pat.len();
    match index_of(s, pat) {
        None => {
            assert(count_of(s@, pat@) == 0);
            false
        },
        Some(p) => {
            let end: usize = s.len();
            let tail = slice_subrange(s, p + n, end);
            assert(tail@ == s@.skip(p + pat@.len()));
            assert(count_of(s@, pat@) == 1 + count_of(tail@, pat@));
            let again = index_of(tail, pat);
            assert(again is Some <==> count_of(tail@, pat@) >= 1);
            again.is_some()
        },
    }
}

} // verus!
