//! What holds of requests: what a browser writes is what is read.
use vstd::prelude::*;
use vstd::utf8::{encode_utf8, is_ascii_chars, is_ascii_chars_encode_utf8};

use crate::auth::lemma_word_ends;
use crate::number::{dec, hex_pair, lemma_dec_value, parse_up_to};
use crate::request::{
    announced_length, cookie_from, cookie_in_header, cookie_in_lines, request_line,
};
use crate::routes::password_in;
use crate::split::{
    is_space, lemma_split_once, lemma_trim_ends, lemma_trim_id, lines, split, split_once, trim,
    trim_end, trim_start, without_return, word_len, words,
};
use crate::store::{
    distinct, law_insert_lookup, lemma_lines_concat, lemma_one_line, lookup, pairs_of_lines,
};
use crate::text::{
    find_any, lemma_ascii_split, lemma_find_any_from, lemma_find_any_is, lowercase, starts_with,
};
use crate::url::{
    byte_chars, decoded, form_pairs, law_percent_round_trip, law_query_round_trip,
    lemma_encoded_characters, param_from, percent_decoded, percent_encoded, status_url, unescaped,
};

verus! {

// ---------------------------------------------------------------------------
// Pieces of text
// ---------------------------------------------------------------------------

/// Texts with a character between each two.
pub open spec fn joined_by(ps: Seq<Seq<char>>, sep: char) -> Seq<char>
    decreases ps.len(),
{
    if ps.len() == 0 {
        seq![]
    } else if ps.len() == 1 {
        ps[0]
    } else {
        ps[0] + seq![sep] + joined_by(ps.drop_first(), sep)
    }
}

/// Texts that were joined by a character that none of them holds come apart again.
pub proof fn law_split_joined(ps: Seq<Seq<char>>, sep: char)
    requires
        ps.len() > 0,
        forall|i: int| 0 <= i < ps.len() ==> !(#[trigger] ps[i]).contains(sep),
    ensures
        split(joined_by(ps, sep), seq![sep]) == ps,
    decreases ps.len(),
{
    let set = seq![sep];
    let s = joined_by(ps, sep);
    let p = ps[0];
    assert(!p.contains(sep));
    assert(set[0] == sep);
    assert forall|j: int| 0 <= j < p.len() implies !set.contains(#[trigger] s[j]) by {
        assert(s[j] == p[j]);
        assert(p.contains(p[j]));
    }
    if ps.len() == 1 {
        lemma_find_any_from(s, set, 0);
        assert(split(s, set) =~= ps);
    } else {
        let more = ps.drop_first();
        assert forall|i: int| 0 <= i < more.len() implies !(#[trigger] more[i]).contains(sep) by {
            assert(more[i] == ps[i + 1]);
        }
        law_split_joined(more, sep);
        assert(s[p.len() as int] == sep);
        lemma_find_any_is(s, set, 0, p.len() as int);
        assert(s.take(p.len() as int) =~= p);
        assert(s.skip(p.len() as int + 1) =~= joined_by(more, sep));
        assert(seq![p] + more =~= ps);
    }
}

/// Each line with its ending.
pub open spec fn ended_lines(ls: Seq<Seq<char>>, ending: Seq<char>) -> Seq<char>
    decreases ls.len(),
{
    if ls.len() == 0 {
        seq![]
    } else {
        ended_lines(ls.drop_last(), ending) + (ls.last() + ending)
    }
}

proof fn lemma_ended(ls: Seq<Seq<char>>, ending: Seq<char>)
    requires
        ending.len() > 0,
        ending.last() == '\n',
    ensures
        ended_lines(ls, ending).len() > 0 ==> ended_lines(ls, ending).last() == '\n',
{
}

/// Lines that end with a line feed, or with a carriage return and a line feed, come
/// apart again.
pub proof fn law_lines_come_apart(ls: Seq<Seq<char>>, ending: Seq<char>)
    requires
        ending == seq!['\n'] || ending == seq!['\r', '\n'],
        forall|i: int|
            0 <= i < ls.len() ==> !(#[trigger] ls[i]).contains('\n') && (ending == seq!['\n']
                && ls[i].len() > 0 ==> ls[i].last() != '\r'),
    ensures
        lines(ended_lines(ls, ending)) == ls,
    decreases ls.len(),
{
    if ls.len() == 0 {
        assert(lines(ended_lines(ls, ending)) =~= ls);
    } else {
        let before = ls.drop_last();
        let line = ls[ls.len() - 1];
        assert forall|i: int| 0 <= i < before.len() implies !(#[trigger] before[i]).contains('\n')
            && (ending == seq!['\n'] && before[i].len() > 0 ==> before[i].last() != '\r') by {
            assert(before[i] == ls[i]);
        }
        law_lines_come_apart(before, ending);
        lemma_ended(before, ending);
        lemma_lines_concat(ended_lines(before, ending), line + ending);
        assert(!line.contains('\n'));
        if ending == seq!['\n'] {
            lemma_one_line(line);
            assert(without_return(line) == line);
        } else {
            let kept = line + seq!['\r'];
            assert(line + ending =~= kept + seq!['\n']);
            assert forall|i: int| 0 <= i < kept.len() implies #[trigger] kept[i] != '\n' by {
                if i < line.len() {
                    assert(line.contains(line[i]));
                }
            }
            lemma_one_line(kept);
            assert(kept.drop_last() =~= line);
        }
        assert(before + seq![line] =~= ls);
    }
}

/// White space is told by the numbers of its characters: the ASCII controls from tab to
/// carriage return, the space, and those of Unicode.
pub proof fn law_white_space(c: char)
    ensures
        is_space(c) <==> {
            let n = c as int;
            9 <= n <= 13 || n == 32 || n == 133 || n == 160 || n == 5760 || 8192 <= n <= 8202 || n
                == 8232 || n == 8233 || n == 8239 || n == 8287 || n == 12288
        },
{
}

proof fn lemma_word_and_more(word: Seq<char>, gap: char, rest: Seq<char>)
    requires
        word.len() > 0,
        is_space(gap),
        forall|i: int| 0 <= i < word.len() ==> !is_space(#[trigger] word[i]),
    ensures
        words(word + seq![gap] + rest) == seq![word] + words(rest),
{
    let s = word + seq![gap] + rest;
    assert(!is_space(word[0]));
    assert(s[0] == word[0]);
    assert(trim_start(s) == s);
    lemma_word_ends(word, gap, rest);
    assert(s.take(word.len() as int) =~= word);
    let tail = s.skip(word.len() as int);
    assert(tail =~= seq![gap] + rest);
    assert(tail.drop_first() =~= rest);
    assert(trim_start(tail) == trim_start(rest));
    assert(words(tail) == words(rest));
}

/// Words with white space between them come apart again.
pub proof fn law_words_come_apart(ws: Seq<Seq<char>>, gap: char)
    requires
        is_space(gap),
        forall|i: int|
            0 <= i < ws.len() ==> (#[trigger] ws[i]).len() > 0 && forall|j: int|
                0 <= j < ws[i].len() ==> !is_space(#[trigger] ws[i][j]),
    ensures
        words(joined_by(ws, gap)) == ws,
    decreases ws.len(),
{
    let s = joined_by(ws, gap);
    let none = Seq::<char>::empty();
    if ws.len() == 0 {
        assert(trim_start(s).len() == 0);
        assert(words(s) =~= ws);
    } else {
        let word = ws[0];
        assert(word.len() > 0);
        if ws.len() == 1 {
            assert(!is_space(word[0]));
            assert(trim_start(s) == s);
            lemma_whole_word(word);
            let end = s.skip(word.len() as int);
            assert(end =~= none);
            assert(trim_start(end).len() == 0);
            assert(words(end).len() == 0);
            assert(s.take(word.len() as int) =~= word);
            assert(words(s) =~= ws);
        } else {
            let more = ws.drop_first();
            assert forall|i: int| 0 <= i < more.len() implies (#[trigger] more[i]).len() > 0
                && forall|j: int| 0 <= j < more[i].len() ==> !is_space(#[trigger] more[i][j]) by {
                assert(more[i] == ws[i + 1]);
            }
            law_words_come_apart(more, gap);
            lemma_word_and_more(word, gap, joined_by(more, gap));
            assert(seq![word] + more =~= ws);
        }
    }
}

proof fn lemma_whole_word(word: Seq<char>)
    requires
        forall|j: int| 0 <= j < word.len() ==> !is_space(#[trigger] word[j]),
    ensures
        word_len(word) == word.len(),
    decreases word.len(),
{
    if word.len() > 0 {
        assert(!is_space(word[0]));
        let more = word.drop_first();
        assert forall|j: int| 0 <= j < more.len() implies !is_space(#[trigger] more[j]) by {
            assert(more[j] == word[j + 1]);
        }
        lemma_whole_word(more);
    }
}

/// White space at the end of a text does not count in its trimming.
proof fn lemma_trim_end_spaces(s: Seq<char>, w: Seq<char>)
    requires
        forall|i: int| 0 <= i < w.len() ==> is_space(#[trigger] w[i]),
    ensures
        trim_end(s + w) == trim_end(s),
    decreases w.len(),
{
    if w.len() == 0 {
        assert(s + w =~= s);
    } else {
        assert(is_space(w[w.len() - 1]));
        assert((s + w).last() == w.last());
        assert((s + w).drop_last() =~= s + w.drop_last());
        assert forall|i: int| 0 <= i < w.drop_last().len() implies is_space(
            #[trigger] w.drop_last()[i],
        ) by {
            assert(w.drop_last()[i] == w[i]);
        }
        lemma_trim_end_spaces(s, w.drop_last());
    }
}

proof fn lemma_trim_start_spaces(w: Seq<char>, s: Seq<char>)
    requires
        forall|i: int| 0 <= i < w.len() ==> is_space(#[trigger] w[i]),
    ensures
        trim_start(w + s) == trim_start(s),
    decreases w.len(),
{
    if w.len() == 0 {
        assert(w + s =~= s);
    } else {
        assert(is_space(w[0]));
        assert((w + s).drop_first() =~= w.drop_first() + s);
        assert forall|i: int| 0 <= i < w.drop_first().len() implies is_space(
            #[trigger] w.drop_first()[i],
        ) by {
            assert(w.drop_first()[i] == w[i + 1]);
        }
        lemma_trim_start_spaces(w.drop_first(), s);
    }
}

/// Trimming takes away the white space round a text, and nothing else.
pub proof fn law_trim(before: Seq<char>, s: Seq<char>, behind: Seq<char>)
    requires
        forall|i: int| 0 <= i < before.len() ==> is_space(#[trigger] before[i]),
        forall|i: int| 0 <= i < behind.len() ==> is_space(#[trigger] behind[i]),
        s.len() > 0 ==> !is_space(s[0]) && !is_space(s.last()),
    ensures
        trim(before + s + behind) == s,
{
    let t = s + behind;
    assert(before + s + behind =~= before + t);
    lemma_trim_start_spaces(before, t);
    if s.len() > 0 {
        assert(t[0] == s[0]);
        assert(trim_start(t) == t);
        lemma_trim_end_spaces(s, behind);
        lemma_trim_id(s);
    } else {
        assert(t =~= behind + s);
        lemma_trim_start_spaces(behind, s);
        assert(trim_start(s) == s);
        assert(trim_end(s) == s);
    }
}

// ---------------------------------------------------------------------------
// The head of a request
// ---------------------------------------------------------------------------

/// The first line of a request gives its method, its path and its query: the words
/// before the first space, up to the question mark, and from there to the next space.
pub proof fn law_request_line(
    method: Seq<char>,
    path: Seq<char>,
    query: Seq<char>,
    version: Seq<char>,
    ending: Seq<char>,
)
    requires
        method.len() > 0,
        !is_space(method[0]),
        !method.contains(' '),
        !path.contains(' '),
        !path.contains('?'),
        !query.contains(' '),
        version.len() > 0,
        !is_space(version.last()),
        forall|i: int| 0 <= i < ending.len() ==> is_space(#[trigger] ending[i]),
    ensures
        request_line(
            method + seq![' '] + path + seq!['?'] + query + seq![' '] + version + ending,
        ) == Some((method, path, query)),
        request_line(method + seq![' '] + path + seq![' '] + version + ending) == Some(
            (method, path, Seq::<char>::empty()),
        ),
{
    reveal_strlit(" ");
    reveal_strlit("?");
    assert(" "@ =~= seq![' ']);
    assert("?"@ =~= seq!['?']);
    let none = Seq::<char>::empty();
    let target = path + seq!['?'] + query;
    assert(!target.contains(' ')) by {
        assert forall|i: int| 0 <= i < target.len() implies #[trigger] target[i] != ' ' by {
            if i < path.len() {
                assert(path.contains(path[i]));
            } else if i > path.len() {
                assert(query.contains(query[i - path.len() - 1]));
            }
        }
    }
    lemma_request_line(method, target, version, ending);
    lemma_request_line(method, path, version, ending);
    lemma_split_once(path, '?', query, "?"@);
    lemma_find_any_from(path, "?"@, 0);
    match find_any(path, "?"@) {
        Some(p) => {
            assert(path.contains(path[p]));
        },
        None => {},
    }
    assert(method + seq![' '] + path + seq!['?'] + query + seq![' '] + version + ending
        =~= method + seq![' '] + target + seq![' '] + version + ending);
}

proof fn lemma_request_line(
    method: Seq<char>,
    target: Seq<char>,
    version: Seq<char>,
    ending: Seq<char>,
)
    requires
        method.len() > 0,
        !is_space(method[0]),
        !method.contains(' '),
        !target.contains(' '),
        version.len() > 0,
        !is_space(version.last()),
        forall|i: int| 0 <= i < ending.len() ==> is_space(#[trigger] ending[i]),
    ensures
        request_line(method + seq![' '] + target + seq![' '] + version + ending) == (
        match split_once(target, "?"@) {
            None => Some((method, target, Seq::<char>::empty())),
            Some((path, query)) => Some((method, path, query)),
        }),
{
    reveal_strlit(" ");
    assert(" "@ =~= seq![' ']);
    let none = Seq::<char>::empty();
    let line = method + seq![' '] + target + seq![' '] + version;
    law_trim(none, line, ending);
    assert(line[0] == method[0]);
    assert(line.last() == version.last());
    assert(none + line + ending =~= line + ending);
    let rest = target + seq![' '] + version;
    assert(line =~= method + seq![' '] + rest);
    lemma_split_once(method, ' ', rest, " "@);
    lemma_split_once(target, ' ', version, " "@);
}

/// The announced length of a body is read wherever it fits, with or without a space
/// behind the colon, and no other header announces one.
pub proof fn law_announced_length(n: nat, gap: Seq<char>, ending: Seq<char>, other: Seq<char>)
    requires
        n <= usize::MAX,
        forall|i: int| 0 <= i < gap.len() ==> is_space(#[trigger] gap[i]),
        forall|i: int| 0 <= i < ending.len() ==> is_space(#[trigger] ending[i]),
    ensures
        announced_length("content-length:"@ + gap + dec(n) + ending) == Some(n),
        !starts_with(other, "content-length:"@) ==> announced_length(other) is None,
{
    let prefix = "content-length:"@;
    let line = prefix + gap + dec(n) + ending;
    lemma_dec_value(n);
    assert(line.subrange(0, 0 + prefix.len() as int) =~= prefix);
    assert(line.skip(prefix.len() as int) =~= gap + dec(n) + ending);
    assert(!is_space(dec(n)[0]) && !is_space(dec(n)[dec(n).len() - 1]));
    law_trim(gap, dec(n), ending);
    assert(parse_up_to(dec(n), usize::MAX as nat) == Some(n));
}

/// A length that is no number, or too large a one, counts as none.
pub proof fn law_unreadable_length(value: Seq<char>)
    requires
        parse_up_to(trim(value), usize::MAX as nat) is None,
    ensures
        announced_length("content-length:"@ + value) == Some(0nat),
{
    let prefix = "content-length:"@;
    let line = prefix + value;
    assert(line.subrange(0, 0 + prefix.len() as int) =~= prefix);
    assert(line.skip(prefix.len() as int) =~= value);
}

/// A request line without a space has no path and is none.
pub proof fn law_no_request_line(line: Seq<char>)
    requires
        !trim(line).contains(' '),
    ensures
        request_line(line) is None,
{
    reveal_strlit(" ");
    assert(" "@ =~= seq![' ']);
    lemma_find_any_from(trim(line), " "@, 0);
    match find_any(trim(line), " "@) {
        Some(p) => {
            assert(trim(line).contains(trim(line)[p]));
        },
        None => {},
    }
}

// ---------------------------------------------------------------------------
// Cookies
// ---------------------------------------------------------------------------

/// Names and values as a browser sends them back, one piece for each.
pub open spec fn cookie_pieces(cs: Seq<(Seq<char>, Seq<char>)>) -> Seq<Seq<char>> {
    Seq::new(
        cs.len(),
        |i: int|
            (if i == 0 {
                Seq::<char>::empty()
            } else {
                seq![' ']
            }) + cs[i].0 + seq!['='] + cs[i].1,
    )
}

/// A cookie that can be sent back.
pub open spec fn sendable(name: Seq<char>, value: Seq<char>) -> bool {
    &&& name.len() > 0
    &&& trim(name) == name
    &&& trim(value) == value
    &&& !name.contains('=')
    &&& !name.contains(';')
    &&& !value.contains(';')
    &&& is_ascii_chars(name)
    &&& is_ascii_chars(value)
}

proof fn lemma_cookie_piece(cs: Seq<(Seq<char>, Seq<char>)>, i: int)
    requires
        0 <= i < cs.len(),
        sendable(cs[i].0, cs[i].1),
    ensures
        split_once(trim(cookie_pieces(cs)[i]), "="@) == Some(cs[i]),
        !cookie_pieces(cs)[i].contains(';'),
{
    reveal_strlit("=");
    assert("="@ =~= seq!['=']);
    let name = cs[i].0;
    let value = cs[i].1;
    let gap = if i == 0 {
        Seq::<char>::empty()
    } else {
        seq![' ']
    };
    let none = Seq::<char>::empty();
    let pair = name + seq!['='] + value;
    let piece = cookie_pieces(cs)[i];
    lemma_trim_ends(name);
    lemma_trim_ends(value);
    assert(pair[0] == name[0]);
    assert(pair.last() == (if value.len() > 0 {
        value.last()
    } else {
        '='
    }));
    assert(gap + pair + none =~= piece);
    law_trim(gap, pair, none);
    lemma_split_once(name, '=', value, "="@);
    assert forall|j: int| 0 <= j < piece.len() implies #[trigger] piece[j] != ';' by {
        let k = j - gap.len();
        if 0 <= k < name.len() {
            assert(piece[j] == name[k]);
            assert(name.contains(name[k]));
        } else if k > name.len() {
            assert(piece[j] == value[k - name.len() - 1]);
            assert(value.contains(value[k - name.len() - 1]));
        }
    }
}

proof fn lemma_cookie_from(cs: Seq<(Seq<char>, Seq<char>)>, k: int, i: int)
    requires
        0 <= i <= k < cs.len(),
        forall|j: int| 0 <= j < cs.len() ==> sendable((#[trigger] cs[j]).0, cs[j].1),
        forall|j: int| 0 <= j < k ==> (#[trigger] cs[j]).0 != cs[k].0,
    ensures
        cookie_from(cookie_pieces(cs), cs[k].0, i) == Some(cs[k].1),
    decreases k - i,
{
    assert(sendable(cs[i].0, cs[i].1));
    lemma_cookie_piece(cs, i);
    if i < k {
        assert(cs[i].0 != cs[k].0);
        lemma_cookie_from(cs, k, i + 1);
    }
}

/// Of several cookies in one header, each is found under its name; of two with the
/// same name the first counts.
pub proof fn law_cookie_found_among_others(
    cs: Seq<(Seq<char>, Seq<char>)>,
    lower: Seq<char>,
    k: int,
)
    requires
        0 <= k < cs.len(),
        forall|j: int| 0 <= j < cs.len() ==> sendable((#[trigger] cs[j]).0, cs[j].1),
        forall|j: int| 0 <= j < k ==> (#[trigger] cs[j]).0 != cs[k].0,
        starts_with(lower, "cookie:"@),
    ensures
        cookie_in_header("Cookie: "@ + joined_by(cookie_pieces(cs), ';'), lower, cs[k].0) == Some(
            cs[k].1,
        ),
{
    let ps = cookie_pieces(cs);
    let text = joined_by(ps, ';');
    let line = "Cookie: "@ + text;
    reveal_strlit("Cookie: ");
    reveal_strlit(";");
    assert(";"@ =~= seq![';']);
    assert forall|i: int| 0 <= i < ps.len() implies !(#[trigger] ps[i]).contains(';')
        && is_ascii_chars(ps[i]) by {
        assert(sendable(cs[i].0, cs[i].1));
        lemma_cookie_piece(cs, i);
        lemma_ascii_piece(cs, i);
    }
    law_split_joined(ps, ';');
    lemma_joined_ascii(ps, ';');
    assert forall|i: int| 0 <= i < line.len() implies '\0' <= #[trigger] line[i] <= '\u{7f}' by {
        if i >= 8 {
            assert(line[i] == text[i - 8]);
        }
    }
    lemma_ascii_split(line, 7);
    assert(line.skip(7) =~= seq![' '] + text);
    let none = Seq::<char>::empty();
    lemma_joined_ends(cs);
    law_trim(seq![' '], text, none);
    assert(seq![' '] + text + none =~= seq![' '] + text);
    lemma_cookie_from(cs, k, 0);
}

proof fn lemma_ascii_piece(cs: Seq<(Seq<char>, Seq<char>)>, i: int)
    requires
        0 <= i < cs.len(),
        sendable(cs[i].0, cs[i].1),
    ensures
        is_ascii_chars(cookie_pieces(cs)[i]),
{
    let piece = cookie_pieces(cs)[i];
    let g: int = if i == 0 {
        0
    } else {
        1
    };
    assert forall|j: int| 0 <= j < piece.len() implies '\0' <= #[trigger] piece[j]
        <= '\u{7f}' by {
        let k = j - g;
        if 0 <= k < cs[i].0.len() {
            assert(piece[j] == cs[i].0[k]);
        } else if k > cs[i].0.len() {
            assert(piece[j] == cs[i].1[k - cs[i].0.len() - 1]);
        }
    }
}

proof fn lemma_joined_ascii(ps: Seq<Seq<char>>, sep: char)
    requires
        '\0' <= sep <= '\u{7f}',
        forall|i: int| 0 <= i < ps.len() ==> is_ascii_chars(#[trigger] ps[i]),
    ensures
        is_ascii_chars(joined_by(ps, sep)),
    decreases ps.len(),
{
    let s = joined_by(ps, sep);
    if ps.len() == 1 {
        assert(is_ascii_chars(ps[0]));
    } else if ps.len() > 1 {
        let more = ps.drop_first();
        assert forall|i: int| 0 <= i < more.len() implies is_ascii_chars(#[trigger] more[i]) by {
            assert(more[i] == ps[i + 1]);
        }
        lemma_joined_ascii(more, sep);
        assert(is_ascii_chars(ps[0]));
        assert forall|j: int| 0 <= j < s.len() implies '\0' <= #[trigger] s[j] <= '\u{7f}' by {
            if j < ps[0].len() {
                assert(s[j] == ps[0][j]);
            } else if j > ps[0].len() {
                assert(s[j] == joined_by(more, sep)[j - ps[0].len() - 1]);
            }
        }
    }
}

proof fn lemma_joined_last(ps: Seq<Seq<char>>, sep: char)
    requires
        ps.len() > 0,
        forall|i: int| 0 <= i < ps.len() ==> (#[trigger] ps[i]).len() > 0,
    ensures
        joined_by(ps, sep).len() > 0,
        joined_by(ps, sep).last() == ps.last().last(),
        joined_by(ps, sep)[0] == ps[0][0],
    decreases ps.len(),
{
    assert(ps[0].len() > 0);
    if ps.len() > 1 {
        let more = ps.drop_first();
        assert forall|i: int| 0 <= i < more.len() implies (#[trigger] more[i]).len() > 0 by {
            assert(more[i] == ps[i + 1]);
        }
        lemma_joined_last(more, sep);
        assert(more.last() == ps.last());
    }
}

proof fn lemma_joined_ends(cs: Seq<(Seq<char>, Seq<char>)>)
    requires
        cs.len() > 0,
        forall|j: int| 0 <= j < cs.len() ==> sendable((#[trigger] cs[j]).0, cs[j].1),
    ensures
        ({
            let text = joined_by(cookie_pieces(cs), ';');
            text.len() > 0 && !is_space(text[0]) && !is_space(text.last())
        }),
{
    let ps = cookie_pieces(cs);
    assert forall|i: int| 0 <= i < ps.len() implies (#[trigger] ps[i]).len() > 0 by {}
    lemma_joined_last(ps, ';');
    let n = cs.len() - 1;
    assert(sendable(cs[0].0, cs[0].1));
    assert(sendable(cs[n].0, cs[n].1));
    lemma_trim_ends(cs[0].0);
    lemma_trim_ends(cs[n].1);
    assert(ps[0][0] == cs[0].0[0]);
    assert(ps.last() == ps[n]);
    assert(ps[n].last() == (if cs[n].1.len() > 0 {
        cs[n].1.last()
    } else {
        '='
    }));
}

/// White space round the name and the value of a cookie does not count.
pub proof fn law_spaces_in_cookie(
    s1: Seq<char>,
    name: Seq<char>,
    s2: Seq<char>,
    s3: Seq<char>,
    value: Seq<char>,
    s4: Seq<char>,
)
    requires
        sendable(name, value),
        value.len() > 0,
        forall|i: int| 0 <= i < s1.len() ==> is_space(#[trigger] s1[i]),
        forall|i: int| 0 <= i < s2.len() ==> is_space(#[trigger] s2[i]),
        forall|i: int| 0 <= i < s3.len() ==> is_space(#[trigger] s3[i]),
        forall|i: int| 0 <= i < s4.len() ==> is_space(#[trigger] s4[i]),
    ensures
        cookie_from(seq![s1 + (name + s2 + seq!['='] + s3 + value) + s4], name, 0) == Some(value),
{
    let none = Seq::<char>::empty();
    let inner = name + s2 + seq!['='] + s3 + value;
    reveal_strlit("=");
    assert("="@ =~= seq!['=']);
    lemma_trim_ends(name);
    lemma_trim_ends(value);
    assert(inner[0] == name[0]);
    assert(inner.last() == value.last());
    law_trim(s1, inner, s4);
    let left = name + s2;
    assert forall|i: int| 0 <= i < left.len() implies #[trigger] left[i] != '=' by {
        if i < name.len() {
            assert(name.contains(name[i]));
        } else {
            assert(is_space(s2[i - name.len()]));
        }
    }
    assert(inner =~= left + seq!['='] + (s3 + value));
    lemma_split_once(left, '=', s3 + value, "="@);
    law_trim(none, name, s2);
    assert(none + name + s2 =~= left);
    law_trim(s3, value, none);
    assert(s3 + value + none =~= s3 + value);
}

/// Of several header lines the first one that holds the cookie counts.
pub proof fn law_first_cookie_header_counts(ls: Seq<Seq<char>>, name: Seq<char>, k: int)
    requires
        0 <= k < ls.len(),
        cookie_in_header(ls[k], lowercase(ls[k]), name) is Some,
        forall|j: int|
            0 <= j < k ==> cookie_in_header(#[trigger] ls[j], lowercase(ls[j]), name) is None,
    ensures
        cookie_in_lines(ls, name, 0) == cookie_in_header(ls[k], lowercase(ls[k]), name),
{
    lemma_first_cookie_header(ls, name, k, 0);
}

proof fn lemma_first_cookie_header(ls: Seq<Seq<char>>, name: Seq<char>, k: int, i: int)
    requires
        0 <= i <= k < ls.len(),
        cookie_in_header(ls[k], lowercase(ls[k]), name) is Some,
        forall|j: int|
            0 <= j < k ==> cookie_in_header(#[trigger] ls[j], lowercase(ls[j]), name) is None,
    ensures
        cookie_in_lines(ls, name, i) == cookie_in_header(ls[k], lowercase(ls[k]), name),
    decreases k - i,
{
    if i < k {
        assert(cookie_in_header(ls[i], lowercase(ls[i]), name) is None);
        lemma_first_cookie_header(ls, name, k, i + 1);
    }
}

// ---------------------------------------------------------------------------
// Queries and forms
// ---------------------------------------------------------------------------

/// Text of a query or a form in which nothing is escaped is read with its plus signs
/// as spaces.
pub proof fn law_plus_is_space(s: Seq<char>)
    requires
        is_ascii_chars(s),
        !s.contains('%'),
    ensures
        decoded(s) == s.map_values(
            |c: char|
                if c == '+' {
                    ' '
                } else {
                    c
                },
        ),
{
    is_ascii_chars_encode_utf8(s);
    let b = encode_utf8(s);
    assert forall|i: int| 0 <= i < b.len() implies #[trigger] b[i] != '%' as u8 by {
        assert(s.contains(s[i]));
        assert(b[i] == s[i] as u8);
    }
    lemma_unescaped_bytes(b);
    let f = |c: char|
        if c == '+' {
            ' '
        } else {
            c
        };
    assert(byte_chars(b) =~= s);
    assert(byte_chars(b).map_values(f) == s.map_values(f));
}

proof fn lemma_unescaped_bytes(b: Seq<u8>)
    requires
        forall|i: int| 0 <= i < b.len() ==> #[trigger] b[i] != '%' as u8,
    ensures
        percent_decoded(b) == byte_chars(b).map_values(
            |c: char|
                if c == '+' {
                    ' '
                } else {
                    c
                },
        ),
    decreases b.len(),
{
    let f = |c: char|
        if c == '+' {
            ' '
        } else {
            c
        };
    if b.len() == 0 {
        assert(percent_decoded(b) =~= byte_chars(b).map_values(f));
    } else {
        let rest = b.skip(1);
        assert forall|i: int| 0 <= i < rest.len() implies #[trigger] rest[i] != '%' as u8 by {
            assert(rest[i] == b[i + 1]);
        }
        lemma_unescaped_bytes(rest);
        assert(b[0] != '%' as u8);
        assert(percent_decoded(b) =~= seq![f(b[0] as char)] + byte_chars(rest).map_values(f));
        assert(byte_chars(b).map_values(f) =~= seq![f(b[0] as char)] + byte_chars(rest).map_values(
            f,
        ));
    }
}

/// An escape stands for the byte that its two digits name, and one without two digits
/// for nothing; what follows is read on its own.
pub proof fn law_escape_read(a: u8, b: u8, rest: Seq<u8>)
    ensures
        percent_decoded(seq!['%' as u8, a, b] + rest) == (match hex_pair(a as char, b as char) {
            Some(v) => seq![v as char],
            None => seq![],
        }) + percent_decoded(rest),
{
    let bytes = seq!['%' as u8, a, b] + rest;
    assert(bytes.skip(3) =~= rest);
}

/// An escape that the text ends in is read as if zeros followed, and nothing follows it.
pub proof fn law_cut_escape_read(a: u8)
    ensures
        percent_decoded(seq!['%' as u8, a]) == (match hex_pair(a as char, '0') {
            Some(v) => seq![v as char],
            None => seq![],
        }),
        percent_decoded(seq!['%' as u8]) == seq!['\0'],
{
    let two = seq!['%' as u8, a];
    let one = seq!['%' as u8];
    assert(two.skip(2) =~= Seq::<u8>::empty());
    assert(one.skip(1) =~= Seq::<u8>::empty());
    assert(percent_decoded(Seq::<u8>::empty()) =~= Seq::<char>::empty());
    assert(percent_decoded(two) =~= unescaped(two));
    assert(percent_decoded(one) =~= seq!['\0']);
}

/// Names and values in percent encoding, one piece for each.
pub open spec fn encoded_fields(fs: Seq<(Seq<char>, Seq<char>)>) -> Seq<Seq<char>> {
    Seq::new(
        fs.len(),
        |i: int|
            percent_encoded(encode_utf8(fs[i].0)) + seq!['='] + percent_encoded(
                encode_utf8(fs[i].1),
            ),
    )
}

proof fn lemma_encoded_field(fs: Seq<(Seq<char>, Seq<char>)>, i: int)
    requires
        0 <= i < fs.len(),
    ensures
        split_once(encoded_fields(fs)[i], "="@) == Some(
            (percent_encoded(encode_utf8(fs[i].0)), percent_encoded(encode_utf8(fs[i].1))),
        ),
        !encoded_fields(fs)[i].contains('&'),
{
    reveal_strlit("=");
    assert("="@ =~= seq!['=']);
    let name = percent_encoded(encode_utf8(fs[i].0));
    let value = percent_encoded(encode_utf8(fs[i].1));
    lemma_encoded_characters(encode_utf8(fs[i].0));
    lemma_encoded_characters(encode_utf8(fs[i].1));
    lemma_split_once(name, '=', value, "="@);
    let piece = encoded_fields(fs)[i];
    assert forall|j: int| 0 <= j < piece.len() implies #[trigger] piece[j] != '&' by {
        if j < name.len() {
            assert(name.contains(name[j]));
        } else if j > name.len() {
            assert(value.contains(value[j - name.len() - 1]));
        }
    }
}

proof fn lemma_encoded_split(fs: Seq<(Seq<char>, Seq<char>)>)
    requires
        fs.len() > 0,
    ensures
        split(joined_by(encoded_fields(fs), '&'), "&"@) == encoded_fields(fs),
{
    reveal_strlit("&");
    assert("&"@ =~= seq!['&']);
    assert forall|i: int| 0 <= i < encoded_fields(fs).len() implies !(
    #[trigger] encoded_fields(fs)[i]).contains('&') by {
        lemma_encoded_field(fs, i);
    }
    law_split_joined(encoded_fields(fs), '&');
}

/// Letters, digits and the four other characters that stand for themselves.
pub open spec fn stands_for_itself(key: Seq<char>) -> bool {
    percent_encoded(encode_utf8(key)) == key
}

proof fn lemma_param_from(fs: Seq<(Seq<char>, Seq<char>)>, k: int, i: int)
    requires
        0 <= i <= k < fs.len(),
        forall|j: int| 0 <= j < fs.len() ==> stands_for_itself((#[trigger] fs[j]).0),
        is_ascii_chars(fs[k].1),
        forall|j: int| 0 <= j < k ==> (#[trigger] fs[j]).0 != fs[k].0,
    ensures
        param_from(encoded_fields(fs), fs[k].0, i) == fs[k].1,
    decreases k - i,
{
    lemma_encoded_field(fs, i);
    assert(stands_for_itself(fs[i].0));
    if i < k {
        assert(fs[i].0 != fs[k].0);
        lemma_param_from(fs, k, i + 1);
    } else {
        law_percent_round_trip(fs[k].1);
    }
}

/// Of several parameters of a query, each is found under its name with its value; of
/// two with the same name the first counts.
pub proof fn law_query_param_found_among_others(fs: Seq<(Seq<char>, Seq<char>)>, k: int)
    requires
        0 <= k < fs.len(),
        forall|j: int| 0 <= j < fs.len() ==> stands_for_itself((#[trigger] fs[j]).0),
        is_ascii_chars(fs[k].1),
        forall|j: int| 0 <= j < k ==> (#[trigger] fs[j]).0 != fs[k].0,
    ensures
        param_from(split(joined_by(encoded_fields(fs), '&'), "&"@), fs[k].0, 0) == fs[k].1,
{
    lemma_encoded_split(fs);
    lemma_param_from(fs, k, 0);
}

proof fn lemma_form_distinct(ps: Seq<Seq<char>>)
    ensures
        distinct(form_pairs(ps)),
    decreases ps.len(),
{
    if ps.len() > 0 {
        lemma_form_distinct(ps.drop_last());
        match split_once(ps.last(), "="@) {
            None => {},
            Some((k, v)) => {
                law_insert_lookup(form_pairs(ps.drop_last()), decoded(k), decoded(v), decoded(k));
            },
        }
    }
}

/// The last field of a name from position `n` down.
spec fn last_named(fs: Seq<(Seq<char>, Seq<char>)>, name: Seq<char>, n: int) -> Option<Seq<char>>
    decreases n,
{
    if n <= 0 {
        None
    } else if fs[n - 1].0 == name {
        Some(fs[n - 1].1)
    } else {
        last_named(fs, name, n - 1)
    }
}

proof fn lemma_form_fields(fs: Seq<(Seq<char>, Seq<char>)>, name: Seq<char>, n: int)
    requires
        0 <= n <= fs.len(),
        forall|j: int|
            0 <= j < fs.len() ==> is_ascii_chars((#[trigger] fs[j]).0) && is_ascii_chars(fs[j].1),
    ensures
        lookup(form_pairs(encoded_fields(fs).take(n)), name) == last_named(fs, name, n),
    decreases n,
{
    let ps = encoded_fields(fs).take(n);
    if n == 0 {
        assert(form_pairs(ps) =~= Seq::empty());
    } else {
        lemma_form_fields(fs, name, n - 1);
        assert(ps.drop_last() =~= encoded_fields(fs).take(n - 1));
        assert(ps.last() == encoded_fields(fs)[n - 1]);
        lemma_encoded_field(fs, n - 1);
        assert(is_ascii_chars(fs[n - 1].0));
        law_percent_round_trip(fs[n - 1].0);
        law_percent_round_trip(fs[n - 1].1);
        lemma_form_distinct(ps.drop_last());
        law_insert_lookup(form_pairs(ps.drop_last()), fs[n - 1].0, fs[n - 1].1, name);
    }
}

proof fn lemma_last_named(fs: Seq<(Seq<char>, Seq<char>)>, name: Seq<char>, k: int, n: int)
    requires
        -1 <= k < n <= fs.len(),
        k >= 0 ==> fs[k].0 == name,
        forall|j: int| k < j < fs.len() ==> (#[trigger] fs[j]).0 != name,
    ensures
        last_named(fs, name, n) == (if k >= 0 {
            Some(fs[k].1)
        } else {
            None
        }),
    decreases n,
{
    if n - 1 > k {
        assert(fs[n - 1].0 != name);
        if n - 1 > 0 {
            lemma_last_named(fs, name, k, n - 1);
        }
    }
}

/// Every field of a form is found under its name with its value, wherever it stands;
/// of two with the same name the later counts, and a name that no field has gives
/// nothing.
pub proof fn law_form_field_found(fs: Seq<(Seq<char>, Seq<char>)>, name: Seq<char>, k: int)
    requires
        fs.len() > 0,
        -1 <= k < fs.len(),
        k >= 0 ==> fs[k].0 == name,
        forall|j: int| k < j < fs.len() ==> (#[trigger] fs[j]).0 != name,
        forall|j: int|
            0 <= j < fs.len() ==> is_ascii_chars((#[trigger] fs[j]).0) && is_ascii_chars(fs[j].1),
    ensures
        lookup(form_pairs(split(joined_by(encoded_fields(fs), '&'), "&"@)), name) == (if k >= 0 {
            Some(fs[k].1)
        } else {
            None
        }),
{
    lemma_encoded_split(fs);
    let n = fs.len() as int;
    lemma_form_fields(fs, name, n);
    assert(encoded_fields(fs).take(n) =~= encoded_fields(fs));
    lemma_last_named(fs, name, k, n);
}

/// A parameter without an equals sign is empty, and it counts before a later one of the
/// same name; a name that no piece has is empty too.
pub proof fn law_param_without_value(ps: Seq<Seq<char>>, key: Seq<char>, k: int)
    requires
        -1 <= k < ps.len(),
        !key.contains('='),
        k >= 0 ==> ps[k] == key,
        forall|j: int|
            0 <= j < ps.len() && (k < 0 || j < k) ==> #[trigger] ps[j] != key && !starts_with(
                ps[j],
                key + seq!['='],
            ),
    ensures
        param_from(ps, key, 0).len() == 0,
{
    lemma_param_without_value(ps, key, k, 0);
}

proof fn lemma_param_without_value(ps: Seq<Seq<char>>, key: Seq<char>, k: int, i: int)
    requires
        -1 <= k < ps.len(),
        0 <= i <= ps.len(),
        k >= 0 ==> i <= k,
        !key.contains('='),
        k >= 0 ==> ps[k] == key,
        forall|j: int|
            0 <= j < ps.len() && (k < 0 || j < k) ==> #[trigger] ps[j] != key && !starts_with(
                ps[j],
                key + seq!['='],
            ),
    ensures
        param_from(ps, key, i).len() == 0,
    decreases ps.len() - i,
{
    if i < ps.len() {
        let piece = ps[i];
        reveal_strlit("=");
        assert("="@ =~= seq!['=']);
        lemma_find_any_from(piece, "="@, 0);
        match find_any(piece, "="@) {
            Some(p) => {
                assert(piece.contains(piece[p]));
                if piece.take(p) == key {
                    assert(piece.subrange(0, 0 + (key + seq!['=']).len() as int) =~= key
                        + seq!['=']);
                }
            },
            None => {},
        }
        if i != k {
            assert(piece != key);
            lemma_param_without_value(ps, key, k, i + 1);
        }
    }
}

/// Pieces of a form without an equals sign are passed over.
pub proof fn law_form_passes_over(ps: Seq<Seq<char>>, more: Seq<char>)
    requires
        !more.contains('='),
    ensures
        form_pairs(ps.push(more)) == form_pairs(ps),
{
    reveal_strlit("=");
    assert("="@ =~= seq!['=']);
    lemma_find_any_from(more, "="@, 0);
    match find_any(more, "="@) {
        Some(p) => {
            assert(more.contains(more[p]));
        },
        None => {},
    }
    assert(ps.push(more).drop_last() =~= ps);
}

/// A line of the state file gives its value to its key, without white space round the
/// key, in place of an earlier one; a line without an equals sign gives nothing, and
/// the value is everything behind the first equals sign.
pub proof fn law_state_line(
    ls: Seq<Seq<char>>,
    before: Seq<char>,
    key: Seq<char>,
    behind: Seq<char>,
    value: Seq<char>,
    other: Seq<char>,
    blank: Seq<char>,
)
    requires
        forall|i: int| 0 <= i < before.len() ==> is_space(#[trigger] before[i]),
        forall|i: int| 0 <= i < behind.len() ==> is_space(#[trigger] behind[i]),
        key.len() > 0,
        !is_space(key[0]),
        !is_space(key.last()),
        !key.contains('='),
        !blank.contains('='),
        other != key,
    ensures
        ({
            let new = pairs_of_lines(ls.push(before + key + behind + seq!['='] + value));
            &&& lookup(new, key) == Some(value)
            &&& lookup(new, other) == lookup(pairs_of_lines(ls), other)
            &&& pairs_of_lines(ls.push(blank)) == pairs_of_lines(ls)
        }),
{
    let name = before + key + behind;
    let line = name + seq!['='] + value;
    reveal_strlit("=");
    assert("="@ =~= seq!['=']);
    assert forall|i: int| 0 <= i < name.len() implies #[trigger] name[i] != '=' by {
        if i < before.len() {
            assert(is_space(before[i]));
        } else if i < before.len() + key.len() {
            assert(key.contains(key[i - before.len()]));
        } else {
            assert(is_space(behind[i - before.len() - key.len()]));
        }
    }
    lemma_split_once(name, '=', value, "="@);
    law_trim(before, key, behind);
    assert(ls.push(line).drop_last() =~= ls);
    assert(ls.push(blank).drop_last() =~= ls);
    lemma_lines_distinct(ls);
    law_insert_lookup(pairs_of_lines(ls), key, value, other);
    lemma_find_any_from(blank, "="@, 0);
    match find_any(blank, "="@) {
        Some(p) => {
            assert(blank.contains(blank[p]));
        },
        None => {},
    }
}

proof fn lemma_lines_distinct(ls: Seq<Seq<char>>)
    ensures
        distinct(pairs_of_lines(ls)),
    decreases ls.len(),
{
    if ls.len() > 0 {
        lemma_lines_distinct(ls.drop_last());
        match split_once(ls.last(), "="@) {
            None => {},
            Some((k, v)) => {
                law_insert_lookup(pairs_of_lines(ls.drop_last()), trim(k), v, trim(k));
            },
        }
    }
}

/// The password of a login form is the value of its last field named `password`, and
/// empty where there is none.
pub proof fn law_password_in_form(fs: Seq<(Seq<char>, Seq<char>)>, k: int)
    requires
        fs.len() > 0,
        -1 <= k < fs.len(),
        k >= 0 ==> fs[k].0 == "password"@,
        forall|j: int| k < j < fs.len() ==> (#[trigger] fs[j]).0 != "password"@,
        forall|j: int|
            0 <= j < fs.len() ==> is_ascii_chars((#[trigger] fs[j]).0) && is_ascii_chars(fs[j].1),
    ensures
        password_in(joined_by(encoded_fields(fs), '&')) == (if k >= 0 {
            fs[k].1
        } else {
            Seq::empty()
        }),
{
    law_form_field_found(fs, "password"@, k);
}

/// The page about a runner is asked for with its host name: the query behind the
/// question mark gives the host name back.
pub proof fn law_status_url_names_host(hostname: Seq<char>)
    requires
        is_ascii_chars(hostname),
    ensures
        split_once(status_url(hostname), "?"@) matches Some((page, query)) && page
            == "https://wind-tunnel-runner-status.holochain.org/status"@ && param_from(
            split(query, "&"@),
            "hostname"@,
            0,
        ) == hostname,
{
    let url = status_url(hostname);
    let enc = percent_encoded(encode_utf8(hostname));
    let page = "https://wind-tunnel-runner-status.holochain.org/status"@;
    let query = "hostname"@ + seq!['='] + enc;
    reveal_strlit("https://wind-tunnel-runner-status.holochain.org/status?hostname=");
    reveal_strlit("https://wind-tunnel-runner-status.holochain.org/status");
    reveal_strlit("hostname");
    reveal_strlit("?");
    assert("?"@ =~= seq!['?']);
    assert(url =~= page + seq!['?'] + query);
    assert(!page.contains('?'));
    lemma_split_once(page, '?', query, "?"@);
    law_query_round_trip("hostname"@, hostname);
}

} // verus!
