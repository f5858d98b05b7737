//! Escaping text for the languages it is written into.
use vstd::prelude::*;

use crate::text::starts_with;

verus! {

/// A language in which some characters have to be escaped.
#[derive(Clone, Copy, Debug, PartialEq, Eq)]
pub enum Escape {
    /// Inside a JSON string: the backslash and the double quote.
    Json,
    /// In HTML text or a double-quoted attribute.
    Html,
    /// Inside a single-quoted word of the shell.
    Shell,
    /// Inside a single-quoted JavaScript string: the backslash and the quote.
    Script,
}

/// What stands for one character.
pub open spec fn escaped_char(c: char, kind: Escape) -> Seq<char> {
    match kind {
        Escape::Json => if c == '\\' {
            "\\\\"@
        } else if c == '"' {
            "\\\""@
        } else {
            seq![c]
        },
        Escape::Html => if c == '&' {
            "&amp;"@
        } else if c == '<' {
            "&lt;"@
        } else if c == '>' {
            "&gt;"@
        } else if c == '"' {
            "&quot;"@
        } else {
            seq![c]
        },
        Escape::Shell => if c == '\'' {
            "'\\''"@
        } else {
            seq![c]
        },
        Escape::Script => if c == '\\' {
            "\\\\"@
        } else if c == '\'' {
            "\\'"@
        } else {
            seq![c]
        },
    }
}

/// The text with each character escaped.
pub open spec fn escaped(s: Seq<char>, kind: Escape) -> Seq<char>
    decreases s.len(),
{
    if s.len() == 0 {
        seq![]
    } else {
        escaped(s.drop_last(), kind) + escaped_char(s.last(), kind)
    }
}

/// Appends one character, escaped.
fn push_escaped(out: &mut String, c: char, kind: Escape)
    ensures
        final(out)@ == old(out)@ + escaped_char(c, kind),
{
    let replacement: Option<&str> = match kind {
        Escape::Json => if c == '\\' {
            Some("\\\\")
        } else if c == '"' {
            Some("\\\"")
        } else {
            None
        },
        Escape::Html => if c == '&' {
            Some("&amp;")
        } else if c == '<' {
            Some("&lt;")
        } else if c == '>' {
            Some("&gt;")
        } else if c == '"' {
            Some("&quot;")
        } else {
            None
        },
        Escape::Shell => if c == '\'' {
            Some("'\\''")
        } else {
            None
        },
        Escape::Script => if c == '\\' {
            Some("\\\\")
        } else if c == '\'' {
            Some("\\'")
        } else {
            None
        },
    };
    match replacement {
        Some(text) => out.append(text),
        None => {
            out.push(c);
            assert(out@ =~= old(out)@ + seq![c]);
        },
    }
}

/// The text with each character escaped.
pub fn escape(s: &str, kind: Escape) -> (r: String)
    ensures
        r@ == escaped(s@, kind),
{
    let mut out = String::new();
    for c in it: s.chars()
        invariant
            it.seq() == s@,
            out@ == escaped(s@.take(it.index() as int), kind),
    {
        assert(s@.take(it.index() + 1).drop_last() =~= s@.take(it.index() as int));
        push_escaped(&mut out, c, kind);
    }
    assert(s@.take(s@.len() as int) =~= s@);
    out
}

/// Text to stand inside a JSON string.
pub fn json_escape(s: &str) -> (r: String)
    ensures
        r@ == escaped(s@, Escape::Json),
{
    escape(s, Escape::Json)
}

/// Text to stand in HTML.
pub fn html_escape(s: &str) -> (r: String)
    ensures
        r@ == escaped(s@, Escape::Html),
{
    escape(s, Escape::Html)
}

/// A word of the shell in single quotes.
pub open spec fn single_quoted(s: Seq<char>) -> Seq<char> {
    seq!['\''] + escaped(s, Escape::Shell) + seq!['\'']
}

/// The text as one word of the shell, in single quotes.
pub fn shell_single_quote(s: &str) -> (r: String)
    ensures
        r@ == single_quoted(s@),
{
    let mut out = String::new();
    out.push('\'');
    out.append(escape(s, Escape::Shell).as_str());
    out.push('\'');
    assert(out@ =~= single_quoted(s@));
    out
}

/// Text without the characters that JSON escapes stays as it is.
pub proof fn lemma_json_plain(s: Seq<char>)
    requires
        !s.contains('"'),
        !s.contains('\\'),
    ensures
        escaped(s, Escape::Json) == s,
    decreases s.len(),
{
    if s.len() > 0 {
        let before = s.drop_last();
        assert forall|i: int| 0 <= i < before.len() implies before[i] != '"' && before[i]
            != '\\' by {
            assert(before[i] == s[i]);
        }
        lemma_json_plain(before);
        assert(s[s.len() - 1] == s.last());
        assert(before + seq![s.last()] =~= s);
    } else {
        assert(escaped(s, Escape::Json) =~= s);
    }
}

// ---------------------------------------------------------------------------
// What the reader of escaped text sees
// ---------------------------------------------------------------------------

/// The word that the shell reads from text of quotes and escapes; `quoted` says
/// whether the text begins inside single quotes. `None` where a quote is not
/// closed or something stands outside the quotes that is not escaped.
pub open spec fn shell_word(s: Seq<char>, quoted: bool) -> Option<Seq<char>>
    decreases s.len(),
{
    if s.len() == 0 {
        if quoted {
            None
        } else {
            Some(seq![])
        }
    } else if s[0] == '\'' {
        shell_word(s.skip(1), !quoted)
    } else if quoted {
        match shell_word(s.skip(1), true) {
            Some(rest) => Some(seq![s[0]] + rest),
            None => None,
        }
    } else if s[0] == '\\' && s.len() > 1 {
        match shell_word(s.skip(2), false) {
            Some(rest) => Some(seq![s[1]] + rest),
            None => None,
        }
    } else {
        None
    }
}

/// What is read from text in which a backslash makes the next character stand for
/// itself, as it does inside strings of JSON and of scripts.
pub open spec fn backslash_read(s: Seq<char>) -> Seq<char>
    decreases s.len(),
{
    if s.len() == 0 {
        seq![]
    } else if s[0] == '\\' && s.len() > 1 {
        seq![s[1]] + backslash_read(s.skip(2))
    } else {
        seq![s[0]] + backslash_read(s.skip(1))
    }
}

/// The character that an entity at the beginning of a text stands for, and the
/// length of the entity; any other beginning stands for itself.
pub open spec fn entity(s: Seq<char>) -> (char, int) {
    if starts_with(s, "&amp;"@) {
        ('&', 5)
    } else if starts_with(s, "&lt;"@) {
        ('<', 4)
    } else if starts_with(s, "&gt;"@) {
        ('>', 4)
    } else if starts_with(s, "&quot;"@) {
        ('"', 6)
    } else {
        (s[0], 1)
    }
}

/// What a browser reads from HTML text.
pub open spec fn html_read(s: Seq<char>) -> Seq<char>
    decreases s.len(),
{
    if s.len() == 0 {
        seq![]
    } else {
        proof {
            reveal_strlit("&amp;");
            reveal_strlit("&lt;");
            reveal_strlit("&gt;");
            reveal_strlit("&quot;");
        }
        seq![entity(s).0] + html_read(s.skip(entity(s).1))
    }
}

proof fn lemma_escaped_front(s: Seq<char>, kind: Escape)
    requires
        s.len() > 0,
    ensures
        escaped(s, kind) == escaped_char(s[0], kind) + escaped(s.drop_first(), kind),
    decreases s.len(),
{
    let rest = s.drop_first();
    if s.len() == 1 {
        assert(s.drop_last() =~= Seq::<char>::empty());
        assert(rest =~= Seq::<char>::empty());
        assert(escaped(s, kind) =~= escaped_char(s[0], kind) + escaped(rest, kind));
    } else {
        lemma_escaped_front(s.drop_last(), kind);
        assert(s.drop_last().drop_first() =~= rest.drop_last());
        assert(escaped(s, kind) =~= escaped_char(s[0], kind) + (escaped(rest.drop_last(), kind)
            + escaped_char(rest.last(), kind)));
    }
}

proof fn lemma_shell_reads(s: Seq<char>)
    ensures
        shell_word(escaped(s, Escape::Shell) + seq!['\''], true) == Some(s),
    decreases s.len(),
{
    let close = seq!['\''];
    if s.len() == 0 {
        let t = escaped(s, Escape::Shell) + close;
        assert(t =~= close);
        assert(t.skip(1) =~= Seq::<char>::empty());
        assert(shell_word(t.skip(1), false) == Some(Seq::<char>::empty()));
        assert(s =~= Seq::<char>::empty());
    } else {
        let rest = s.drop_first();
        lemma_escaped_front(s, Escape::Shell);
        lemma_shell_reads(rest);
        let tail = escaped(rest, Escape::Shell) + close;
        let t = escaped(s, Escape::Shell) + close;
        assert(seq![s[0]] + rest =~= s);
        if s[0] == '\'' {
            reveal_strlit("'\\''");
            assert(t =~= seq!['\'', '\\', '\'', '\''] + tail);
            assert(t.skip(1) =~= seq!['\\', '\'', '\''] + tail);
            assert(t.skip(1).skip(2) =~= seq!['\''] + tail);
            assert(t.skip(1).skip(2).skip(1) =~= tail);
            assert(shell_word(t.skip(1).skip(2), false) == shell_word(tail, true));
            assert(shell_word(t.skip(1), false) == Some(seq!['\''] + rest));
        } else {
            assert(t =~= seq![s[0]] + tail);
            assert(t.skip(1) =~= tail);
        }
    }
}

/// The shell reads the quoted text as one word, and that word is the text.
pub proof fn law_shell_reads_back(s: Seq<char>)
    ensures
        shell_word(single_quoted(s), false) == Some(s),
{
    lemma_shell_reads(s);
    assert(single_quoted(s).skip(1) =~= escaped(s, Escape::Shell) + seq!['\'']);
}

/// JSON and scripts read escaped text as the text.
pub proof fn law_backslashes_read_back(s: Seq<char>, kind: Escape)
    requires
        kind == Escape::Json || kind == Escape::Script,
    ensures
        backslash_read(escaped(s, kind)) == s,
    decreases s.len(),
{
    if s.len() == 0 {
        assert(backslash_read(escaped(s, kind)) =~= s);
    } else {
        let rest = s.drop_first();
        lemma_escaped_front(s, kind);
        law_backslashes_read_back(rest, kind);
        let tail = escaped(rest, kind);
        let t = escaped(s, kind);
        assert(seq![s[0]] + rest =~= s);
        reveal_strlit("\\\\");
        reveal_strlit("\\\"");
        reveal_strlit("\\'");
        if escaped_char(s[0], kind).len() == 2 {
            assert(t =~= seq!['\\', s[0]] + tail);
            assert(t.skip(2) =~= tail);
        } else {
            assert(t =~= seq![s[0]] + tail);
            assert(t.skip(1) =~= tail);
        }
    }
}

proof fn lemma_entity(c: char, tail: Seq<char>)
    ensures
        entity(escaped_char(c, Escape::Html) + tail) == (
            c,
            escaped_char(c, Escape::Html).len() as int,
        ),
{
    let piece = escaped_char(c, Escape::Html);
    let t = piece + tail;
    reveal_strlit("&amp;");
    reveal_strlit("&lt;");
    reveal_strlit("&gt;");
    reveal_strlit("&quot;");
    assert forall|e: Seq<char>| #[trigger] starts_with(t, e) && e.len() > 1 implies t[0] == e[0]
        && t[1] == e[1] by {
        assert(t.subrange(0, 0 + e.len() as int)[0] == e[0]);
        assert(t.subrange(0, 0 + e.len() as int)[1] == e[1]);
    }
    assert(t[0] == piece[0]);
    if piece.len() > 1 {
        assert(t.subrange(0, 0 + piece.len() as int) =~= piece);
        assert(t[1] == piece[1]);
    }
}

/// A browser reads text for HTML as the text.
pub proof fn law_html_reads_back(s: Seq<char>)
    ensures
        html_read(escaped(s, Escape::Html)) == s,
    decreases s.len(),
{
    if s.len() == 0 {
        assert(html_read(escaped(s, Escape::Html)) =~= s);
    } else {
        let rest = s.drop_first();
        lemma_escaped_front(s, Escape::Html);
        law_html_reads_back(rest);
        let piece = escaped_char(s[0], Escape::Html);
        let tail = escaped(rest, Escape::Html);
        lemma_entity(s[0], tail);
        assert(piece.len() > 0) by {
            reveal_strlit("&amp;");
            reveal_strlit("&lt;");
            reveal_strlit("&gt;");
            reveal_strlit("&quot;");
        }
        assert((piece + tail).skip(piece.len() as int) =~= tail);
        assert(seq![s[0]] + rest =~= s);
    }
}

/// Text for HTML has no character in it that opens or closes a tag or ends an
/// attribute.
pub proof fn law_html_is_text(s: Seq<char>)
    ensures
        forall|i: int|
            0 <= i < escaped(s, Escape::Html).len() ==> #[trigger] escaped(s, Escape::Html)[i]
                != '<' && escaped(s, Escape::Html)[i] != '>' && escaped(s, Escape::Html)[i] != '"',
    decreases s.len(),
{
    if s.len() > 0 {
        law_html_is_text(s.drop_last());
        reveal_strlit("&amp;");
        reveal_strlit("&lt;");
        reveal_strlit("&gt;");
        reveal_strlit("&quot;");
        let before = escaped(s.drop_last(), Escape::Html);
        let last = escaped_char(s.last(), Escape::Html);
        assert forall|i: int| 0 <= i < before.len() + last.len() implies #[trigger] escaped(
            s,
            Escape::Html,
        )[i] != '<' && escaped(s, Escape::Html)[i] != '>' && escaped(s, Escape::Html)[i]
            != '"' by {
            if i >= before.len() {
                assert(escaped(s, Escape::Html)[i] == last[i - before.len()]);
            }
        }
    }
}

} // verus!
