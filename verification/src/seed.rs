//! The recovery seed phrase: how it is made and how it is read.
//!
//! The word list and the checksum of BIP39 come from the crate `bip39`.
use bip39::{Language, Mnemonic};
use vstd::prelude::*;

use crate::split::{is_space, trim_start, word_len, words, words_of};
use crate::text::{ascii_lower, ascii_lowered, chars_of, opt, texts};

verus! {

/// How many random bytes a seed phrase takes.
pub const ENTROPY_BYTES: usize = 16;

/// How many words a seed phrase has.
pub const SEED_WORDS: usize = 12;

/// The English phrase that BIP39 gives random bytes: the words of
/// `Mnemonic::from_entropy` with a space between each two.
pub uninterp spec fn mnemonic_from(entropy: Seq<u8>) -> Seq<char>;

/// The English BIP39 phrase of a text, as `Mnemonic::parse_in` reads it: its words
/// with a space between each two; `None` where the number of words, a word or the
/// checksum is wrong.
pub uninterp spec fn mnemonic_in(text: Seq<char>) -> Option<Seq<char>>;

/// Calls `Mnemonic::from_entropy` and writes the phrase out. The phrase depends on
/// the bytes alone and has the name `mnemonic_from`. Sixteen bytes always give a
/// phrase, and it has twelve words. The English words are made of the letters `a`
/// to `z`, and one space stands between each two. `Mnemonic::parse_in` reads the
/// phrase as itself. Which words they are is left unsaid.
#[verifier::external_body]
fn phrase_from(entropy: &[u8; ENTROPY_BYTES]) -> (r: String)
    ensures
        r@ == mnemonic_from(entropy@),
        words(r@).len() == SEED_WORDS,
        forall|i: int| 0 <= i < r@.len() ==> 'a' <= #[trigger] r@[i] <= 'z' || r@[i] == ' ',
        mnemonic_in(r@) == Some(r@),
{
    match Mnemonic::from_entropy(entropy) {
        Ok(mnemonic) => mnemonic.to_string(),
        Err(_) => String::new(),
    }
}

/// Calls `Mnemonic::parse_in` for English and writes the phrase out that it read.
/// The result depends on the text alone and has the name `mnemonic_in`. Which
/// texts are phrases is left unsaid.
#[verifier::external_body]
fn phrase_in(text: &str) -> (r: Option<String>)
    ensures
        opt(r) == mnemonic_in(text@),
{
    match Mnemonic::parse_in(Language::English, text) {
        Ok(mnemonic) => Some(mnemonic.to_string()),
        Err(_) => None,
    }
}

/// A phrase that can be handed out: BIP39 reads it as itself, it has twelve words,
/// and it is written in small letters with spaces.
pub open spec fn is_seed_phrase(phrase: Seq<char>) -> bool {
    &&& mnemonic_in(phrase) == Some(phrase)
    &&& words(phrase).len() == SEED_WORDS
    &&& forall|i: int|
        0 <= i < phrase.len() ==> 'a' <= #[trigger] phrase[i] <= 'z' || phrase[i] == ' '
}

/// Makes a seed phrase from random bytes.
pub fn make_seed_phrase(entropy: &[u8; ENTROPY_BYTES]) -> (r: String)
    ensures
        r@ == mnemonic_from(entropy@),
        is_seed_phrase(r@),
{
    phrase_from(entropy)
}

/// A text in small letters.
pub open spec fn small(text: Seq<char>) -> Seq<char> {
    text.map_values(|c: char| ascii_lower(c))
}

/// The seed phrase that a text stands for, whatever its capital letters and the
/// white space between its words; `None` where it is none of twelve words.
pub open spec fn seed_phrase_in(text: Seq<char>) -> Option<Seq<char>> {
    twelve_words(mnemonic_in(small(text)))
}

/// A phrase, if there is one and it has twelve words.
pub open spec fn twelve_words(phrase: Option<Seq<char>>) -> Option<Seq<char>> {
    match phrase {
        Some(p) if words(p).len() == SEED_WORDS => Some(p),
        _ => None,
    }
}

/// Reads the seed phrase that a text stands for.
pub fn read_seed_phrase(text: &str) -> (r: Option<String>)
    ensures
        opt(r) == seed_phrase_in(text@),
{
    keep_twelve_words(phrase_in(ascii_lowered(text).as_str()))
}

/// Keeps a phrase that has twelve words.
pub fn keep_twelve_words(phrase: Option<String>) -> (r: Option<String>)
    ensures
        opt(r) == twelve_words(opt(phrase)),
{
    match phrase {
        None => None,
        Some(p) => {
            let c = chars_of(p.as_str());
            let ws = words_of(c.as_slice());
            assert(texts(ws@).len() == ws@.len());
            if ws.len() == SEED_WORDS {
                Some(p)
            } else {
                None
            }
        },
    }
}

/// A text without white space is at most one word.
proof fn lemma_one_word(s: Seq<char>)
    requires
        forall|i: int| 0 <= i < s.len() ==> !is_space(#[trigger] s[i]),
    ensures
        word_len(s) == s.len(),
        words(s).len() <= 1,
    decreases s.len(),
{
    if s.len() > 0 {
        assert(!is_space(s[0]));
        let rest = s.drop_first();
        assert forall|i: int| 0 <= i < rest.len() implies !is_space(#[trigger] rest[i]) by {
            assert(rest[i] == s[i + 1]);
        }
        lemma_one_word(rest);
        let end = s.skip(s.len() as int);
        assert(end =~= Seq::empty());
        assert(trim_start(s) == s);
        assert(words(end).len() == 0);
        assert(words(s) == seq![s.take(s.len() as int)] + words(end));
    }
}

/// There is a space in every seed phrase.
pub proof fn lemma_seed_phrase_has_space(phrase: Seq<char>)
    requires
        is_seed_phrase(phrase),
    ensures
        phrase.contains(' '),
{
    if !phrase.contains(' ') {
        assert forall|i: int| 0 <= i < phrase.len() implies !is_space(#[trigger] phrase[i]) by {
            assert(phrase[i] != ' ');
        }
        lemma_one_word(phrase);
    }
}

/// A phrase is kept exactly where it has twelve words, and capital letters are read as
/// small ones.
pub proof fn law_twelve_words(phrase: Seq<char>, text: Seq<char>, i: int)
    ensures
        twelve_words(Some(phrase)) is Some <==> words(phrase).len() == 12,
        twelve_words(Some(phrase)) matches Some(p) ==> p == phrase,
        twelve_words(None) is None,
        small(text).len() == text.len(),
        0 <= i < text.len() ==> small(text)[i] as int == (if 65 <= text[i] as int <= 90 {
            text[i] as int + 32
        } else {
            text[i] as int
        }),
{
}

/// A seed phrase that was handed out is read as itself, in capital letters too.
pub proof fn law_seed_phrase_is_read(phrase: Seq<char>, text: Seq<char>)
    requires
        is_seed_phrase(phrase),
        small(text) == phrase,
    ensures
        seed_phrase_in(text) == Some(phrase),
        seed_phrase_in(phrase) == Some(phrase),
{
    assert(small(phrase) =~= phrase);
}

} // verus!
