//! The node password: how it is kept and checked.
use vstd::prelude::*;

use crate::number::{hex, hex_of, is_lower_hex, lemma_hex};
use crate::split::{
    cut, is_space, lemma_split_once, lemma_trim_id, split_once, trim, trim_start, trimmed, word_len,
    words, words_of,
};
use crate::text::{
    chars_of, find_any, lemma_find_any_from, opt, opt_str, same, same_chars, string_of, texts,
};

verus! {

/// Where the password hash is kept.
pub const AUTH_FILE: &'static str = "/etc/node-manager/auth";

/// The port on which the server listens.
pub const LISTEN_PORT: u16 = 80;

/// How many random bytes a salt takes: they make eight hexadecimal digits.
pub const SALT_BYTES: usize = 4;

/// The fewest characters that a password may have.
pub const PASSWORD_MIN: usize = 8;

/// The line of the shell that prints the address of the node.
pub const ADDRESS_SCRIPT: &'static str =
    "ip -4 addr show scope global | grep -oP '(?<=inet )\\d+\\.\\d+\\.\\d+\\.\\d+' | head -1";

// ---------------------------------------------------------------------------
// Random text
// ---------------------------------------------------------------------------

/// Random bytes in hexadecimal.
pub fn random_hex(bytes: &[u8]) -> (r: String)
    ensures
        r@ == hex(bytes@),
{
    hex_of(bytes)
}

// ---------------------------------------------------------------------------
// The stored hash
// ---------------------------------------------------------------------------

/// The text whose digest is kept: the salt, a colon and the password.
pub open spec fn salted(salt: Seq<char>, password: Seq<char>) -> Seq<char> {
    salt + seq![':'] + password
}

/// What is kept of a password: the method, the salt and the digest.
pub open spec fn auth_record(salt: Seq<char>, digest: Seq<char>) -> Seq<char> {
    "sha256:"@ + salt + seq![':'] + digest
}

/// Salt and digest of what is kept; `None` where it has another form.
pub open spec fn auth_parts(stored: Seq<char>) -> Option<(Seq<char>, Seq<char>)> {
    match split_once(trim(stored), ":"@) {
        None => None,
        Some((method, rest)) => if method == "sha256"@ {
            split_once(rest, ":"@)
        } else {
            None
        },
    }
}

/// The text whose digest decides whether `input` is the password behind what is
/// kept.
pub open spec fn challenge(input: Seq<char>, stored: Seq<char>) -> Option<Seq<char>> {
    match auth_parts(stored) {
        None => None,
        Some((salt, _)) => Some(salted(salt, input)),
    }
}

/// A digest is the one that is kept; the empty digest never is.
pub open spec fn digest_accepted(stored: Seq<char>, digest: Seq<char>) -> bool {
    match auth_parts(stored) {
        None => false,
        Some((_, kept)) => digest.len() > 0 && digest == trim(kept),
    }
}

/// The digest in the output of `sha256sum`: its first word.
pub open spec fn digest_printed(output: Seq<char>) -> Seq<char> {
    if words(trim(output)).len() > 0 {
        words(trim(output))[0]
    } else {
        Seq::empty()
    }
}

/// The digest that `sha256sum` printed: the first word of its output.
pub fn sha256_of(output: &str) -> (r: String)
    ensures
        r@ == digest_printed(output@),
        r@ == (if words(trim(output@)).len() > 0 {
            words(trim(output@))[0]
        } else {
            Seq::empty()
        }),
{
    let o = chars_of(output);
    let ws = words_of(trimmed(o.as_slice()));
    if ws.len() > 0 {
        assert(texts(ws@)[0] == ws@[0]@);
        string_of(ws[0])
    } else {
        String::new()
    }
}

/// The text whose digest is kept with a password.
pub fn salted_password(salt: &str, password: &str) -> (r: String)
    ensures
        r@ == salted(salt@, password@),
{
    let mut out = String::new();
    out.append(salt);
    out.push(':');
    out.append(password);
    assert(out@ =~= salted(salt@, password@));
    out
}

/// What is kept of a password, given the bytes of the salt and the digest of the
/// salted password. Its salt has eight hexadecimal digits.
pub fn hash_password(salt: &[u8; SALT_BYTES], digest: &str) -> (r: String)
    ensures
        r@ == auth_record(hex(salt@), digest@),
        hex(salt@).len() == 8,
        hex_text(hex(salt@)),
{
    proof {
        lemma_hex(salt@);
    }
    let mut out = String::new();
    out.append("sha256:");
    out.append(random_hex(salt.as_slice()).as_str());
    out.push(':');
    out.append(digest);
    assert(out@ =~= auth_record(hex(salt@), digest@));
    out
}

/// Salt and digest of what is kept.
fn parts_of(stored: &str) -> (r: Option<(String, String)>)
    ensures
        (match r {
            Some((salt, digest)) => auth_parts(stored@) == Some((salt@, digest@)),
            None => auth_parts(stored@) is None,
        }),
{
    let s = chars_of(stored);
    match cut(trimmed(s.as_slice()), ":") {
        None => None,
        Some((method, rest)) => {
            if !same(string_of(method).as_str(), "sha256") {
                return None;
            }
            match cut(rest, ":") {
                None => None,
                Some((salt, digest)) => Some((string_of(salt), string_of(digest))),
            }
        },
    }
}

/// The text whose digest decides whether `input` is the password.
pub fn password_challenge(input: &str, stored: &str) -> (r: Option<String>)
    ensures
        opt(r) == challenge(input@, stored@),
{
    match parts_of(stored) {
        None => None,
        Some((salt, _)) => Some(salted_password(salt.as_str(), input)),
    }
}

/// Whether the digest of the challenge is the one that is kept.
pub fn verify_password(stored: &str, digest: &str) -> (r: bool)
    ensures
        r == digest_accepted(stored@, digest@),
{
    match parts_of(stored) {
        None => false,
        Some((_, kept)) => {
            let k = chars_of(kept.as_str());
            let d = chars_of(digest);
            d.len() > 0 && same_chars(d.as_slice(), trimmed(k.as_slice()))
        },
    }
}

/// A salt as `random_hex` makes it, or a digest as `sha256sum` prints it.
pub open spec fn hex_text(s: Seq<char>) -> bool {
    forall|i: int| 0 <= i < s.len() ==> is_lower_hex(#[trigger] s[i])
}

/// Salt and digest are found again in what is kept of a password.
proof fn lemma_auth_parts(salt: Seq<char>, digest: Seq<char>)
    requires
        hex_text(salt),
        hex_text(digest),
        digest.len() > 0,
    ensures
        auth_parts(auth_record(salt, digest)) == Some((salt, digest)),
{
    let method = "sha256"@;
    let rest = salt + seq![':'] + digest;
    let stored = auth_record(salt, digest);
    reveal_strlit(":");
    assert(":"@ =~= seq![':']);
    assert(stored =~= method + seq![':'] + rest && stored[0] == 's' && !method.contains(':')) by {
        reveal_strlit("sha256:");
        reveal_strlit("sha256");
    }
    assert(is_lower_hex(digest[digest.len() - 1]));
    assert(stored.last() == digest[digest.len() - 1]);
    lemma_trim_id(stored);
    lemma_split_once(method, ':', rest, ":"@);
    assert(!salt.contains(':')) by {
        if salt.contains(':') {
            let i = choose|i: int| 0 <= i < salt.len() && salt[i] == ':';
            assert(is_lower_hex(salt[i]));
        }
    }
    lemma_split_once(salt, ':', digest, ":"@);
}

/// What is kept of a password accepts the digest of that password under the same
/// salt, and no other digest.
pub proof fn law_password_round_trip(salt: Seq<char>, digest: Seq<char>, input: Seq<char>)
    requires
        hex_text(salt),
        hex_text(digest),
        digest.len() > 0,
    ensures
        challenge(input, auth_record(salt, digest)) == Some(salted(salt, input)),
        forall|d: Seq<char>| digest_accepted(auth_record(salt, digest), d) <==> d == digest,
{
    lemma_auth_parts(salt, digest);
    assert(is_lower_hex(digest[0]));
    assert(is_lower_hex(digest[digest.len() - 1]));
    lemma_trim_id(digest);
}

/// What is kept in another form accepts nothing: another method, or no salt and digest
/// with colons between. An empty digest is never accepted.
pub proof fn law_other_records_accept_nothing(
    method: Seq<char>,
    rest: Seq<char>,
    input: Seq<char>,
    digest: Seq<char>,
    stored: Seq<char>,
)
    requires
        !method.contains(':'),
        trim(method + seq![':'] + rest) == method + seq![':'] + rest,
        method != "sha256"@ || !rest.contains(':'),
        !trim(stored).contains(':'),
    ensures
        challenge(input, method + seq![':'] + rest) is None,
        !digest_accepted(method + seq![':'] + rest, digest),
        challenge(input, stored) is None,
        !digest_accepted(stored, digest),
        forall|kept: Seq<char>| !digest_accepted(kept, Seq::<char>::empty()),
{
    reveal_strlit(":");
    assert(":"@ =~= seq![':']);
    lemma_split_once(method, ':', rest, ":"@);
    lemma_find_any_from(rest, ":"@, 0);
    lemma_find_any_from(trim(stored), ":"@, 0);
    match find_any(rest, ":"@) {
        Some(p) => {
            assert(rest.contains(rest[p]));
        },
        None => {},
    }
    match find_any(trim(stored), ":"@) {
        Some(p) => {
            assert(trim(stored).contains(trim(stored)[p]));
        },
        None => {},
    }
}

/// The digest of a text is taken with its salt in front and a colon between, so two
/// passwords under one salt never give the same text.
pub proof fn law_salted_texts_differ(salt: Seq<char>, password: Seq<char>, other: Seq<char>)
    ensures
        salted(salt, password) == salted(salt, other) <==> password == other,
        salted(salt, password) == salt + ":"@ + password,
{
    reveal_strlit(":");
    assert(":"@ =~= seq![':']);
    let a = salted(salt, password);
    let b = salted(salt, other);
    assert(a.skip(salt.len() as int + 1) =~= password);
    assert(b.skip(salt.len() as int + 1) =~= other);
}

/// A digest that white space follows, and whatever stands behind that, is the one that
/// is read.
pub proof fn law_digest_printed(digest: Seq<char>, gap: char, rest: Seq<char>)
    requires
        hex_text(digest),
        digest.len() > 0,
        is_space(gap),
        rest.len() > 0,
        !is_space(rest.last()),
    ensures
        digest_printed(digest + seq![gap] + rest) == digest,
{
    let output = digest + seq![gap] + rest;
    assert(is_lower_hex(digest[0]));
    assert(output[0] == digest[0]);
    assert(output.last() == rest.last());
    lemma_trim_id(output);
    lemma_first_word(digest, gap, rest);
}

proof fn lemma_first_word(word: Seq<char>, gap: char, rest: Seq<char>)
    requires
        word.len() > 0,
        is_space(gap),
        forall|i: int| 0 <= i < word.len() ==> !is_space(#[trigger] word[i]),
    ensures
        words(word + seq![gap] + rest).len() > 0,
        words(word + seq![gap] + rest)[0] == word,
{
    let s = word + seq![gap] + rest;
    assert(!is_space(word[0]));
    assert(s[0] == word[0]);
    assert(trim_start(s) == s);
    lemma_word_ends(word, gap, rest);
    assert(s.take(word.len() as int) =~= word);
}

/// A word ends where white space follows.
pub proof fn lemma_word_ends(word: Seq<char>, gap: char, rest: Seq<char>)
    requires
        is_space(gap),
        forall|i: int| 0 <= i < word.len() ==> !is_space(#[trigger] word[i]),
    ensures
        word_len(word + seq![gap] + rest) == word.len(),
    decreases word.len(),
{
    let s = word + seq![gap] + rest;
    if word.len() == 0 {
        assert(s[0] == gap);
    } else {
        assert(!is_space(word[0]));
        let more = word.drop_first();
        assert forall|i: int| 0 <= i < more.len() implies !is_space(#[trigger] more[i]) by {
            assert(more[i] == word[i + 1]);
        }
        lemma_word_ends(more, gap, rest);
        assert(s.drop_first() =~= more + seq![gap] + rest);
    }
}

/// The address of the node is what was printed, without white space round it; where
/// nothing was printed there is a stand-in.
pub proof fn law_address(output: Seq<char>)
    ensures
        trim(output).len() > 0 ==> ip_or_placeholder(output) == trim(output),
        trim(output).len() == 0 ==> ip_or_placeholder(output) == "<node-ip>"@,
{
}

/// The salt of what is kept of a password has eight hexadecimal digits and stands
/// between the first colon and the second.
pub proof fn law_salt_digits(salt: Seq<u8>, digest: Seq<char>)
    requires
        salt.len() == SALT_BYTES,
        hex_text(digest),
        digest.len() > 0,
    ensures
        auth_parts(auth_record(hex(salt), digest)) == Some((hex(salt), digest)),
        hex(salt).len() == 8,
        hex_text(hex(salt)),
{
    lemma_hex(salt);
    lemma_auth_parts(hex(salt), digest);
}

/// What is kept of a password: the content of the file without white space at its
/// ends, nothing where there is no file.
pub open spec fn kept_auth(content: Option<Seq<char>>) -> Seq<char> {
    match content {
        Some(c) => trim(c),
        None => Seq::empty(),
    }
}

/// What is kept of a password, given the content of the file where there is one.
/// It is blank as long as no password has been chosen.
pub fn load_or_create_auth(content: Option<&str>) -> (r: String)
    ensures
        r@ == kept_auth(opt_str(content)),
{
    match content {
        None => String::new(),
        Some(text) => {
            let c = chars_of(text);
            string_of(trimmed(c.as_slice()))
        },
    }
}

/// As long as no password has been chosen, none is accepted.
pub proof fn law_no_password_yet(content: Option<Seq<char>>, input: Seq<char>, digest: Seq<char>)
    requires
        content matches Some(c) ==> trim(c).len() == 0,
    ensures
        kept_auth(content).len() == 0,
        challenge(input, kept_auth(content)) is None,
        !digest_accepted(kept_auth(content), digest),
{
    let stored = kept_auth(content);
    assert(stored =~= Seq::empty());
    assert(trim(stored) =~= stored);
}

// ---------------------------------------------------------------------------
// The address of the node
// ---------------------------------------------------------------------------

/// The address of the node: what was printed, without white space at its ends,
/// or a stand-in where that is empty.
pub open spec fn ip_or_placeholder(output: Seq<char>) -> Seq<char> {
    if trim(output).len() == 0 {
        "<node-ip>"@
    } else {
        trim(output)
    }
}

/// The address of the node, given what the command that looks it up printed.
pub fn get_local_ip(output: &str) -> (r: String)
    ensures
        r@ == ip_or_placeholder(output@),
{
    let o = chars_of(output);
    let t = trimmed(o.as_slice());
    if t.len() == 0 {
        "<node-ip>".to_owned()
    } else {
        string_of(t)
    }
}

} // verus!
