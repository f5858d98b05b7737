//! The SSH keys of the node's user.
use vstd::prelude::*;
use vstd::slice::slice_subrange;

use crate::effects::{effects, no_effects, run3, run4, Effect, EffectView, FileWrite, FileWriteView};
use crate::http::{error, json, Plan, PlanView, Reply, ReplyView};
use crate::json::{after, json_str, rest_after, string_field};
use crate::number::{is_digit, parse_number, parse_up_to};
use crate::split::{
    is_space, lemma_trim_ends, lines, lines_of, trim, trim_end, trim_start, trimmed, trimmed_start,
    without_return,
};
use crate::store::{lemma_lines_concat, lemma_one_line};
use crate::text::{
    begins_with, chars_of, find_any, is_blank, lemma_find_any_from, opt_str, same, starts_with,
    string_of, strings, texts,
};

verus! {

/// The directory of the keys.
pub const SSH_DIR: &'static str = "/home/holo/.ssh";

/// Where the keys are kept.
pub const AUTHORIZED_KEYS: &'static str = "/home/holo/.ssh/authorized_keys";

// ---------------------------------------------------------------------------
// The file
// ---------------------------------------------------------------------------

/// The keys that lines hold: those that are neither blank nor comments, without
/// white space at their ends.
pub open spec fn keys_of_lines(ls: Seq<Seq<char>>) -> Seq<Seq<char>>
    decreases ls.len(),
{
    if ls.len() == 0 {
        seq![]
    } else {
        let before = keys_of_lines(ls.drop_last());
        let key = trim(ls.last());
        if key.len() == 0 || key[0] == '#' {
            before
        } else {
            before.push(key)
        }
    }
}

/// The keys that a file of the given content holds.
pub open spec fn keys_of(content: Seq<char>) -> Seq<Seq<char>> {
    keys_of_lines(lines(content))
}

/// One line for each key.
pub open spec fn key_lines(keys: Seq<Seq<char>>) -> Seq<char>
    decreases keys.len(),
{
    if keys.len() == 0 {
        seq![]
    } else {
        key_lines(keys.drop_last()) + keys.last() + seq!['\n']
    }
}

/// The content of the file of the given keys: one line for each, or one empty
/// line.
pub open spec fn keys_text(keys: Seq<Seq<char>>) -> Seq<char> {
    if keys.len() == 0 {
        seq!['\n']
    } else {
        key_lines(keys)
    }
}

/// The keys that a file of the given content holds.
pub fn read_ssh_keys(content: &str) -> (v: Vec<String>)
    ensures
        strings(v@) == keys_of(content@),
{
    let c = chars_of(content);
    let ls = lines_of(c.as_slice());
    let mut v: Vec<String> = Vec::new();
    let mut i: usize = 0;
    assert(texts(ls@).take(0) =~= Seq::<Seq<char>>::empty());
    assert(strings(v@) =~= Seq::<Seq<char>>::empty());
    while i < ls.len()
        invariant
            i <= ls@.len(),
            strings(v@) == keys_of_lines(texts(ls@).take(i as int)),
        decreases ls@.len() - i,
    {
        assert(texts(ls@).take(i + 1).drop_last() =~= texts(ls@).take(i as int));
        let key = trimmed(ls[i]);
        if !(key.len() == 0 || key[0] == '#') {
            let ghost before = v@;
            v.push(string_of(key));
            assert(strings(v@) =~= strings(before).push(key@));
        }
        i += 1;
    }
    assert(texts(ls@).take(ls@.len() as int) =~= texts(ls@));
    v
}

/// The content of the file of the given keys.
pub fn ssh_keys_text(keys: &Vec<String>) -> (s: String)
    ensures
        s@ == keys_text(strings(keys@)),
{
    let mut s = String::new();
    if keys.len() == 0 {
        s.push('\n');
        assert(s@ =~= seq!['\n']);
        return s;
    }
    let mut i: usize = 0;
    assert(strings(keys@).take(0) =~= Seq::<Seq<char>>::empty());
    while i < keys.len()
        invariant
            i <= keys@.len(),
            s@ == key_lines(strings(keys@).take(i as int)),
        decreases keys@.len() - i,
    {
        assert(strings(keys@).take(i + 1).drop_last() =~= strings(keys@).take(i as int));
        let ghost before = s@;
        s.append(keys[i].as_str());
        s.push('\n');
        assert(s@ =~= before + strings(keys@)[i as int] + seq!['\n']);
        i += 1;
    }
    assert(strings(keys@).take(keys@.len() as int) =~= strings(keys@));
    s
}

/// The file to write for the given keys.
pub open spec fn keys_file(keys: Seq<Seq<char>>) -> FileWriteView {
    FileWriteView { dir: SSH_DIR@, path: AUTHORIZED_KEYS@, content: keys_text(keys) }
}

/// The file to write for the given keys.
pub fn write_ssh_keys(keys: &Vec<String>) -> (r: FileWrite)
    ensures
        r@ == keys_file(strings(keys@)),
{
    FileWrite {
        dir: SSH_DIR.to_owned(),
        path: AUTHORIZED_KEYS.to_owned(),
        content: ssh_keys_text(keys),
    }
}

/// What follows once the keys have been written: they become the user's own.
pub open spec fn keys_secured() -> Seq<EffectView> {
    seq![
        EffectView::Run(seq!["chown"@, "-R"@, "holo:holo"@, SSH_DIR@]),
        EffectView::Run(seq!["chmod"@, "700"@, SSH_DIR@]),
        EffectView::Run(seq!["chmod"@, "600"@, AUTHORIZED_KEYS@]),
    ]
}

/// What follows once the keys have been written.
pub fn secure_ssh_keys() -> (v: Vec<Effect>)
    ensures
        effects(v@) == keys_secured(),
{
    let v = vec![
        run4("chown", "-R", "holo:holo", SSH_DIR),
        run3("chmod", "700", SSH_DIR),
        run3("chmod", "600", AUTHORIZED_KEYS),
    ];
    assert(effects(v@) =~= keys_secured());
    v
}

/// A text that begins as a public key does.
pub open spec fn is_pubkey(key: Seq<char>) -> bool {
    let k = trim(key);
    starts_with(k, "ssh-ed25519 "@) || starts_with(k, "ssh-rsa "@) || starts_with(
        k,
        "ecdsa-sha2-"@,
    ) || starts_with(k, "sk-ssh-"@)
}

/// Whether a text begins as a public key does.
pub fn is_valid_ssh_pubkey(key: &str) -> (r: bool)
    ensures
        r == is_pubkey(key@),
{
    let c = chars_of(key);
    let k = trimmed(c.as_slice());
    let ed = chars_of("ssh-ed25519 ");
    let rsa = chars_of("ssh-rsa ");
    let ec = chars_of("ecdsa-sha2-");
    let sk = chars_of("sk-ssh-");
    begins_with(k, ed.as_slice()) || begins_with(k, rsa.as_slice()) || begins_with(k, ec.as_slice())
        || begins_with(k, sk.as_slice())
}

// ---------------------------------------------------------------------------
// Adding and removing
// ---------------------------------------------------------------------------

/// Whether a text is among the keys.
fn holds(keys: &Vec<String>, key: &str) -> (r: bool)
    ensures
        r == strings(keys@).contains(key@),
{
    let mut i: usize = 0;
    while i < keys.len()
        invariant
            i <= keys@.len(),
            forall|j: int| 0 <= j < i ==> strings(keys@)[j] != key@,
        decreases keys@.len() - i,
    {
        if same(keys[i].as_str(), key) {
            assert(strings(keys@)[i as int] == key@);
            return true;
        }
        i += 1;
    }
    false
}

/// What a request to add a key leads to.
pub open spec fn ssh_add(body: Seq<char>, content: Seq<char>) -> PlanView {
    let key = string_field(body, "key"@);
    if key.len() == 0 {
        PlanView::Answer(ReplyView::Error(400, "key is required"@))
    } else if !is_pubkey(key) {
        PlanView::Answer(ReplyView::Error(400, "Invalid SSH public key format"@))
    } else if keys_of(content).contains(key) {
        PlanView::Answer(ReplyView::Error(409, "Key already present"@))
    } else {
        PlanView::Write(keys_file(keys_of(content).push(key)))
    }
}

/// What a request to add a key leads to, given the content of the keys' file.
pub fn handle_ssh_add(body: &str, content: &str) -> (r: Plan)
    ensures
        r@ == ssh_add(body@, content@),
{
    let key = json_str(body, "key");
    if is_blank(key.as_str()) {
        return Plan::Answer(error(400, "key is required"));
    }
    if !is_valid_ssh_pubkey(key.as_str()) {
        return Plan::Answer(error(400, "Invalid SSH public key format"));
    }
    let mut keys = read_ssh_keys(content);
    if holds(&keys, key.as_str()) {
        return Plan::Answer(error(409, "Key already present"));
    }
    let ghost before = keys@;
    let ghost added = key@;
    keys.push(key);
    assert(strings(keys@) =~= strings(before).push(added));
    Plan::Write(write_ssh_keys(&keys))
}

/// The digits at the beginning of a text.
pub open spec fn leading_digits(s: Seq<char>) -> Seq<char>
    decreases s.len(),
{
    if s.len() > 0 && is_digit(s[0]) {
        seq![s[0]] + leading_digits(s.drop_first())
    } else {
        seq![]
    }
}

/// The digits at the beginning of a text.
fn digits_at_start(s: &[char]) -> (r: &[char])
    ensures
        r@ == leading_digits(s@),
{
    let mut n: usize = 0;
    assert(s@.take(0) =~= Seq::<char>::empty());
    assert(s@.skip(0) =~= s@);
    assert(s@.take(0) + leading_digits(s@.skip(0)) =~= leading_digits(s@));
    while n < s.len() && '0' <= s[n] && s[n] <= '9'
        invariant
            n <= s@.len(),
            s@.take(n as int) + leading_digits(s@.skip(n as int)) == leading_digits(s@),
        decreases s@.len() - n,
    {
        assert(s@.skip(n as int).drop_first() =~= s@.skip(n + 1));
        assert(s@.take(n + 1) + leading_digits(s@.skip(n + 1)) =~= s@.take(n as int) + (
        seq![s@[n as int]] + leading_digits(s@.skip(n + 1))));
        n += 1;
    }
    assert(leading_digits(s@.skip(n as int)) =~= Seq::<char>::empty());
    assert(s@.subrange(0, n as int) =~= leading_digits(s@));
    slice_subrange(s, 0, n)
}

/// What a request to remove a key leads to; the key is named by its place.
pub open spec fn ssh_remove(body: Seq<char>, content: Seq<char>) -> PlanView {
    match after(body, "\"index\":"@) {
        None => PlanView::Answer(ReplyView::Error(400, "index is required"@)),
        Some(rest) => match parse_up_to(leading_digits(trim_start(rest)), usize::MAX as nat) {
            None => PlanView::Answer(ReplyView::Error(400, "invalid index"@)),
            Some(i) => if i >= keys_of(content).len() {
                PlanView::Answer(ReplyView::Error(404, "index out of range"@))
            } else {
                PlanView::Write(keys_file(keys_of(content).remove(i as int)))
            },
        },
    }
}

/// What a request to remove a key leads to, given the content of the keys' file.
pub fn handle_ssh_remove(body: &str, content: &str) -> (r: Plan)
    ensures
        r@ == ssh_remove(body@, content@),
{
    let b = chars_of(body);
    let needle = chars_of("\"index\":");
    let rest = match rest_after(b.as_slice(), needle.as_slice()) {
        None => {
            return Plan::Answer(error(400, "index is required"));
        },
        Some(rest) => rest,
    };
    let index: u64 = match parse_number(digits_at_start(trimmed_start(rest)), usize::MAX as u64) {
        None => {
            return Plan::Answer(error(400, "invalid index"));
        },
        Some(i) => i,
    };
    let mut keys = read_ssh_keys(content);
    if index >= keys.len() as u64 {
        return Plan::Answer(error(404, "index out of range"));
    }
    let ghost before = keys@;
    let gone = keys.remove(index as usize);
    assert(strings(keys@) =~= strings(before).remove(index as int));
    Plan::Write(write_ssh_keys(&keys))
}

/// The effects after an attempt to write the keys.
pub open spec fn keys_attempted(failure: Option<Seq<char>>) -> Seq<EffectView> {
    match failure {
        None => keys_secured(),
        Some(_) => Seq::empty(),
    }
}

/// The answer after an attempt to write the keys: where it failed, its message.
pub open spec fn keys_answer(failure: Option<Seq<char>>, done: Seq<char>) -> ReplyView {
    match failure {
        None => ReplyView::Json(done),
        Some(msg) => ReplyView::Error(500, msg),
    }
}

/// What follows an attempt to write the keys.
fn keys_written(failure: Option<&str>, done: &str) -> (r: (Vec<Effect>, Reply))
    ensures
        effects(r.0@) == keys_attempted(opt_str(failure)),
        r.1@ == keys_answer(opt_str(failure), done@),
{
    match failure {
        None => (secure_ssh_keys(), json(done)),
        Some(msg) => (no_effects(), error(500, msg)),
    }
}

/// The end of a request to add a key, given what went wrong with the file, if
/// anything did.
pub fn finish_ssh_add(failure: Option<&str>) -> (r: (Vec<Effect>, Reply))
    ensures
        effects(r.0@) == keys_attempted(opt_str(failure)),
        r.1@ == keys_answer(opt_str(failure), "{\"status\":\"added\"}"@),
{
    keys_written(failure, "{\"status\":\"added\"}")
}

/// The end of a request to remove a key, given what went wrong with the file, if
/// anything did.
pub fn finish_ssh_remove(failure: Option<&str>) -> (r: (Vec<Effect>, Reply))
    ensures
        effects(r.0@) == keys_attempted(opt_str(failure)),
        r.1@ == keys_answer(opt_str(failure), "{\"status\":\"removed\"}"@),
{
    keys_written(failure, "{\"status\":\"removed\"}")
}

// ---------------------------------------------------------------------------
// What is written is what is read
// ---------------------------------------------------------------------------

/// A key that a line of the file can hold.
pub open spec fn storable_key(key: Seq<char>) -> bool {
    &&& key.len() > 0
    &&& key[0] != '#'
    &&& trim(key) == key
    &&& !key.contains('\n')
}

proof fn lemma_key_lines_end(keys: Seq<Seq<char>>)
    ensures
        key_lines(keys).len() > 0 ==> key_lines(keys).last() == '\n',
{
}

/// Reading the file of storable keys gives back those keys.
pub proof fn law_keys_round_trip(keys: Seq<Seq<char>>)
    requires
        forall|i: int| 0 <= i < keys.len() ==> storable_key(#[trigger] keys[i]),
    ensures
        keys_of(keys_text(keys)) == keys,
    decreases keys.len(),
{
    if keys.len() == 0 {
        lemma_one_line(Seq::<char>::empty());
        assert(Seq::<char>::empty() + seq!['\n'] =~= seq!['\n']);
        let ls = lines(seq!['\n']);
        assert(ls.drop_last() =~= Seq::<Seq<char>>::empty());
        assert(ls.last() == Seq::<char>::empty());
        assert(trim(ls.last()).len() == 0);
        assert(keys_of_lines(ls.drop_last()) =~= keys);
    } else {
        let before = keys.drop_last();
        let key = keys.last();
        assert forall|i: int| 0 <= i < before.len() implies storable_key(#[trigger] before[i]) by {
            assert(before[i] == keys[i]);
        }
        assert(storable_key(keys[keys.len() - 1]));
        law_keys_round_trip(before);
        assert(lines(key_lines(before)) == lines(key_lines(before)));
        lemma_key_lines_end(before);
        assert(key_lines(keys) =~= key_lines(before) + (key + seq!['\n']));
        lemma_lines_concat(key_lines(before), key + seq!['\n']);
        lemma_one_line(key);
        lemma_trim_ends(key);
        assert(without_return(key) == key);
        let ls = lines(key_lines(keys));
        assert(ls.drop_last() =~= lines(key_lines(before)));
        assert(ls.last() == key);
        if before.len() == 0 {
            assert(lines(key_lines(before)) =~= Seq::<Seq<char>>::empty());
            assert(keys_of_lines(lines(key_lines(before))) =~= before);
        }
        assert(before.push(key) =~= keys);
    }
}

proof fn lemma_lines_have_no_feed(s: Seq<char>)
    ensures
        forall|i: int| 0 <= i < lines(s).len() ==> !(#[trigger] lines(s)[i]).contains('\n'),
    decreases s.len(),
{
    if s.len() > 0 {
        reveal_strlit("\n");
        assert("\n"@ =~= seq!['\n']);
        assert("\n"@[0] == '\n');
        lemma_find_any_from(s, "\n"@, 0);
        match find_any(s, "\n"@) {
            None => {},
            Some(p) => {
                lemma_lines_have_no_feed(s.skip(p + 1));
                let first = without_return(s.take(p));
                assert forall|j: int| 0 <= j < first.len() implies first[j] != '\n' by {
                    assert(first[j] == s[j]);
                }
                assert forall|i: int| 0 <= i < lines(s).len() implies !(
                #[trigger] lines(s)[i]).contains('\n') by {
                    if i > 0 {
                        assert(lines(s)[i] == lines(s.skip(p + 1))[i - 1]);
                    }
                }
            },
        }
    }
}

proof fn lemma_trim_part(s: Seq<char>, c: char)
    requires
        !s.contains(c),
    ensures
        !trim(s).contains(c),
{
    lemma_trim_start_part(s, c);
    lemma_trim_end_part(trim_start(s), c);
}

proof fn lemma_trim_start_part(s: Seq<char>, c: char)
    requires
        !s.contains(c),
    ensures
        !trim_start(s).contains(c),
    decreases s.len(),
{
    if s.len() > 0 && is_space(s[0]) {
        assert forall|j: int| 0 <= j < s.drop_first().len() implies s.drop_first()[j] != c by {
            assert(s.drop_first()[j] == s[j + 1]);
        }
        lemma_trim_start_part(s.drop_first(), c);
    }
}

proof fn lemma_trim_end_part(s: Seq<char>, c: char)
    requires
        !s.contains(c),
    ensures
        !trim_end(s).contains(c),
    decreases s.len(),
{
    if s.len() > 0 && is_space(s.last()) {
        assert forall|j: int| 0 <= j < s.drop_last().len() implies s.drop_last()[j] != c by {
            assert(s.drop_last()[j] == s[j]);
        }
        lemma_trim_end_part(s.drop_last(), c);
    }
}

proof fn lemma_keys_of_lines_storable(ls: Seq<Seq<char>>)
    requires
        forall|i: int| 0 <= i < ls.len() ==> !(#[trigger] ls[i]).contains('\n'),
    ensures
        forall|i: int|
            0 <= i < keys_of_lines(ls).len() ==> storable_key(#[trigger] keys_of_lines(ls)[i]),
    decreases ls.len(),
{
    if ls.len() > 0 {
        let before = ls.drop_last();
        assert forall|i: int| 0 <= i < before.len() implies !(#[trigger] before[i]).contains(
            '\n',
        ) by {
            assert(before[i] == ls[i]);
        }
        lemma_keys_of_lines_storable(before);
        assert(!ls[ls.len() - 1].contains('\n'));
        lemma_trim_part(ls.last(), '\n');
        lemma_trim_ends(ls.last());
        assert forall|i: int| 0 <= i < keys_of_lines(ls).len() implies storable_key(
            #[trigger] keys_of_lines(ls)[i],
        ) by {
            if i < keys_of_lines(before).len() {
                assert(keys_of_lines(ls)[i] == keys_of_lines(before)[i]);
            }
        }
    }
}

/// Whatever the file holds, the keys read from it are storable: writing them back
/// changes none of them.
pub proof fn law_read_keys_stay(content: Seq<char>)
    ensures
        forall|i: int|
            0 <= i < keys_of(content).len() ==> storable_key(#[trigger] keys_of(content)[i]),
        keys_of(keys_text(keys_of(content))) == keys_of(content),
{
    lemma_lines_have_no_feed(content);
    lemma_keys_of_lines_storable(lines(content));
    law_keys_round_trip(keys_of(content));
}

/// The keys' file is read line by line: a line with a key gives it, without white space
/// round it, behind those of the lines before; blank lines and comments give none.
pub proof fn law_key_line_read(
    ls: Seq<Seq<char>>,
    line: Seq<char>,
    more: Seq<Seq<char>>,
)
    ensures
        trim(line).len() > 0 && trim(line)[0] != '#' ==> keys_of_lines(ls.push(line))
            == keys_of_lines(ls).push(trim(line)),
        trim(line).len() == 0 || trim(line)[0] == '#' ==> keys_of_lines(ls.push(line))
            == keys_of_lines(ls),
        keys_of_lines(ls + more) == keys_of_lines(ls) + keys_of_lines(more),
    decreases more.len(),
{
    assert(ls.push(line).drop_last() =~= ls);
    if more.len() == 0 {
        assert(ls + more =~= ls);
        assert(keys_of_lines(ls) + keys_of_lines(more) =~= keys_of_lines(ls));
    } else {
        assert((ls + more).drop_last() =~= ls + more.drop_last());
        law_key_line_read(ls, line, more.drop_last());
        assert(keys_of_lines(ls + more) =~= keys_of_lines(ls) + keys_of_lines(more));
    }
}

/// Adding a storable key that is not there yet adds it behind the others, and
/// adding it again is refused.
pub proof fn law_added_key_is_there(body: Seq<char>, content: Seq<char>)
    requires
        storable_key(string_field(body, "key"@)),
        is_pubkey(string_field(body, "key"@)),
    ensures
        ssh_add(body, content) matches PlanView::Write(file) ==> keys_of(file.content) == keys_of(
            content,
        ).push(string_field(body, "key"@)) && ssh_add(body, file.content) == PlanView::Answer(
            ReplyView::Error(409, "Key already present"@),
        ),
        ssh_add(body, content) is Answer <==> keys_of(content).contains(string_field(body, "key"@)),
{
    let key = string_field(body, "key"@);
    law_read_keys_stay(content);
    let after_add = keys_of(content).push(key);
    assert forall|i: int| 0 <= i < after_add.len() implies storable_key(
        #[trigger] after_add[i],
    ) by {
        if i < keys_of(content).len() {
            assert(after_add[i] == keys_of(content)[i]);
        }
    }
    law_keys_round_trip(after_add);
    assert(after_add[after_add.len() - 1] == key);
    assert(after_add.contains(key));
}

/// Removing a key takes away the one at its place and keeps the others in order.
pub proof fn law_removed_key_is_gone(body: Seq<char>, content: Seq<char>, place: nat)
    requires
        after(body, "\"index\":"@) matches Some(rest) && parse_up_to(
            leading_digits(trim_start(rest)),
            usize::MAX as nat,
        ) == Some(place),
        place < keys_of(content).len(),
    ensures
        ssh_remove(body, content) matches PlanView::Write(file) && keys_of(file.content) == keys_of(
            content,
        ).remove(place as int),
{
    law_read_keys_stay(content);
    let left = keys_of(content).remove(place as int);
    assert forall|i: int| 0 <= i < left.len() implies storable_key(#[trigger] left[i]) by {
        if i < place {
            assert(left[i] == keys_of(content)[i]);
        } else {
            assert(left[i] == keys_of(content)[i + 1]);
        }
    }
    law_keys_round_trip(left);
}

} // verus!
