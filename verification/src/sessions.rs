//! Login sessions: tokens that are good until they expire.
//!
//! The sessions live in memory, and a restart clears them. Their file is a record
//! of the sessions of the running server.
use vstd::prelude::*;

use crate::effects::{effects, keep_file, kept_file, no_effects, Effect, EffectView};
use crate::number::{dec, is_digit, lemma_dec_value, parse_number, parse_up_to, push_dec};
use crate::split::{cut, lemma_trim_id, lines, lines_of, split_once, trim, trimmed, without_return};
use crate::store::{
    distinct, inserted, law_insert_lookup, lemma_lines_concat, lemma_one_line, lemma_pair_splits,
    lemma_position, lookup, position_from,
};
use crate::text::{chars_of, find_any, lemma_find_any_from, same, string_of, texts};

verus! {

/// Where the sessions are kept.
pub const SESSIONS_FILE: &'static str = "/etc/node-manager/sessions";

/// How many random bytes a token takes.
pub const TOKEN_BYTES: usize = 32;

/// How long a session lasts, in seconds: one day.
pub const SESSION_TTL_SECS: u64 = 86400;

/// Nanoseconds in a second.
pub const NANOS: u128 = 1000000000;

/// The last second that the clock of the system can tell.
pub const LAST_SECOND: u64 = 9223372036854775807;

/// Tokens with the times at which they expire, in nanoseconds since 1970.
pub type SessionSeq = Seq<(Seq<char>, nat)>;

/// A token that is good until it expires.
#[derive(Debug, PartialEq, Eq)]
pub struct Session {
    pub token: String,
    /// Nanoseconds since the beginning of 1970.
    pub expires: u128,
}

/// The sessions of a list.
pub open spec fn sessions(v: Seq<Session>) -> SessionSeq {
    Seq::new(v.len(), |i: int| (v[i].token@, v[i].expires as nat))
}

/// The sessions that have not expired at a time.
pub open spec fn unexpired(ss: SessionSeq, now: nat) -> SessionSeq
    decreases ss.len(),
{
    if ss.len() == 0 {
        seq![]
    } else if now < ss.last().1 {
        unexpired(ss.drop_last(), now).push(ss.last())
    } else {
        unexpired(ss.drop_last(), now)
    }
}

/// The sessions after a new one has begun.
pub open spec fn begun(ss: SessionSeq, token: Seq<char>, now: nat) -> SessionSeq {
    inserted(unexpired(ss, now), token, (now + SESSION_TTL_SECS * NANOS) as nat)
}

/// A token is good at a time.
pub open spec fn is_good(ss: SessionSeq, token: Seq<char>, now: nat) -> bool {
    match lookup(ss, token) {
        Some(expires) => now < expires,
        None => false,
    }
}

/// The sessions after a token was asked for: one that has expired is dropped.
pub open spec fn after_check(ss: SessionSeq, token: Seq<char>, now: nat) -> SessionSeq {
    match position_from(ss, token, 0) {
        Some(i) if ss[i].1 <= now => ss.remove(i),
        _ => ss,
    }
}

/// The text of the sessions file: a line with token and expiry in seconds for
/// each session.
pub open spec fn sessions_text(ss: SessionSeq) -> Seq<char>
    decreases ss.len(),
{
    if ss.len() == 0 {
        seq![]
    } else {
        sessions_text(ss.drop_last()) + session_line(ss.last().0, ss.last().1)
    }
}

/// One line of the sessions file.
pub open spec fn session_line(token: Seq<char>, expires: nat) -> Seq<char> {
    token + seq!['='] + dec(expires / NANOS as nat) + seq!['\n']
}

/// The sessions after a line of the sessions file was read.
pub open spec fn with_line(before: SessionSeq, line: Seq<char>, now: nat) -> SessionSeq {
    match split_once(line, "="@) {
        None => before,
        Some((k, v)) => match parse_up_to(trim(v), u64::MAX as nat) {
            Some(secs) if secs <= LAST_SECOND && now < secs * NANOS => inserted(
                before,
                trim(k),
                (secs * NANOS) as nat,
            ),
            _ => before,
        },
    }
}

/// The sessions that lines of a sessions file hold and that have not expired.
pub open spec fn sessions_of_lines(ls: Seq<Seq<char>>, now: nat) -> SessionSeq
    decreases ls.len(),
{
    if ls.len() == 0 {
        seq![]
    } else {
        with_line(sessions_of_lines(ls.drop_last(), now), ls.last(), now)
    }
}

/// The position of a token.
fn find_token(v: &Vec<Session>, token: &str) -> (r: Option<usize>)
    ensures
        (match r {
            Some(i) => i < v@.len() && position_from(sessions(v@), token@, 0) == Some(i as int),
            None => position_from(sessions(v@), token@, 0) is None,
        }),
{
    let mut i: usize = 0;
    while i < v.len()
        invariant
            i <= v@.len(),
            position_from(sessions(v@), token@, 0) == position_from(
                sessions(v@),
                token@,
                i as int,
            ),
        decreases v@.len() - i,
    {
        if same(v[i].token.as_str(), token) {
            return Some(i);
        }
        i += 1;
    }
    None
}

/// Puts a session in a list, in place of one with the same token.
fn put(v: &mut Vec<Session>, token: String, expires: u128)
    requires
        distinct(sessions(old(v)@)),
    ensures
        distinct(sessions(final(v)@)),
        sessions(final(v)@) == inserted(sessions(old(v)@), token@, expires as nat),
{
    let ghost t = token@;
    match find_token(v, token.as_str()) {
        None => {
            v.push(Session { token, expires });
            assert(sessions(v@) =~= inserted(sessions(old(v)@), t, expires as nat));
        },
        Some(i) => {
            v[i] = Session { token, expires };
            assert(sessions(v@) =~= inserted(sessions(old(v)@), t, expires as nat));
        },
    }
    proof {
        law_insert_lookup(sessions(old(v)@), t, expires as nat, t);
    }
}

/// Reads a sessions file; sessions that have expired are left out. The server does
/// not take them up again when it starts: see `AppState::new`.
pub fn load_sessions(content: &str, now: u128) -> (v: Vec<Session>)
    ensures
        distinct(sessions(v@)),
        sessions(v@) == sessions_of_lines(lines(content@), now as nat),
{
    let c = chars_of(content);
    let ls = lines_of(c.as_slice());
    let mut v: Vec<Session> = Vec::new();
    let mut i: usize = 0;
    assert(texts(ls@).take(0) =~= Seq::<Seq<char>>::empty());
    assert(sessions(v@) =~= SessionSeq::empty());
    while i < ls.len()
        invariant
            i <= ls@.len(),
            distinct(sessions(v@)),
            sessions(v@) == sessions_of_lines(texts(ls@).take(i as int), now as nat),
        decreases ls@.len() - i,
    {
        assert(texts(ls@).take(i + 1).drop_last() =~= texts(ls@).take(i as int));
        match cut(ls[i], "=") {
            None => {},
            Some((k, value)) => {
                match parse_number(trimmed(value), u64::MAX) {
                    Some(secs) => {
                        let expires: u128 = (secs as u128) * NANOS;
                        if secs <= LAST_SECOND && now < expires {
                            put(&mut v, string_of(trimmed(k)), expires);
                        }
                    },
                    None => {},
                }
            },
        }
        i += 1;
    }
    assert(texts(ls@).take(ls@.len() as int) =~= texts(ls@));
    v
}

/// The effects of keeping the sessions in their file.
pub open spec fn sessions_kept(ss: SessionSeq) -> Seq<EffectView> {
    kept_file(SESSIONS_FILE@, sessions_text(ss))
}

/// Keeps the sessions in their file.
pub fn save_sessions(v: &Vec<Session>) -> (e: Vec<Effect>)
    ensures
        effects(e@) == sessions_kept(sessions(v@)),
{
    let mut s = String::new();
    let mut i: usize = 0;
    while i < v.len()
        invariant
            i <= v@.len(),
            s@ == sessions_text(sessions(v@).take(i as int)),
        decreases v@.len() - i,
    {
        let ghost before = s@;
        s.append(v[i].token.as_str());
        s.push('=');
        push_dec(&mut s, v[i].expires / NANOS);
        s.push('\n');
        assert(sessions(v@).take(i + 1).drop_last() =~= sessions(v@).take(i as int));
        assert(s@ =~= before + session_line(
            sessions(v@)[i as int].0,
            sessions(v@)[i as int].1,
        ));
        i += 1;
    }
    assert(sessions(v@).take(v@.len() as int) =~= sessions(v@));
    keep_file(SESSIONS_FILE, s.as_str())
}

/// Begins a session: those that have expired are dropped, and the token is good
/// for a day.
pub fn begin_session(v: &mut Vec<Session>, token: &str, now: u128) -> (e: Vec<Effect>)
    requires
        distinct(sessions(old(v)@)),
        now + SESSION_TTL_SECS * NANOS <= u128::MAX,
    ensures
        distinct(sessions(final(v)@)),
        sessions(final(v)@) == begun(sessions(old(v)@), token@, now as nat),
        effects(e@) == sessions_kept(sessions(final(v)@)),
{
    let ghost all = sessions(v@);
    let mut kept: Vec<Session> = Vec::new();
    let mut i: usize = 0;
    assert(sessions(kept@) =~= unexpired(all.take(0), now as nat));
    while i < v.len()
        invariant
            i <= v@.len(),
            all == sessions(v@),
            sessions(kept@) == unexpired(all.take(i as int), now as nat),
        decreases v@.len() - i,
    {
        assert(all.take(i + 1).drop_last() =~= all.take(i as int));
        if now < v[i].expires {
            let ghost before = sessions(kept@);
            kept.push(Session { token: v[i].token.clone(), expires: v[i].expires });
            assert(sessions(kept@) =~= before.push(all[i as int]));
        }
        i += 1;
    }
    assert(all.take(all.len() as int) =~= all);
    proof {
        lemma_unexpired(all, now as nat);
    }
    let ttl: u128 = (SESSION_TTL_SECS as u128) * NANOS;
    put(&mut kept, token.to_owned(), now + ttl);
    *v = kept;
    save_sessions(v)
}

/// Whether a token is good; one that has expired is dropped, and the sessions
/// are kept again unless it is good.
pub fn check_session(v: &mut Vec<Session>, token: &str, now: u128) -> (r: (bool, Vec<Effect>))
    requires
        distinct(sessions(old(v)@)),
    ensures
        r.0 == is_good(sessions(old(v)@), token@, now as nat),
        distinct(sessions(final(v)@)),
        sessions(final(v)@) == after_check(sessions(old(v)@), token@, now as nat),
        effects(r.1@) == (if r.0 {
            Seq::empty()
        } else {
            sessions_kept(sessions(final(v)@))
        }),
{
    match find_token(v, token) {
        Some(i) => {
            if now < v[i].expires {
                (true, no_effects())
            } else {
                v.remove(i);
                assert(sessions(v@) =~= sessions(old(v)@).remove(i as int));
                (false, save_sessions(v))
            }
        },
        None => (false, save_sessions(v)),
    }
}

/// Dropping expired sessions keeps the tokens distinct, keeps every session that
/// has not expired, and keeps no other.
pub proof fn lemma_unexpired(ss: SessionSeq, now: nat)
    requires
        distinct(ss),
    ensures
        distinct(unexpired(ss, now)),
        forall|i: int|
            0 <= i < unexpired(ss, now).len() ==> ss.contains(#[trigger] unexpired(ss, now)[i])
                && now < unexpired(ss, now)[i].1,
        forall|i: int|
            0 <= i < ss.len() && now < ss[i].1 ==> unexpired(ss, now).contains(#[trigger] ss[i]),
    decreases ss.len(),
{
    if ss.len() > 0 {
        let front = ss.drop_last();
        lemma_unexpired(front, now);
        let u = unexpired(ss, now);
        let v = unexpired(front, now);
        assert forall|i: int| 0 <= i < v.len() implies ss.contains(#[trigger] v[i]) && v[i].0
            != ss.last().0 by {
            assert(front.contains(v[i]));
            let j = choose|j: int| 0 <= j < front.len() && front[j] == v[i];
            assert(ss[j] == v[i]);
        }
        assert forall|i: int| 0 <= i < u.len() implies ss.contains(#[trigger] u[i]) && now
            < u[i].1 by {
            if i < v.len() {
                assert(u[i] == v[i]);
            } else {
                assert(u[i] == ss[ss.len() - 1]);
            }
        }
        assert forall|i: int| 0 <= i < ss.len() && now < ss[i].1 implies u.contains(
            #[trigger] ss[i],
        ) by {
            if i < front.len() {
                assert(front[i] == ss[i]);
                assert(v.contains(front[i]));
                let j = choose|j: int| 0 <= j < v.len() && v[j] == front[i];
                assert(u[j] == ss[i]);
            } else {
                assert(u[u.len() - 1] == ss[i]);
            }
        }
        assert forall|i: int, j: int| 0 <= i < j < u.len() implies u[i].0 != u[j].0 by {
            if j < v.len() {
                assert(u[i] == v[i] && u[j] == v[j]);
            } else {
                assert(u[i] == v[i]);
                assert(v[i].0 != ss.last().0);
            }
        }
    }
}

/// A token in a list with distinct tokens is found where it stands.
proof fn lemma_lookup_at(ss: SessionSeq, i: int)
    requires
        distinct(ss),
        0 <= i < ss.len(),
    ensures
        lookup(ss, ss[i].0) == Some(ss[i].1),
{
    lemma_position(ss, ss[i].0, 0);
    let k = position_from(ss, ss[i].0, 0);
    if k is None {
        assert(ss[i].0 != ss[i].0);
    } else if k->0 > i {
        assert(ss[i].0 != ss[i].0);
    }
}

proof fn lemma_lookup_unexpired(ss: SessionSeq, token: Seq<char>, now: nat)
    requires
        distinct(ss),
    ensures
        lookup(unexpired(ss, now), token) == (if is_good(ss, token, now) {
            lookup(ss, token)
        } else {
            None
        }),
{
    let u = unexpired(ss, now);
    lemma_unexpired(ss, now);
    lemma_position(ss, token, 0);
    lemma_position(u, token, 0);
    match position_from(u, token, 0) {
        Some(k) => {
            assert(ss.contains(u[k]));
            let j = choose|j: int| 0 <= j < ss.len() && ss[j] == u[k];
            lemma_lookup_at(ss, j);
        },
        None => {
            if is_good(ss, token, now) {
                let i = position_from(ss, token, 0)->0;
                assert(u.contains(ss[i]));
                let j = choose|j: int| 0 <= j < u.len() && u[j] == ss[i];
                assert(u[j].0 != token);
            }
        },
    }
}

/// A session that was begun is good for a day and not longer, and beginning it
/// changes nothing for any other token.
pub proof fn law_session_lifetime(
    ss: SessionSeq,
    token: Seq<char>,
    other: Seq<char>,
    now: nat,
    later: nat,
)
    requires
        distinct(ss),
        now <= later,
    ensures
        is_good(begun(ss, token, now), token, later) <==> later < now + SESSION_TTL_SECS * NANOS,
        other != token ==> is_good(begun(ss, token, now), other, later) == is_good(
            ss,
            other,
            later,
        ),
{
    lemma_unexpired(ss, now);
    law_insert_lookup(
        unexpired(ss, now),
        token,
        (now + SESSION_TTL_SECS * NANOS) as nat,
        other,
    );
    lemma_lookup_unexpired(ss, other, now);
}

/// A token that was asked for after it expired is forgotten; asking for a token
/// changes nothing for any other.
pub proof fn law_check_forgets(
    ss: SessionSeq,
    token: Seq<char>,
    other: Seq<char>,
    now: nat,
    later: nat,
)
    requires
        distinct(ss),
    ensures
        !is_good(ss, token, now) ==> lookup(after_check(ss, token, now), token) is None,
        is_good(ss, token, now) ==> after_check(ss, token, now) == ss,
        other != token ==> is_good(after_check(ss, token, now), other, later) == is_good(
            ss,
            other,
            later,
        ),
{
    let t = after_check(ss, token, now);
    lemma_position(ss, token, 0);
    lemma_position(t, token, 0);
    lemma_position(ss, other, 0);
    lemma_position(t, other, 0);
    match position_from(ss, token, 0) {
        Some(i) if ss[i].1 <= now => {
            assert forall|j: int| 0 <= j < t.len() implies t[j].0 != token by {
                if j < i {
                    assert(t[j] == ss[j]);
                } else {
                    assert(t[j] == ss[j + 1]);
                }
            }
            if other != token {
                match position_from(ss, other, 0) {
                    Some(k) => {
                        let k2 = if k < i {
                            k
                        } else {
                            k - 1
                        };
                        assert(t[k2] == ss[k]);
                        lemma_lookup_at(t, k2);
                    },
                    None => {
                        match position_from(t, other, 0) {
                            Some(q) => {
                                if q < i {
                                    assert(t[q] == ss[q]);
                                } else {
                                    assert(t[q] == ss[q + 1]);
                                }
                            },
                            None => {},
                        }
                    },
                }
            }
        },
        _ => {},
    }
}

/// Reading a sessions file never gives a session that has expired.
pub proof fn law_expired_sessions_are_not_read(ls: Seq<Seq<char>>, now: nat)
    ensures
        forall|i: int|
            0 <= i < sessions_of_lines(ls, now).len() ==> now < (#[trigger] sessions_of_lines(
                ls,
                now,
            )[i]).1,
    decreases ls.len(),
{
    if ls.len() > 0 {
        let before = sessions_of_lines(ls.drop_last(), now);
        law_expired_sessions_are_not_read(ls.drop_last(), now);
        match split_once(ls.last(), "="@) {
            None => {},
            Some((k, v)) => {
                lemma_position(before, trim(k), 0);
            },
        }
    }
}

/// A line of the sessions file gives a session with its expiry in seconds; one without
/// a number, one that has expired and one beyond the clock of the system give none.
pub proof fn law_session_line_read(
    before: SessionSeq,
    token: Seq<char>,
    secs: nat,
    now: nat,
    blank: Seq<char>,
)
    requires
        storable_token(token),
        secs <= u64::MAX,
        !blank.contains('='),
    ensures
        ({
            let after = with_line(before, token + seq!['='] + dec(secs), now);
            &&& secs <= 9223372036854775807 && now < secs * 1000000000 ==> lookup(after, token)
                == Some((secs * 1000000000) as nat)
            &&& secs > 9223372036854775807 || now >= secs * 1000000000 ==> after == before
            &&& with_line(before, blank, now) == before
        }),
{
    let value = dec(secs);
    let line = token + seq!['='] + value;
    lemma_dec_value(secs);
    lemma_pair_splits(token, value);
    assert(value[0] == value.first());
    assert(is_digit(value[value.len() - 1]));
    lemma_trim_id(value);
    assert(parse_up_to(value, u64::MAX as nat) == Some(secs));
    let q = inserted(before, token, (secs * NANOS) as nat);
    lemma_position(before, token, 0);
    lemma_position(q, token, 0);
    let place = match position_from(before, token, 0) {
        None => before.len() as int,
        Some(i) => i,
    };
    assert(q[place] == (token, (secs * NANOS) as nat));
    match position_from(q, token, 0) {
        Some(i) => {
            if i < place {
                assert(before[i].0 == q[i].0);
            }
        },
        None => {},
    }
    reveal_strlit("=");
    assert("="@ =~= seq!['=']);
    lemma_find_any_from(blank, "="@, 0);
    match find_any(blank, "="@) {
        Some(p) => {
            assert(blank.contains(blank[p]));
        },
        None => {},
    }
}

/// A token that a line of the sessions file can hold.
pub open spec fn storable_token(token: Seq<char>) -> bool {
    &&& !token.contains('\n')
    &&& !token.contains('=')
    &&& trim(token) == token
}

/// The sessions with their expiry in whole seconds.
pub open spec fn whole_seconds(ss: SessionSeq) -> SessionSeq {
    Seq::new(ss.len(), |i: int| (ss[i].0, (ss[i].1 / NANOS as nat) * NANOS as nat))
}

proof fn lemma_sessions_text_ends_line(ss: SessionSeq)
    ensures
        sessions_text(ss).len() > 0 ==> sessions_text(ss).last() == '\n',
    decreases ss.len(),
{
}

/// Reading the sessions file gives back the sessions that were written to it, to
/// the second, as long as they have not expired.
pub proof fn law_sessions_round_trip(ss: SessionSeq, now: nat)
    requires
        distinct(ss),
        forall|i: int|
            0 <= i < ss.len() ==> storable_token(#[trigger] ss[i].0) && ss[i].1 / NANOS as nat
                <= LAST_SECOND && now < (ss[i].1 / NANOS as nat) * NANOS,
    ensures
        sessions_of_lines(lines(sessions_text(ss)), now) == whole_seconds(ss),
    decreases ss.len(),
{
    if ss.len() == 0 {
        assert(sessions_of_lines(lines(sessions_text(ss)), now) =~= whole_seconds(ss));
    } else {
        let front = ss.drop_last();
        assert forall|i: int| 0 <= i < front.len() implies storable_token(#[trigger] front[i].0)
            && front[i].1 / NANOS as nat <= LAST_SECOND && now < (front[i].1 / NANOS as nat)
            * NANOS by {
            assert(front[i] == ss[i]);
        }
        law_sessions_round_trip(front, now);
        let token = ss.last().0;
        let secs = ss.last().1 / NANOS as nat;
        assert(storable_token(ss[ss.len() - 1].0));
        let value = dec(secs);
        lemma_dec_value(secs);
        let line = token + seq!['='] + value;
        lemma_sessions_text_ends_line(front);
        assert(sessions_text(ss) =~= sessions_text(front) + (line + seq!['\n']));
        lemma_lines_concat(sessions_text(front), line + seq!['\n']);
        assert(!line.contains('\n')) by {
            if line.contains('\n') {
                let i = choose|i: int| 0 <= i < line.len() && line[i] == '\n';
                if i < token.len() {
                    assert(token[i] == '\n');
                } else if i > token.len() {
                    assert(value[i - token.len() - 1] == '\n');
                }
            }
        }
        lemma_one_line(line);
        assert(line.last() == value[value.len() - 1]);
        assert(without_return(line) == line);
        let ls = lines(sessions_text(ss));
        assert(ls.drop_last() =~= lines(sessions_text(front)));
        assert(ls.last() == line);
        lemma_pair_splits(token, value);
        assert(value[0] == value.first());
        lemma_trim_id(value);
        assert(parse_up_to(value, u64::MAX as nat) == Some(secs));
        let before = whole_seconds(front);
        lemma_position(before, token, 0);
        assert(forall|j: int| 0 <= j < front.len() ==> before[j].0 == ss[j].0);
        assert(position_from(before, token, 0) is None);
        assert(before.push((token, (secs * NANOS) as nat)) =~= whole_seconds(ss));
    }
}

} // verus!
