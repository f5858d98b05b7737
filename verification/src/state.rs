//! The state of the node.
use vstd::prelude::*;

use crate::auth::random_hex;
use crate::effects::{effects, keep_file, kept_file, no_effects, Effect, EffectView};
use crate::number::hex;
use crate::request::{cookie_in_lines, get_cookie};
use crate::sessions::{
    after_check, begin_session, begun, check_session, is_good, law_check_forgets, sessions,
    sessions_kept, Session, SessionSeq, NANOS, SESSION_TTL_SECS,
};
use crate::split::{lines, split_once, trim};
use crate::store::{
    distinct, inserted, law_insert_lookup, law_state_file_round_trip, lemma_position, lookup,
    lookup_or, pairs_of_lines, pairs_of_text, read_state_file, state_file_text, storable,
    text_of_pairs, PairSeq, Pairs,
};
use crate::text::{opt, same};

verus! {

/// Where the state is kept.
pub const STATE_FILE: &'static str = "/etc/node-manager/state";

/// The mode that tests the network.
pub const WIND_TUNNEL: &'static str = "WIND_TUNNEL";

/// The mode of an ordinary node.
pub const STANDARD: &'static str = "STANDARD";

/// What the server knows of the node.
#[derive(Debug, PartialEq, Eq)]
pub struct AppState {
    /// The node has no wired network and offers its own.
    pub ap_mode: bool,
    pub sessions: Vec<Session>,
    /// The node has been set up.
    pub onboarded: bool,
    pub node_name: String,
    pub hw_mode: String,
    pub unyt_agent_id: String,
    pub log_sender_endpoint: String,
    pub wt_suffix: String,
    pub wt_image_override: String,
    pub wt_entrypoint_bind: String,
    /// What is kept of the recovery seed phrase; empty where there is none.
    pub seed_hash: String,
}

/// The state with its texts as sequences of characters.
pub struct StateView {
    pub ap_mode: bool,
    pub sessions: SessionSeq,
    pub onboarded: bool,
    pub node_name: Seq<char>,
    pub hw_mode: Seq<char>,
    pub unyt_agent_id: Seq<char>,
    pub log_sender_endpoint: Seq<char>,
    pub wt_suffix: Seq<char>,
    pub wt_image_override: Seq<char>,
    pub wt_entrypoint_bind: Seq<char>,
    pub seed_hash: Seq<char>,
}

impl View for AppState {
    type V = StateView;

    open spec fn view(&self) -> StateView {
        StateView {
            ap_mode: self.ap_mode,
            sessions: sessions(self.sessions@),
            onboarded: self.onboarded,
            node_name: self.node_name@,
            hw_mode: self.hw_mode@,
            unyt_agent_id: self.unyt_agent_id@,
            log_sender_endpoint: self.log_sender_endpoint@,
            wt_suffix: self.wt_suffix@,
            wt_image_override: self.wt_image_override@,
            wt_entrypoint_bind: self.wt_entrypoint_bind@,
            seed_hash: self.seed_hash@,
        }
    }
}

/// The state that a state file describes: what it does not name is empty, and
/// the mode is the ordinary one.
pub open spec fn state_of(ap_mode: bool, kv: PairSeq, ss: SessionSeq) -> StateView {
    StateView {
        ap_mode,
        sessions: ss,
        onboarded: lookup(kv, "onboarded"@) == Some("true"@),
        node_name: lookup_or(kv, "node_name"@, Seq::empty()),
        hw_mode: lookup_or(kv, "hw_mode"@, STANDARD@),
        unyt_agent_id: lookup_or(kv, "unyt_agent_id"@, Seq::empty()),
        log_sender_endpoint: lookup_or(kv, "log_sender_endpoint"@, Seq::empty()),
        wt_suffix: lookup_or(kv, "wt_suffix"@, Seq::empty()),
        wt_image_override: lookup_or(kv, "wt_image_override"@, Seq::empty()),
        wt_entrypoint_bind: lookup_or(kv, "wt_entrypoint_bind"@, Seq::empty()),
        seed_hash: lookup_or(kv, "seed_hash"@, Seq::empty()),
    }
}

/// The value under a key, or the empty string.
fn value_of(kv: &Pairs, key: &str) -> (r: String)
    ensures
        r@ == lookup_or(kv@, key@, Seq::empty()),
{
    match kv.get(key) {
        Some(v) => v,
        None => String::new(),
    }
}

impl AppState {
    /// No token occurs twice.
    pub open spec fn wf(self) -> bool {
        distinct(self@.sessions)
    }

    /// The state at the start, which a state file describes. There are no sessions:
    /// none outlives the server.
    pub fn new(ap_mode: bool, kv: &Pairs) -> (s: AppState)
        ensures
            s.wf(),
            s@ == state_of(ap_mode, kv@, SessionSeq::empty()),
            s@.sessions == SessionSeq::empty(),
    {
        let onboarded = match kv.get("onboarded") {
            Some(v) => same(v.as_str(), "true"),
            None => false,
        };
        let none: Vec<Session> = Vec::new();
        assert(sessions(none@) =~= SessionSeq::empty());
        AppState {
            ap_mode,
            sessions: none,
            onboarded,
            node_name: value_of(kv, "node_name"),
            hw_mode: kv.get_or("hw_mode", STANDARD),
            unyt_agent_id: value_of(kv, "unyt_agent_id"),
            log_sender_endpoint: value_of(kv, "log_sender_endpoint"),
            wt_suffix: value_of(kv, "wt_suffix"),
            wt_image_override: value_of(kv, "wt_image_override"),
            wt_entrypoint_bind: value_of(kv, "wt_entrypoint_bind"),
            seed_hash: value_of(kv, "seed_hash"),
        }
    }

    /// Whether the node is in the mode that tests the network.
    pub fn in_wind_tunnel(&self) -> (r: bool)
        ensures
            r == (self@.hw_mode == WIND_TUNNEL@),
    {
        same(self.hw_mode.as_str(), WIND_TUNNEL)
    }
}

// ---------------------------------------------------------------------------
// The state file
// ---------------------------------------------------------------------------

/// The effects of keeping pairs in the state file.
pub open spec fn state_kept(kv: PairSeq) -> Seq<EffectView> {
    kept_file(STATE_FILE@, text_of_pairs(kv))
}

/// Keeps pairs in the state file.
pub fn write_state_file(kv: &Pairs) -> (v: Vec<Effect>)
    ensures
        effects(v@) == state_kept(kv@),
{
    keep_file(STATE_FILE, state_file_text(kv).as_str())
}

/// The effects of changing one value in a state file with the given content.
pub open spec fn key_updated(content: Seq<char>, key: Seq<char>, value: Seq<char>) -> Seq<
    EffectView,
> {
    state_kept(inserted(pairs_of_text(content), key, value))
}

/// Changes one value in a state file with the given content.
pub fn update_state_key(content: &str, key: &str, value: &str) -> (v: Vec<Effect>)
    ensures
        effects(v@) == key_updated(content@, key@, value@),
{
    let mut kv = read_state_file(content);
    kv.insert(key.to_owned(), value.to_owned());
    write_state_file(&kv)
}

// ---------------------------------------------------------------------------
// Sessions
// ---------------------------------------------------------------------------

/// Begins a session with a token made from random bytes.
pub fn create_session(state: &mut AppState, bytes: &[u8], now: u128) -> (r: (String, Vec<Effect>))
    requires
        old(state).wf(),
        now + SESSION_TTL_SECS * NANOS <= u128::MAX,
    ensures
        final(state).wf(),
        r.0@ == hex(bytes@),
        final(state)@ == (StateView {
            sessions: begun(old(state)@.sessions, hex(bytes@), now as nat),
            ..old(state)@
        }),
        effects(r.1@) == sessions_kept(final(state)@.sessions),
{
    let token = random_hex(bytes);
    let done = begin_session(&mut state.sessions, token.as_str(), now);
    (token, done)
}

/// Whether a session token, if there is one, is good.
pub open spec fn token_good(ss: SessionSeq, token: Option<Seq<char>>, now: nat) -> bool {
    match token {
        Some(t) => is_good(ss, t, now),
        None => false,
    }
}

/// The sessions after a token, if there is one, was asked for.
pub open spec fn token_checked(ss: SessionSeq, token: Option<Seq<char>>, now: nat) -> SessionSeq {
    match token {
        Some(t) => after_check(ss, t, now),
        None => ss,
    }
}

/// Whether a session token, if there is one, is good. The sessions are kept again
/// where there is a token that is not.
pub fn check_token(state: &mut AppState, token: Option<String>, now: u128) -> (r: (
    bool,
    Vec<Effect>,
))
    requires
        old(state).wf(),
    ensures
        final(state).wf(),
        r.0 == token_good(old(state)@.sessions, opt(token), now as nat),
        final(state)@ == (StateView {
            sessions: token_checked(old(state)@.sessions, opt(token), now as nat),
            ..old(state)@
        }),
        effects(r.1@) == (if token is Some && !r.0 {
            sessions_kept(final(state)@.sessions)
        } else {
            Seq::empty()
        }),
{
    match token {
        None => {
            (false, no_effects())
        },
        Some(t) => check_session(&mut state.sessions, t.as_str(), now),
    }
}

/// Whether a request comes with a good session token in its `session` cookie.
pub fn is_authenticated(headers: &str, state: &mut AppState, now: u128) -> (r: (bool, Vec<Effect>))
    requires
        old(state).wf(),
    ensures
        final(state).wf(),
        r.0 == token_good(
            old(state)@.sessions,
            cookie_in_lines(lines(headers@), "session"@, 0),
            now as nat,
        ),
        final(state)@ == (StateView {
            sessions: token_checked(
                old(state)@.sessions,
                cookie_in_lines(lines(headers@), "session"@, 0),
                now as nat,
            ),
            ..old(state)@
        }),
        effects(r.1@) == (if cookie_in_lines(lines(headers@), "session"@, 0) is Some && !r.0 {
            sessions_kept(final(state)@.sessions)
        } else {
            Seq::empty()
        }),
{
    let token = get_cookie(headers, "session");
    check_token(state, token, now)
}

/// A request without a token is not let in and changes nothing; one with a token is
/// let in exactly where a session has that token and has not expired, and changes
/// nothing for any other token.
pub proof fn law_who_is_let_in(
    ss: SessionSeq,
    token: Seq<char>,
    other: Seq<char>,
    now: nat,
    later: nat,
)
    requires
        distinct(ss),
        other != token,
    ensures
        is_good(token_checked(ss, Some(token), now), other, later) == is_good(ss, other, later),
        token_good(ss, Some(token), now) ==> token_checked(ss, Some(token), now) == ss,
        !token_good(ss, None, now),
        token_checked(ss, None, now) == ss,
        token_good(ss, Some(token), now) <==> (lookup(ss, token) matches Some(expires) && now
            < expires),
{
    law_check_forgets(ss, token, other, now, later);
}

/// The cookie that holds a session token.
pub open spec fn cookie_text(token: Seq<char>) -> Seq<char> {
    "session="@ + token + "; HttpOnly; SameSite=Strict; Path=/"@
}

/// The cookie that holds a session token.
pub fn session_cookie(token: &str) -> (r: String)
    ensures
        r@ == cookie_text(token@),
{
    let mut out = String::new();
    out.append("session=");
    out.append(token);
    out.append("; HttpOnly; SameSite=Strict; Path=/");
    assert(out@ =~= cookie_text(token@));
    out
}

/// The cookie that takes the session token away.
pub fn clear_cookie() -> (r: String)
    ensures
        r@ == "session=; HttpOnly; SameSite=Strict; Path=/; Max-Age=0"@,
{
    "session=; HttpOnly; SameSite=Strict; Path=/; Max-Age=0".to_owned()
}

/// The lines of a state file never give one key twice.
proof fn lemma_pairs_distinct(ls: Seq<Seq<char>>)
    ensures
        distinct(pairs_of_lines(ls)),
    decreases ls.len(),
{
    if ls.len() > 0 {
        lemma_pairs_distinct(ls.drop_last());
        match split_once(ls.last(), "="@) {
            None => {},
            Some((k, v)) => {
                law_insert_lookup(pairs_of_lines(ls.drop_last()), trim(k), v, trim(k));
            },
        }
    }
}

/// A setting that was changed survives a restart: the state file that is written
/// holds the new value under its key, and every other key as before.
pub proof fn law_setting_survives(
    content: Seq<char>,
    key: Seq<char>,
    value: Seq<char>,
    other: Seq<char>,
)
    requires
        storable(key, value),
        forall|i: int|
            0 <= i < pairs_of_text(content).len() ==> storable(
                #[trigger] pairs_of_text(content)[i].0,
                pairs_of_text(content)[i].1,
            ),
    ensures
        ({
            let written = text_of_pairs(inserted(pairs_of_text(content), key, value));
            &&& key_updated(content, key, value) == kept_file(STATE_FILE@, written)
            &&& lookup(pairs_of_text(written), key) == Some(value)
            &&& other != key ==> lookup(pairs_of_text(written), other) == lookup(
                pairs_of_text(content),
                other,
            )
        }),
{
    let p = pairs_of_text(content);
    let q = inserted(p, key, value);
    lemma_pairs_distinct(lines(content));
    law_insert_lookup(p, key, value, other);
    lemma_position(p, key, 0);
    assert forall|i: int| 0 <= i < q.len() implies storable(#[trigger] q[i].0, q[i].1) by {
        if i < p.len() {
            assert(storable(p[i].0, p[i].1));
        }
    }
    law_state_file_round_trip(q);
}

/// A state with one of its settings changed; other keys change nothing.
pub open spec fn with_setting(state: StateView, key: Seq<char>, value: Seq<char>) -> StateView {
    if key == "node_name"@ {
        StateView { node_name: value, ..state }
    } else if key == "hw_mode"@ {
        StateView { hw_mode: value, ..state }
    } else if key == "unyt_agent_id"@ {
        StateView { unyt_agent_id: value, ..state }
    } else if key == "log_sender_endpoint"@ {
        StateView { log_sender_endpoint: value, ..state }
    } else if key == "wt_suffix"@ {
        StateView { wt_suffix: value, ..state }
    } else if key == "wt_image_override"@ {
        StateView { wt_image_override: value, ..state }
    } else if key == "wt_entrypoint_bind"@ {
        StateView { wt_entrypoint_bind: value, ..state }
    } else if key == "seed_hash"@ {
        StateView { seed_hash: value, ..state }
    } else {
        state
    }
}

/// The state file says the same as the state: a restart would give it back, but
/// for the sessions.
pub open spec fn in_step(state: StateView, content: Seq<char>) -> bool {
    state_of(state.ap_mode, pairs_of_text(content), state.sessions) == state
}

/// The names of the settings differ.
pub proof fn lemma_setting_names()
    ensures
        "node_name"@[0] == 'n',
        "hw_mode"@[0] == 'h',
        "unyt_agent_id"@[0] == 'u',
        "log_sender_endpoint"@[0] == 'l',
        "onboarded"@[0] == 'o',
        "wt_suffix"@[0] == 'w' && "wt_suffix"@[3] == 's',
        "wt_image_override"@[0] == 'w' && "wt_image_override"@[3] == 'i',
        "wt_entrypoint_bind"@[0] == 'w' && "wt_entrypoint_bind"@[3] == 'e',
        "seed_hash"@[0] == 's',
{
    reveal_strlit("node_name");
    reveal_strlit("hw_mode");
    reveal_strlit("unyt_agent_id");
    reveal_strlit("log_sender_endpoint");
    reveal_strlit("onboarded");
    reveal_strlit("wt_suffix");
    reveal_strlit("wt_image_override");
    reveal_strlit("wt_entrypoint_bind");
    reveal_strlit("seed_hash");
}

/// Changing a setting in the state and in the state file keeps the two in step.
#[verifier::rlimit(40)]
#[verifier::spinoff_prover]
pub proof fn law_settings_stay_in_step(
    state: StateView,
    content: Seq<char>,
    key: Seq<char>,
    value: Seq<char>,
)
    requires
        in_step(state, content),
        key != "onboarded"@,
        storable(key, value),
        forall|i: int|
            0 <= i < pairs_of_text(content).len() ==> storable(
                #[trigger] pairs_of_text(content)[i].0,
                pairs_of_text(content)[i].1,
            ),
    ensures
        in_step(
            with_setting(state, key, value),
            text_of_pairs(inserted(pairs_of_text(content), key, value)),
        ),
{
    lemma_setting_names();
    law_setting_survives(content, key, value, "onboarded"@);
    law_setting_survives(content, key, value, "node_name"@);
    law_setting_survives(content, key, value, "hw_mode"@);
    law_setting_survives(content, key, value, "unyt_agent_id"@);
    law_setting_survives(content, key, value, "log_sender_endpoint"@);
    law_setting_survives(content, key, value, "wt_suffix"@);
    law_setting_survives(content, key, value, "wt_image_override"@);
    law_setting_survives(content, key, value, "wt_entrypoint_bind"@);
    law_setting_survives(content, key, value, "seed_hash"@);
}

} // verus!
