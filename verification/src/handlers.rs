//! What the requests that set up and manage the node lead to.
use vstd::prelude::*;
use vstd::utf8::{is_ascii_chars, is_ascii_chars_encode_utf8};

use crate::auth::{
    auth_record, challenge, digest_accepted, hash_password, hex_text, law_password_round_trip,
    password_challenge, random_hex, salted, salted_password, verify_password, AUTH_FILE,
    PASSWORD_MIN, SALT_BYTES,
};
use crate::config::{
    agent_id_error, build_wt_client_name, build_wt_hostname, client_name_error, endpoint_error,
    entrypoint_error,
    entrypoint_path, entrypoint_to_look_at, hostname_error, image_error, is_slug,
    law_client_name_fits, law_hostname_fits, node_name_error, validate_log_sender_endpoint,
    validate_node_name, validate_unyt_agent_id, validate_wt_entrypoint_bind, validate_wt_image_override, wt_client_name,
    wt_client_name_error, wt_hostname, wt_hostname_error, PathKind,
};
use crate::deployments::{deployments, deployments_of, read_deployments};
use crate::effects::{
    add_all, chmod600, effects, make_dir, no_effects, push_effect, run3, write_file, Effect,
    EffectView,
};
use crate::escape::{escaped, json_escape, Escape};
use crate::http::{error, json, reply_opt, Plan, PlanView, Reply, ReplyView};
use crate::json::{
    flag_field, json_bool, json_has_key, json_str, member, push_member, quoted, string_field,
};
use crate::number::{dec, hex, is_lower_hex, lemma_hex, push_dec};
use crate::quadlet::{
    apply_edgenode_config, apply_hardware_mode, apply_wind_tunnel_config, asked_mode, config_at,
    config_of, edgenode_applied, ensure_wt_suffix, generate_wt_suffix, mode_applied, mode_asked,
    quadlets_written, services_synced, suffix_kept, suffix_of, sync_container_services,
    wind_tunnel_applied, write_quadlets_from_state, Site, SiteView, MODE_SWITCH, QUADLET_DIR,
};
use crate::seed::{
    is_seed_phrase, law_seed_phrase_is_read, lemma_seed_phrase_has_space, make_seed_phrase,
    mnemonic_from, read_seed_phrase, seed_phrase_in, small, ENTROPY_BYTES,
};
use crate::sessions::SessionSeq;
use crate::split::{lemma_trim_id, trim, trimmed, words};
use crate::ssh::{
    is_pubkey, is_valid_ssh_pubkey, keys_file, keys_of, keys_secured, read_ssh_keys,
    secure_ssh_keys, write_ssh_keys, SSH_DIR,
};
use crate::state::{
    in_step, key_updated, lemma_setting_names, state_kept, state_of, update_state_key,
    write_state_file, AppState, StateView, STANDARD, WIND_TUNNEL,
};
use crate::store::{
    distinct, law_state_file_round_trip, lemma_position, pairs_of_text, storable, text_of_pairs,
    PairSeq, Pairs,
};
use crate::text::{
    byte_len, chars_of, find, is_blank, lemma_find_from, occurs, opt, opt_str, same, string_of,
    strings,
};
use crate::update::{update_repo, UPDATE_REPO_DEFAULT, VERSION};

verus! {

/// The answer that all is well.
pub const STATUS_OK: &'static str = "{\"status\":\"ok\"}";

// ---------------------------------------------------------------------------
// Names
// ---------------------------------------------------------------------------

/// What is wrong with a node name in a mode: in the Wind Tunnel, the host name that
/// it makes may be too long.
pub open spec fn hostname_error_in(mode: Seq<char>, node_name: Seq<char>) -> Option<Seq<char>> {
    if mode == WIND_TUNNEL@ {
        hostname_error(node_name)
    } else {
        None
    }
}

/// What is wrong with a node name in a mode.
fn check_hostname(mode: &str, node_name: &str) -> (r: Option<String>)
    ensures
        opt(r) == hostname_error_in(mode@, node_name@),
{
    if same(mode, WIND_TUNNEL) {
        wt_hostname_error(node_name)
    } else {
        None
    }
}

/// What is wrong with an Agent ID in a mode: its characters or, in the ordinary
/// mode, the length of the client name that it makes with a node name.
pub open spec fn agent_id_error_in(
    mode: Seq<char>,
    node_name: Seq<char>,
    agent_id: Seq<char>,
) -> Option<Seq<char>> {
    if mode == WIND_TUNNEL@ {
        agent_id_error(agent_id)
    } else {
        client_name_error(node_name, agent_id)
    }
}

/// What is wrong with an Agent ID in a mode.
fn check_agent_id(mode: &str, node_name: &str, agent_id: &str) -> (r: Option<String>)
    ensures
        opt(r) == agent_id_error_in(mode@, node_name@, agent_id@),
{
    if same(mode, WIND_TUNNEL) {
        validate_unyt_agent_id(agent_id)
    } else {
        wt_client_name_error(node_name, agent_id)
    }
}

/// What is wrong with a node name in a mode together with an Agent ID.
pub open spec fn names_error(
    mode: Seq<char>,
    node_name: Seq<char>,
    agent_id: Seq<char>,
) -> Option<Seq<char>> {
    match agent_id_error_in(mode, node_name, agent_id) {
        Some(msg) => Some(msg),
        None => hostname_error_in(mode, node_name),
    }
}

/// What is wrong with a node name in a mode together with an Agent ID.
fn check_names(mode: &str, node_name: &str, agent_id: &str) -> (r: Option<String>)
    ensures
        opt(r) == names_error(mode@, node_name@, agent_id@),
{
    match check_agent_id(mode, node_name, agent_id) {
        Some(msg) => Some(msg),
        None => check_hostname(mode, node_name),
    }
}

// ---------------------------------------------------------------------------
// Setting up
// ---------------------------------------------------------------------------

/// The answer to a request to set up a node that has been set up.
pub open spec fn already_set_up() -> ReplyView {
    ReplyView::Error(409, "Node is already set up"@)
}

/// The answer where a request to set up the node comes too late.
pub fn refuse_submit_again(state: &AppState) -> (r: Option<Reply>)
    ensures
        reply_opt(r) == (if state@.onboarded {
            Some(already_set_up())
        } else {
            None
        }),
{
    if state.onboarded {
        Some(error(409, "Node is already set up"))
    } else {
        None
    }
}

/// Why a request to set up the node is refused for what it holds.
pub open spec fn submit_refusal(body: Seq<char>) -> Option<Seq<char>> {
    if string_field(body, "nodeName"@).len() == 0 {
        Some("nodeName is required"@)
    } else {
        match names_error(
            mode_asked(string_field(body, "hwMode"@)),
            string_field(body, "nodeName"@),
            string_field(body, "unytAgentId"@),
        ) {
            Some(msg) => Some(msg),
            None => password_error(string_field(body, "password"@)),
        }
    }
}

/// What is wrong with a password: it is too short.
pub open spec fn password_error(password: Seq<char>) -> Option<Seq<char>> {
    if password.len() < PASSWORD_MIN {
        Some("Password must be at least 8 characters"@)
    } else {
        None
    }
}

/// What is wrong with a password.
fn check_password(password: &str) -> (r: Option<String>)
    ensures
        opt(r) == password_error(password@),
{
    if chars_of(password).len() < PASSWORD_MIN {
        Some("Password must be at least 8 characters".to_owned())
    } else {
        None
    }
}

/// Why a request to set up the node is refused for what it holds.
fn check_submit(body: &str) -> (r: Option<String>)
    ensures
        opt(r) == submit_refusal(body@),
{
    let node_name = json_str(body, "nodeName");
    if is_blank(node_name.as_str()) {
        return Some("nodeName is required".to_owned());
    }
    let agent_id = json_str(body, "unytAgentId");
    let mode = asked_mode(json_str(body, "hwMode").as_str());
    match check_names(mode, node_name.as_str(), agent_id.as_str()) {
        Some(msg) => Some(msg),
        None => check_password(json_str(body, "password").as_str()),
    }
}

/// The answer where a request to set up the node is refused before anything is
/// done.
pub open spec fn submit_refused(state: StateView, body: Seq<char>) -> Option<ReplyView> {
    if state.onboarded {
        Some(already_set_up())
    } else {
        refused_for(submit_refusal(body))
    }
}

/// The answer where a request to set up the node is refused before anything is
/// done.
fn refuse_submit(body: &str, state: &AppState) -> (r: Option<Reply>)
    ensures
        reply_opt(r) == submit_refused(state@, body@),
{
    match refuse_submit_again(state) {
        Some(reply) => Some(reply),
        None => match check_submit(body) {
            Some(msg) => Some(error(400, msg.as_str())),
            None => None,
        },
    }
}

/// How a request to set up the node begins: with the text whose digest is to be
/// kept of the chosen password.
pub open spec fn submit_begun(
    state: StateView,
    body: Seq<char>,
    salt: Seq<u8>,
) -> PasswordStepView {
    match submit_refused(state, body) {
        Some(reply) => PasswordStepView::Answer(reply),
        None => PasswordStepView::Digest(salted(hex(salt), string_field(body, "password"@))),
    }
}

/// How a request to set up the node begins, given random bytes for a salt: with
/// the text whose digest is to be kept of the chosen password.
pub fn begin_submit(body: &str, state: &AppState, salt: &[u8; SALT_BYTES]) -> (r: PasswordStep)
    ensures
        r@ == submit_begun(state@, body@, salt@),
{
    match refuse_submit(body, state) {
        Some(reply) => PasswordStep::Answer(reply),
        None => {
            let password = json_str(body, "password");
            PasswordStep::Digest(
                salted_password(random_hex(salt.as_slice()).as_str(), password.as_str()),
            )
        },
    }
}

/// The effects of joining a wireless network, where the request names one with a
/// password.
pub open spec fn wifi_joined(body: Seq<char>) -> Seq<EffectView> {
    let ssid = string_field(body, "wifiSsid"@);
    let pass = string_field(body, "wifiPass"@);
    if ssid.len() == 0 || pass.len() == 0 {
        Seq::empty()
    } else {
        seq![
            EffectView::Run(
                seq!["nmcli"@, "device"@, "wifi"@, "connect"@, ssid, "password"@, pass],
            ),
            EffectView::Pause(4),
        ]
    }
}

/// The effects of creating the directories that the node needs.
pub open spec fn directories_made() -> Seq<EffectView> {
    seq![
        EffectView::MakeDir("/etc/node-manager"@),
        EffectView::MakeDir(QUADLET_DIR@),
        EffectView::MakeDir("/var/lib/edgenode"@),
        EffectView::MakeDir(SSH_DIR@),
    ]
}

/// What a request to set up the node does first.
pub open spec fn submit_prepared(state: StateView, body: Seq<char>) -> Seq<EffectView> {
    match submit_refused(state, body) {
        Some(_) => Seq::empty(),
        None => wifi_joined(body) + directories_made(),
    }
}

/// The request comes with an SSH key.
pub open spec fn has_ssh_key(body: Seq<char>) -> bool {
    trim(string_field(body, "sshKey"@)).len() > 0
}

/// How a request to set up the node goes on.
pub open spec fn submit_next(state: StateView, body: Seq<char>) -> PlanView {
    match submit_refused(state, body) {
        Some(reply) => PlanView::Answer(reply),
        None => if !has_ssh_key(body) {
            PlanView::Go
        } else if !is_pubkey(string_field(body, "sshKey"@)) {
            PlanView::Answer(ReplyView::Error(400, "Invalid SSH public key format"@))
        } else {
            PlanView::Write(keys_file(seq![string_field(body, "sshKey"@)]))
        },
    }
}

fn join_wifi(body: &str) -> (v: Vec<Effect>)
    ensures
        effects(v@) == wifi_joined(body@),
{
    let ssid = json_str(body, "wifiSsid");
    let pass = json_str(body, "wifiPass");
    let mut v = no_effects();
    if !is_blank(ssid.as_str()) && !is_blank(pass.as_str()) {
        let ghost s = ssid@;
        let ghost p = pass@;
        let args = vec![
            "nmcli".to_owned(),
            "device".to_owned(),
            "wifi".to_owned(),
            "connect".to_owned(),
            ssid,
            "password".to_owned(),
            pass,
        ];
        assert(strings(args@) =~= seq![
            "nmcli"@,
            "device"@,
            "wifi"@,
            "connect"@,
            s,
            "password"@,
            p,
        ]);
        push_effect(&mut v, Effect::Run(args));
        push_effect(&mut v, Effect::Pause(4));
    }
    assert(effects(v@) =~= wifi_joined(body@));
    v
}

fn make_directories() -> (v: Vec<Effect>)
    ensures
        effects(v@) == directories_made(),
{
    let v = vec![
        make_dir("/etc/node-manager"),
        make_dir(QUADLET_DIR),
        make_dir("/var/lib/edgenode"),
        make_dir(SSH_DIR),
    ];
    assert(effects(v@) =~= directories_made());
    v
}

/// What a request to set up the node does first, and how it goes on.
pub fn handle_submit(body: &str, state: &AppState) -> (r: (Vec<Effect>, Plan))
    ensures
        effects(r.0@) == submit_prepared(state@, body@),
        r.1@ == submit_next(state@, body@),
{
    match refuse_submit(body, state) {
        Some(reply) => {
            return (no_effects(), Plan::Answer(reply));
        },
        None => {},
    }
    let mut v = join_wifi(body);
    add_all(&mut v, make_directories());
    let ssh_key = json_str(body, "sshKey");
    let k = chars_of(ssh_key.as_str());
    if trimmed(k.as_slice()).len() == 0 {
        return (v, Plan::Go);
    }
    if !is_valid_ssh_pubkey(ssh_key.as_str()) {
        return (v, Plan::Answer(error(400, "Invalid SSH public key format")));
    }
    let ghost key = ssh_key@;
    let keys = vec![ssh_key];
    assert(strings(keys@) =~= seq![key]);
    (v, Plan::Write(write_ssh_keys(&keys)))
}

/// The answer where the SSH key could not be written.
pub fn submit_key_failed(msg: &str) -> (r: Reply)
    ensures
        r@ == ReplyView::Error(500, "Failed to write SSH key: "@ + msg@),
{
    let mut text = "Failed to write SSH key: ".to_owned();
    text.append(msg);
    Reply::Error(500, text)
}

/// The state after the node was set up, given what is kept of its seed phrase.
pub open spec fn submitted(
    state: StateView,
    body: Seq<char>,
    bytes: Seq<u8>,
    seed_hash: Seq<char>,
) -> StateView {
    StateView {
        onboarded: true,
        node_name: string_field(body, "nodeName"@),
        hw_mode: mode_asked(string_field(body, "hwMode"@)),
        unyt_agent_id: string_field(body, "unytAgentId"@),
        wt_suffix: hex(bytes),
        seed_hash,
        ..state
    }
}

/// What is kept of the state when the node is set up.
pub open spec fn submit_pairs(state: StateView) -> PairSeq {
    seq![
        ("onboarded"@, "true"@),
        ("node_name"@, state.node_name),
        ("hw_mode"@, state.hw_mode),
        ("unyt_agent_id"@, state.unyt_agent_id),
        ("wt_suffix"@, state.wt_suffix),
        ("seed_hash"@, state.seed_hash),
    ]
}

/// The effects of keeping what is kept of a password.
pub open spec fn auth_kept(record: Seq<char>) -> Seq<EffectView> {
    seq![EffectView::Write(AUTH_FILE@, record), chmod600(AUTH_FILE@)]
}

/// Keeps what is kept of a password.
fn keep_auth(record: &str) -> (v: Vec<Effect>)
    ensures
        effects(v@) == auth_kept(record@),
{
    let v = vec![write_file(AUTH_FILE, record), run3("chmod", "600", AUTH_FILE)];
    assert(effects(v@) =~= auth_kept(record@));
    v
}

/// The answer that hands out a seed phrase.
pub open spec fn seed_json(phrase: Seq<char>) -> Seq<char> {
    "{\"status\":\"ok\","@ + member("seed_phrase"@, phrase) + "}"@
}

/// The answer that hands out a seed phrase.
fn hand_out(phrase: &str) -> (r: Reply)
    ensures
        r@ == ReplyView::Json(seed_json(phrase@)),
{
    let mut out = "{\"status\":\"ok\",".to_owned();
    push_member(&mut out, "seed_phrase", phrase);
    out.append("}");
    Reply::Json(out)
}

/// The effects of setting up the node, which is in the given state then, with what
/// is kept of its password. They do not depend on the seed phrase but through what
/// the state keeps of it.
pub open spec fn submit_done(
    state: StateView,
    body: Seq<char>,
    site: SiteView,
    auth: Seq<char>,
) -> Seq<EffectView> {
    (if has_ssh_key(body) {
        keys_secured()
    } else {
        Seq::<EffectView>::empty()
    }) + auth_kept(auth) + state_kept(submit_pairs(state)) + quadlets_written(state, site) + seq![
        EffectView::Write(MODE_SWITCH@, state.hw_mode),
    ] + services_synced(state.hw_mode)
}

/// The pairs that are kept when the node is set up.
fn pairs_to_keep(state: &AppState) -> (kv: Pairs)
    ensures
        kv@ == submit_pairs(state@),
{
    let mut kv = Pairs::new();
    proof {
        reveal_strlit("onboarded");
        reveal_strlit("node_name");
        reveal_strlit("hw_mode");
        reveal_strlit("unyt_agent_id");
        reveal_strlit("wt_suffix");
        reveal_strlit("seed_hash");
        assert("onboarded"@[0] == 'o');
        assert("node_name"@[0] == 'n');
        assert("hw_mode"@[0] == 'h');
        assert("unyt_agent_id"@[0] == 'u');
        assert("wt_suffix"@[0] == 'w');
        assert("seed_hash"@[0] == 's');
    }
    kv.insert("onboarded".to_owned(), "true".to_owned());
    assert(kv@ =~= seq![("onboarded"@, "true"@)]);
    kv.insert("node_name".to_owned(), state.node_name.as_str().to_owned());
    assert(kv@ =~= seq![("onboarded"@, "true"@), ("node_name"@, state@.node_name)]) by {
        lemma_position(seq![("onboarded"@, "true"@)], "node_name"@, 0);
    }
    kv.insert("hw_mode".to_owned(), state.hw_mode.as_str().to_owned());
    assert(kv@ =~= seq![
        ("onboarded"@, "true"@),
        ("node_name"@, state@.node_name),
        ("hw_mode"@, state@.hw_mode),
    ]) by {
        lemma_position(
            seq![("onboarded"@, "true"@), ("node_name"@, state@.node_name)],
            "hw_mode"@,
            0,
        );
    }
    kv.insert("unyt_agent_id".to_owned(), state.unyt_agent_id.as_str().to_owned());
    assert(kv@ =~= seq![
        ("onboarded"@, "true"@),
        ("node_name"@, state@.node_name),
        ("hw_mode"@, state@.hw_mode),
        ("unyt_agent_id"@, state@.unyt_agent_id),
    ]) by {
        lemma_position(
            seq![
                ("onboarded"@, "true"@),
                ("node_name"@, state@.node_name),
                ("hw_mode"@, state@.hw_mode),
            ],
            "unyt_agent_id"@,
            0,
        );
    }
    kv.insert("wt_suffix".to_owned(), state.wt_suffix.as_str().to_owned());
    assert(kv@ =~= seq![
        ("onboarded"@, "true"@),
        ("node_name"@, state@.node_name),
        ("hw_mode"@, state@.hw_mode),
        ("unyt_agent_id"@, state@.unyt_agent_id),
        ("wt_suffix"@, state@.wt_suffix),
    ]) by {
        lemma_position(
            seq![
                ("onboarded"@, "true"@),
                ("node_name"@, state@.node_name),
                ("hw_mode"@, state@.hw_mode),
                ("unyt_agent_id"@, state@.unyt_agent_id),
            ],
            "wt_suffix"@,
            0,
        );
    }
    kv.insert("seed_hash".to_owned(), state.seed_hash.as_str().to_owned());
    assert(kv@ =~= submit_pairs(state@)) by {
        lemma_position(
            seq![
                ("onboarded"@, "true"@),
                ("node_name"@, state@.node_name),
                ("hw_mode"@, state@.hw_mode),
                ("unyt_agent_id"@, state@.unyt_agent_id),
                ("wt_suffix"@, state@.wt_suffix),
            ],
            "seed_hash"@,
            0,
        );
    }
    kv
}

/// How setting up a node ends.
pub struct SetUp {
    pub state: StateView,
    pub done: Seq<EffectView>,
    pub reply: ReplyView,
    /// What is kept of the password from then on; `None` where that does not change.
    pub auth: Option<Seq<char>>,
}

/// How setting up a node ends, given what is to be kept of the chosen password and
/// of the seed phrase. A node that has been set up is left alone.
pub open spec fn set_up(
    state: StateView,
    body: Seq<char>,
    bytes: Seq<u8>,
    site: SiteView,
    auth: Seq<char>,
    phrase: Seq<char>,
    seed_hash: Seq<char>,
) -> SetUp {
    if state.onboarded {
        SetUp { state, done: Seq::empty(), reply: already_set_up(), auth: None }
    } else {
        let after = submitted(state, body, bytes, seed_hash);
        SetUp {
            state: after,
            done: submit_done(after, body, site, auth),
            reply: ReplyView::Json(seed_json(phrase)),
            auth: Some(auth),
        }
    }
}

/// Sets up the node, given random bytes for its suffix, once its SSH key, if it
/// comes with one, was written. Salt and digest are those of the chosen password;
/// the phrase is handed out once, and its salt and digest are kept. The last part
/// is what is kept of the password from then on, if that changes.
pub fn finish_submit(
    body: &str,
    state: &mut AppState,
    bytes: &[u8],
    site: &Site,
    salt: &[u8; SALT_BYTES],
    digest: &str,
    phrase: &str,
    seed_salt: &[u8; SALT_BYTES],
    seed_digest: &str,
) -> (r: (Vec<Effect>, Reply, Option<String>))
    requires
        old(state).wf(),
    ensures
        final(state).wf(),
        ({
            let end = set_up(
                old(state)@,
                body@,
                bytes@,
                site@,
                auth_record(hex(salt@), digest@),
                phrase@,
                auth_record(hex(seed_salt@), seed_digest@),
            );
            &&& final(state)@ == end.state
            &&& effects(r.0@) == end.done
            &&& r.1@ == end.reply
            &&& opt(r.2) == end.auth
        }),
{
    match refuse_submit_again(state) {
        Some(reply) => {
            return (no_effects(), reply, None);
        },
        None => {},
    }
    let ssh_key = json_str(body, "sshKey");
    let k = chars_of(ssh_key.as_str());
    let mut v = no_effects();
    if trimmed(k.as_slice()).len() > 0 {
        add_all(&mut v, secure_ssh_keys());
    }
    assert(effects(v@) =~= if has_ssh_key(body@) {
        keys_secured()
    } else {
        Seq::<EffectView>::empty()
    });
    state.node_name = json_str(body, "nodeName");
    state.hw_mode = asked_mode(json_str(body, "hwMode").as_str()).to_owned();
    state.unyt_agent_id = json_str(body, "unytAgentId");
    state.wt_suffix = generate_wt_suffix(bytes);
    state.seed_hash = hash_password(seed_salt, seed_digest);
    state.onboarded = true;
    let auth = hash_password(salt, digest);
    add_all(&mut v, keep_auth(auth.as_str()));
    add_all(&mut v, write_state_file(&pairs_to_keep(state)));
    add_all(&mut v, write_quadlets_from_state(state, site));
    push_effect(&mut v, write_file(MODE_SWITCH, state.hw_mode.as_str()));
    let synced = sync_container_services(state.hw_mode.as_str());
    add_all(&mut v, synced);
    assert(effects(v@) =~= submit_done(state@, body@, site@, auth@));
    (v, hand_out(phrase), Some(auth))
}

// ---------------------------------------------------------------------------
// The node's status
// ---------------------------------------------------------------------------

/// Keys as JSON strings with commas between them.
pub open spec fn keys_json(keys: Seq<Seq<char>>) -> Seq<char>
    decreases keys.len(),
{
    if keys.len() == 0 {
        seq![]
    } else if keys.len() == 1 {
        quoted(escaped(keys[0], Escape::Json))
    } else {
        keys_json(keys.drop_last()) + seq![','] + quoted(escaped(keys.last(), Escape::Json))
    }
}

/// A truth in JSON.
pub open spec fn truth(b: bool) -> Seq<char> {
    if b {
        "true"@
    } else {
        "false"@
    }
}

/// The status of the node as JSON.
pub open spec fn status_json(
    state: StateView,
    keys: Seq<Seq<char>>,
    happs: nat,
    running: bool,
    uptime: nat,
) -> Seq<char> {
    "{"@ + member("version"@, VERSION@) + ","@ + member("node_name"@, state.node_name)
        + ",\"hw_mode\":\""@ + state.hw_mode + "\","@ + member(
        "unyt_agent_id"@,
        state.unyt_agent_id,
    ) + ","@ + member("log_sender_endpoint"@, state.log_sender_endpoint)
        + ",\"edgenode_running\":"@ + truth(running) + ",\"happs_count\":"@ + dec(happs) + ","@
        + member(
        "wt_client_name"@,
        wt_client_name(state.node_name, state.unyt_agent_id, state.wt_suffix),
    ) + ","@ + member("wt_hostname"@, wt_hostname(state.node_name)) + ",\"ssh_key_count\":"@
        + dec(keys.len()) + ",\"ssh_keys\":["@ + keys_json(keys) + "],\"uptime_secs\":"@ + dec(
        uptime,
    ) + ",\"has_seed_phrase\":"@ + truth(state.seed_hash.len() > 0) + "}"@
}

fn push_keys_json(out: &mut String, keys: &Vec<String>)
    ensures
        final(out)@ == old(out)@ + keys_json(strings(keys@)),
{
    let ghost all = strings(keys@);
    let ghost start = out@;
    let mut i: usize = 0;
    assert(all.take(0) =~= Seq::<Seq<char>>::empty());
    assert(out@ =~= start + keys_json(all.take(0)));
    while i < keys.len()
        invariant
            i <= keys@.len(),
            all == strings(keys@),
            out@ == start + keys_json(all.take(i as int)),
        decreases keys@.len() - i,
    {
        assert(all.take(i + 1).drop_last() =~= all.take(i as int));
        assert(all.take(i + 1).last() == keys@[i as int]@);
        if i > 0 {
            out.push(',');
        }
        out.push('"');
        out.append(json_escape(keys[i].as_str()).as_str());
        out.push('"');
        assert(out@ =~= start + keys_json(all.take(i + 1)));
        i += 1;
    }
    assert(all.take(all.len() as int) =~= all);
}

/// Appends a truth in JSON.
pub fn push_truth(out: &mut String, b: bool)
    ensures
        final(out)@ == old(out)@ + truth(b),
{
    if b {
        out.append("true");
    } else {
        out.append("false");
    }
}

/// The status of the node, given random bytes for its suffix, the contents of the
/// state file, of the keys' file and of the file that remembers deployments,
/// whether the ordinary container runs and how long the server has been up.
pub fn handle_manage_status(
    state: &mut AppState,
    bytes: &[u8],
    state_file: &str,
    authorized_keys: &str,
    deployments_file: &str,
    running: bool,
    uptime: u64,
) -> (r: (Vec<Effect>, Reply))
    requires
        old(state).wf(),
    ensures
        final(state).wf(),
        final(state)@ == (StateView { wt_suffix: suffix_of(old(state)@, bytes@), ..old(state)@ }),
        effects(r.0@) == suffix_kept(old(state)@, bytes@, state_file@),
        r.1@ == ReplyView::Json(
            status_json(
                final(state)@,
                keys_of(authorized_keys@),
                deployments_of(deployments_file@).len(),
                running,
                uptime as nat,
            ),
        ),
{
    let (suffix, v) = ensure_wt_suffix(state, bytes, state_file);
    let client = build_wt_client_name(
        state.node_name.as_str(),
        state.unyt_agent_id.as_str(),
        suffix.as_str(),
    );
    let hostname = build_wt_hostname(state.node_name.as_str());
    let keys = read_ssh_keys(authorized_keys);
    let list = read_deployments(deployments_file);
    assert(deployments(list@).len() == list@.len());
    assert(strings(keys@).len() == keys@.len());
    let mut out = "{".to_owned();
    push_member(&mut out, "version", VERSION);
    out.append(",");
    push_member(&mut out, "node_name", state.node_name.as_str());
    out.append(",\"hw_mode\":\"");
    out.append(state.hw_mode.as_str());
    out.append("\",");
    push_member(&mut out, "unyt_agent_id", state.unyt_agent_id.as_str());
    out.append(",");
    push_member(&mut out, "log_sender_endpoint", state.log_sender_endpoint.as_str());
    out.append(",\"edgenode_running\":");
    push_truth(&mut out, running);
    out.append(",\"happs_count\":");
    push_dec(&mut out, list.len() as u128);
    out.append(",");
    push_member(&mut out, "wt_client_name", client.as_str());
    out.append(",");
    push_member(&mut out, "wt_hostname", hostname.as_str());
    out.append(",\"ssh_key_count\":");
    push_dec(&mut out, keys.len() as u128);
    out.append(",\"ssh_keys\":[");
    push_keys_json(&mut out, &keys);
    out.append("],\"uptime_secs\":");
    push_dec(&mut out, uptime as u128);
    out.append(",\"has_seed_phrase\":");
    push_truth(&mut out, !is_blank(state.seed_hash.as_str()));
    out.append("}");
    (v, Reply::Json(out))
}

// ---------------------------------------------------------------------------
// The node's name and its Agent ID
// ---------------------------------------------------------------------------

/// Why a request to change the node's name is refused.
pub open spec fn nodename_refusal(state: StateView, body: Seq<char>) -> Option<Seq<char>> {
    let name = string_field(body, "nodeName"@);
    match node_name_error(name) {
        Some(msg) => Some(msg),
        None => if name == state.node_name {
            Some("Node name unchanged"@)
        } else {
            names_error(state.hw_mode, name, state.unyt_agent_id)
        },
    }
}

/// The answer where a request is refused for a reason.
pub open spec fn refused_for(reason: Option<Seq<char>>) -> Option<ReplyView> {
    match reason {
        Some(msg) => Some(ReplyView::Error(400, msg)),
        None => None,
    }
}

/// The answer where a request to change the node's name is refused.
pub fn refuse_nodename(body: &str, state: &AppState) -> (r: Option<Reply>)
    ensures
        reply_opt(r) == refused_for(nodename_refusal(state@, body@)),
{
    let name = json_str(body, "nodeName");
    match validate_node_name(name.as_str()) {
        Some(msg) => {
            return Some(error(400, msg.as_str()));
        },
        None => {},
    }
    if same(name.as_str(), state.node_name.as_str()) {
        return Some(error(400, "Node name unchanged"));
    }
    match check_names(
        state.hw_mode.as_str(),
        name.as_str(),
        state.unyt_agent_id.as_str(),
    ) {
        Some(msg) => Some(error(400, msg.as_str())),
        None => None,
    }
}

/// What a request to change a setting leads to: the state and the effects, and the
/// answer where there is one already.
pub struct Changed {
    pub state: StateView,
    pub done: Seq<EffectView>,
    pub reply: Option<ReplyView>,
}

/// A request that is refused for a reason: nothing changes.
pub open spec fn not_changed(state: StateView, reason: Seq<char>) -> Changed {
    Changed { state, done: Seq::empty(), reply: Some(ReplyView::Error(400, reason)) }
}

/// What a request to change the node's name leads to.
pub open spec fn name_changed(
    state: StateView,
    body: Seq<char>,
    state_file: Seq<char>,
    site: SiteView,
) -> Changed {
    let name = string_field(body, "nodeName"@);
    let after = StateView { node_name: name, ..state };
    match nodename_refusal(state, body) {
        Some(msg) => not_changed(state, msg),
        None => Changed {
            state: after,
            done: key_updated(state_file, "node_name"@, name) + seq![
                EffectView::Run(seq!["hostnamectl"@, "set-hostname"@, name]),
            ] + wind_tunnel_applied(after, site),
            reply: Some(ReplyView::Json(nodename_json(name))),
        },
    }
}

/// What a request to save an Agent ID leads to.
pub open spec fn agent_saved(
    state: StateView,
    body: Seq<char>,
    state_file: Seq<char>,
    site: SiteView,
) -> Changed {
    let agent_id = string_field(body, "unytAgentId"@);
    let after = StateView { unyt_agent_id: agent_id, ..state };
    match agent_id_error_in(state.hw_mode, state.node_name, agent_id) {
        Some(msg) => not_changed(state, msg),
        None => Changed {
            state: after,
            done: key_updated(state_file, "unyt_agent_id"@, agent_id) + wind_tunnel_applied(
                after,
                site,
            ) + edgenode_applied(after, site),
            reply: None,
        },
    }
}

/// What a request to switch the node's mode leads to.
pub open spec fn mode_switched(
    state: StateView,
    body: Seq<char>,
    state_file: Seq<char>,
    site: SiteView,
) -> Changed {
    let mode = mode_asked(string_field(body, "mode"@));
    match hostname_error_in(mode, state.node_name) {
        Some(msg) => not_changed(state, msg),
        None => Changed {
            state: StateView { hw_mode: mode, ..state },
            done: mode_applied(state, mode, site, state_file),
            reply: Some(ReplyView::Json(STATUS_OK@)),
        },
    }
}

/// What saving the image that a request names leads to.
pub open spec fn image_saved(state: StateView, body: Seq<char>, state_file: Seq<char>) -> Changed {
    match setting_in(body, "wtImageOverride"@) {
        None => Changed { state, done: Seq::empty(), reply: None },
        Some(image) => match image_error(image) {
            Some(msg) => not_changed(state, msg),
            None => Changed {
                state: StateView { wt_image_override: image, ..state },
                done: key_updated(state_file, "wt_image_override"@, image),
                reply: None,
            },
        },
    }
}

/// What saving the entrypoint that a request names leads to, given what stands at its
/// path.
pub open spec fn entrypoint_saved(
    state: StateView,
    body: Seq<char>,
    found: PathKind,
    state_file: Seq<char>,
) -> Changed {
    match setting_in(body, "wtEntrypointBind"@) {
        None => Changed { state, done: Seq::empty(), reply: None },
        Some(path) => match entrypoint_error(path, found) {
            Some(msg) => not_changed(state, msg),
            None => Changed {
                state: StateView { wt_entrypoint_bind: path, ..state },
                done: key_updated(state_file, "wt_entrypoint_bind"@, path),
                reply: None,
            },
        },
    }
}

/// What a request to save the address of a log collector leads to.
pub open spec fn collector_saved(
    state: StateView,
    body: Seq<char>,
    state_file: Seq<char>,
    site: SiteView,
) -> Changed {
    let endpoint = string_field(body, "logSenderEndpoint"@);
    let after = StateView { log_sender_endpoint: endpoint, ..state };
    match endpoint_error(endpoint) {
        Some(msg) => not_changed(state, msg),
        None => Changed {
            state: after,
            done: key_updated(state_file, "log_sender_endpoint"@, endpoint) + edgenode_applied(
                after,
                site,
            ),
            reply: Some(ReplyView::Json(STATUS_OK@)),
        },
    }
}

/// What a request to make a seed phrase leads to, given the phrase and what is to be
/// kept of it.
pub open spec fn seed_made(
    state: StateView,
    phrase: Seq<char>,
    record: Seq<char>,
    state_file: Seq<char>,
) -> Changed {
    match seed_refusal(state) {
        Some(msg) => not_changed(state, msg),
        None => Changed {
            state: StateView { seed_hash: record, ..state },
            done: key_updated(state_file, "seed_hash"@, record),
            reply: Some(ReplyView::Json(seed_json(phrase))),
        },
    }
}

/// The answer to a change of the node's name.
pub open spec fn nodename_json(name: Seq<char>) -> Seq<char> {
    "{\"status\":\"ok\","@ + member("node_name"@, name) + ","@ + member(
        "wt_hostname"@,
        wt_hostname(name),
    ) + "}"@
}

/// Changes the node's name and the host name of its system, given the content of
/// the state file.
pub fn handle_nodename(body: &str, state: &mut AppState, state_file: &str, site: &Site) -> (r: (
    Vec<Effect>,
    Reply,
))
    requires
        old(state).wf(),
    ensures
        final(state).wf(),
        (match nodename_refusal(old(state)@, body@) {
            Some(msg) => final(state)@ == old(state)@ && effects(r.0@) == Seq::<EffectView>::empty()
                && r.1@ == ReplyView::Error(400, msg),
            None => {
                let name = string_field(body@, "nodeName"@);
                &&& final(state)@ == (StateView { node_name: name, ..old(state)@ })
                &&& effects(r.0@) == key_updated(state_file@, "node_name"@, name)
                    + seq![
                    EffectView::Run(seq!["hostnamectl"@, "set-hostname"@, name]),
                ] + wind_tunnel_applied(final(state)@, site@)
                &&& r.1@ == ReplyView::Json(nodename_json(name))
            },
        }),
        (Changed { state: final(state)@, done: effects(r.0@), reply: Some(r.1@) }) == name_changed(
            old(state)@,
            body@,
            state_file@,
            site@,
        ),
{
    match refuse_nodename(body, state) {
        Some(reply) => {
            return (no_effects(), reply);
        },
        None => {},
    }
    let name = json_str(body, "nodeName");
    let mut v = update_state_key(state_file, "node_name", name.as_str());
    push_effect(&mut v, run3("hostnamectl", "set-hostname", name.as_str()));
    state.node_name = name.as_str().to_owned();
    add_all(&mut v, apply_wind_tunnel_config(state, site));
    let hostname = build_wt_hostname(name.as_str());
    let mut out = "{\"status\":\"ok\",".to_owned();
    push_member(&mut out, "node_name", name.as_str());
    out.append(",");
    push_member(&mut out, "wt_hostname", hostname.as_str());
    out.append("}");
    assert(effects(v@) =~= key_updated(state_file@, "node_name"@, name@) + seq![
        EffectView::Run(seq!["hostnamectl"@, "set-hostname"@, name@]),
    ] + wind_tunnel_applied(state@, site@));
    (v, Reply::Json(out))
}

/// The answer where a request to save an Agent ID is refused.
pub fn refuse_unyt(body: &str, state: &AppState) -> (r: Option<Reply>)
    ensures
        reply_opt(r) == refused_for(
            agent_id_error_in(
                state@.hw_mode,
                state@.node_name,
                string_field(body@, "unytAgentId"@),
            ),
        ),
{
    let agent_id = json_str(body, "unytAgentId");
    match check_agent_id(
        state.hw_mode.as_str(),
        state.node_name.as_str(),
        agent_id.as_str(),
    ) {
        Some(msg) => Some(error(400, msg.as_str())),
        None => None,
    }
}

/// Saves an Agent ID, given the content of the state file. Where there is no
/// answer yet, `finish_unyt` gives it.
pub fn handle_unyt(body: &str, state: &mut AppState, state_file: &str, site: &Site) -> (r: (
    Vec<Effect>,
    Option<Reply>,
))
    requires
        old(state).wf(),
    ensures
        final(state).wf(),
        ({
            let agent_id = string_field(body@, "unytAgentId"@);
            match agent_id_error_in(old(state)@.hw_mode, old(state)@.node_name, agent_id) {
                Some(msg) => final(state)@ == old(state)@ && effects(r.0@) == Seq::<
                    EffectView,
                >::empty() && reply_opt(r.1) == Some(ReplyView::Error(400, msg)),
                None => {
                    &&& final(state)@ == (StateView { unyt_agent_id: agent_id, ..old(state)@ })
                    &&& effects(r.0@) == key_updated(state_file@, "unyt_agent_id"@, agent_id)
                        + wind_tunnel_applied(final(state)@, site@) + edgenode_applied(
                        final(state)@,
                        site@,
                    )
                    &&& r.1 is None
                },
            }
        }),
        (Changed { state: final(state)@, done: effects(r.0@), reply: reply_opt(r.1) })
            == agent_saved(old(state)@, body@, state_file@, site@),
{
    match refuse_unyt(body, state) {
        Some(reply) => {
            return (no_effects(), Some(reply));
        },
        None => {},
    }
    let agent_id = json_str(body, "unytAgentId");
    let mut v = update_state_key(state_file, "unyt_agent_id", agent_id.as_str());
    state.unyt_agent_id = agent_id;
    add_all(&mut v, apply_wind_tunnel_config(state, site));
    add_all(&mut v, apply_edgenode_config(state, site));
    (v, None)
}

/// The answer once an Agent ID was saved, given random bytes for the node's
/// suffix and the content of the state file then.
pub fn finish_unyt(state: &mut AppState, bytes: &[u8], state_file: &str) -> (r: (
    Vec<Effect>,
    Reply,
))
    requires
        old(state).wf(),
    ensures
        final(state).wf(),
        final(state)@ == (StateView { wt_suffix: suffix_of(old(state)@, bytes@), ..old(state)@ }),
        effects(r.0@) == suffix_kept(old(state)@, bytes@, state_file@),
        r.1@ == ReplyView::Json(
            "{\"status\":\"ok\","@ + member(
                "wt_client_name"@,
                wt_client_name(
                    old(state)@.node_name,
                    old(state)@.unyt_agent_id,
                    suffix_of(old(state)@, bytes@),
                ),
            ) + "}"@,
        ),
{
    let (suffix, v) = ensure_wt_suffix(state, bytes, state_file);
    let client = build_wt_client_name(
        state.node_name.as_str(),
        state.unyt_agent_id.as_str(),
        suffix.as_str(),
    );
    let mut out = "{\"status\":\"ok\",".to_owned();
    push_member(&mut out, "wt_client_name", client.as_str());
    out.append("}");
    (v, Reply::Json(out))
}

// ---------------------------------------------------------------------------
// Hardware mode, Wind Tunnel and log collector
// ---------------------------------------------------------------------------

/// The answer where a request to switch the node's mode is refused: the host name
/// that the node's name makes does not fit.
pub fn refuse_hardware(body: &str, state: &AppState) -> (r: Option<Reply>)
    ensures
        reply_opt(r) == refused_for(
            hostname_error_in(mode_asked(string_field(body@, "mode"@)), state@.node_name),
        ),
{
    let mode = asked_mode(json_str(body, "mode").as_str());
    match check_hostname(mode, state.node_name.as_str()) {
        Some(msg) => Some(error(400, msg.as_str())),
        None => None,
    }
}

/// Switches the node's mode, given the content of the state file.
pub fn handle_hardware(body: &str, state: &mut AppState, state_file: &str, site: &Site) -> (r: (
    Vec<Effect>,
    Reply,
))
    requires
        old(state).wf(),
    ensures
        final(state).wf(),
        ({
            let mode = mode_asked(string_field(body@, "mode"@));
            match hostname_error_in(mode, old(state)@.node_name) {
                Some(msg) => final(state)@ == old(state)@ && effects(r.0@) == Seq::<
                    EffectView,
                >::empty() && r.1@ == ReplyView::Error(400, msg),
                None => {
                    &&& final(state)@ == (StateView { hw_mode: mode, ..old(state)@ })
                    &&& effects(r.0@) == mode_applied(old(state)@, mode, site@, state_file@)
                    &&& r.1@ == ReplyView::Json(STATUS_OK@)
                },
            }
        }),
        (Changed { state: final(state)@, done: effects(r.0@), reply: Some(r.1@) })
            == mode_switched(old(state)@, body@, state_file@, site@),
{
    match refuse_hardware(body, state) {
        Some(reply) => {
            return (no_effects(), reply);
        },
        None => {},
    }
    let mode = asked_mode(json_str(body, "mode").as_str());
    let v = apply_hardware_mode(mode, state, site, state_file);
    (v, json(STATUS_OK))
}

/// The value that a request gives a setting, without white space at its ends;
/// `None` where the request does not name the setting.
pub open spec fn setting_in(body: Seq<char>, key: Seq<char>) -> Option<Seq<char>> {
    if occurs(body, quoted(key)) {
        Some(trim(string_field(body, key)))
    } else {
        None
    }
}

/// The value that a request gives a setting.
fn read_setting(body: &str, key: &str) -> (r: Option<String>)
    ensures
        opt(r) == setting_in(body@, key@),
{
    if !json_has_key(body, key) {
        return None;
    }
    let text = json_str(body, key);
    let c = chars_of(text.as_str());
    Some(string_of(trimmed(c.as_slice())))
}

/// Saves the image that a request names, given the content of the state file. An
/// answer means that the request is refused.
pub fn set_wind_tunnel_image(body: &str, state: &mut AppState, state_file: &str) -> (r: (
    Vec<Effect>,
    Option<Reply>,
))
    requires
        old(state).wf(),
    ensures
        final(state).wf(),
        (match setting_in(body@, "wtImageOverride"@) {
            None => final(state)@ == old(state)@ && effects(r.0@) == Seq::<EffectView>::empty()
                && r.1 is None,
            Some(image) => match image_error(image) {
                Some(msg) => final(state)@ == old(state)@ && effects(r.0@) == Seq::<
                    EffectView,
                >::empty() && reply_opt(r.1) == Some(ReplyView::Error(400, msg)),
                None => final(state)@ == (StateView { wt_image_override: image, ..old(state)@ })
                    && effects(r.0@) == key_updated(state_file@, "wt_image_override"@, image)
                    && r.1 is None,
            },
        }),
        (Changed { state: final(state)@, done: effects(r.0@), reply: reply_opt(r.1) })
            == image_saved(old(state)@, body@, state_file@),
{
    match read_setting(body, "wtImageOverride") {
        None => (no_effects(), None),
        Some(image) => match validate_wt_image_override(image.as_str()) {
            Some(msg) => (no_effects(), Some(error(400, msg.as_str()))),
            None => {
                let v = update_state_key(state_file, "wt_image_override", image.as_str());
                state.wt_image_override = image;
                (v, None)
            },
        },
    }
}

/// The path that has to be looked at before the entrypoint that a request names
/// is accepted.
pub fn wind_tunnel_path(body: &str) -> (r: Option<String>)
    ensures
        opt(r) == (match setting_in(body@, "wtEntrypointBind"@) {
            None => None,
            Some(path) => entrypoint_path(path),
        }),
{
    match read_setting(body, "wtEntrypointBind") {
        None => None,
        Some(path) => entrypoint_to_look_at(path.as_str()),
    }
}

/// Saves the entrypoint that a request names, given what stands at its path and
/// the content of the state file. An answer means that the request is refused.
pub fn set_wind_tunnel_entrypoint(
    body: &str,
    state: &mut AppState,
    found: PathKind,
    state_file: &str,
) -> (r: (Vec<Effect>, Option<Reply>))
    requires
        old(state).wf(),
    ensures
        final(state).wf(),
        (match setting_in(body@, "wtEntrypointBind"@) {
            None => final(state)@ == old(state)@ && effects(r.0@) == Seq::<EffectView>::empty()
                && r.1 is None,
            Some(path) => match entrypoint_error(path, found) {
                Some(msg) => final(state)@ == old(state)@ && effects(r.0@) == Seq::<
                    EffectView,
                >::empty() && reply_opt(r.1) == Some(ReplyView::Error(400, msg)),
                None => final(state)@ == (StateView { wt_entrypoint_bind: path, ..old(state)@ })
                    && effects(r.0@) == key_updated(state_file@, "wt_entrypoint_bind"@, path)
                    && r.1 is None,
            },
        }),
        (Changed { state: final(state)@, done: effects(r.0@), reply: reply_opt(r.1) })
            == entrypoint_saved(old(state)@, body@, found, state_file@),
{
    match read_setting(body, "wtEntrypointBind") {
        None => (no_effects(), None),
        Some(path) => match validate_wt_entrypoint_bind(path.as_str(), found) {
            Some(msg) => (no_effects(), Some(error(400, msg.as_str()))),
            None => {
                let v = update_state_key(state_file, "wt_entrypoint_bind", path.as_str());
                state.wt_entrypoint_bind = path;
                (v, None)
            },
        },
    }
}

/// The answer to a change of the Wind Tunnel settings.
pub open spec fn wind_tunnel_json(state: StateView, site: SiteView) -> Seq<char> {
    let cfg = config_at(state, site);
    "{\"status\":\"ok\","@ + member("image"@, cfg.image) + ","@ + member("hostname"@, cfg.hostname)
        + ","@ + member(
        "entrypoint_bind"@,
        match cfg.entrypoint_bind {
            Some(path) => path,
            None => ""@,
        },
    ) + "}"@
}

/// What putting the Wind Tunnel settings into force takes, unless the request says not
/// to.
pub open spec fn tunnel_in_force(body: Seq<char>, state: StateView, site: SiteView) -> Seq<
    EffectView,
> {
    if flag_field(body, "apply"@, true) {
        wind_tunnel_applied(state, site)
    } else {
        Seq::empty()
    }
}

/// Puts the Wind Tunnel settings into force, unless the request says not to, once
/// they were saved.
pub fn handle_wind_tunnel(body: &str, state: &AppState, site: &Site) -> (r: (Vec<Effect>, Reply))
    ensures
        effects(r.0@) == (if flag_field(body@, "apply"@, true) {
            wind_tunnel_applied(state@, site@)
        } else {
            Seq::<EffectView>::empty()
        }),
        effects(r.0@) == tunnel_in_force(body@, state@, site@),
        r.1@ == ReplyView::Json(wind_tunnel_json(state@, site@)),
{
    let v = if json_bool(body, "apply", true) {
        apply_wind_tunnel_config(state, site)
    } else {
        no_effects()
    };
    let cfg = config_of(state, site);
    let entrypoint = match cfg.entrypoint_bind {
        Some(path) => path,
        None => "".to_owned(),
    };
    let mut out = "{\"status\":\"ok\",".to_owned();
    push_member(&mut out, "image", cfg.image.as_str());
    out.append(",");
    push_member(&mut out, "hostname", cfg.hostname.as_str());
    out.append(",");
    push_member(&mut out, "entrypoint_bind", entrypoint.as_str());
    out.append("}");
    (v, Reply::Json(out))
}

/// The answer where a request to save the address of a log collector is refused.
pub fn refuse_log_sender(body: &str) -> (r: Option<Reply>)
    ensures
        reply_opt(r) == refused_for(endpoint_error(string_field(body@, "logSenderEndpoint"@))),
{
    let endpoint = json_str(body, "logSenderEndpoint");
    match validate_log_sender_endpoint(endpoint.as_str()) {
        Some(msg) => Some(error(400, msg.as_str())),
        None => None,
    }
}

/// Saves the address of a log collector, given the content of the state file.
pub fn handle_log_sender(body: &str, state: &mut AppState, state_file: &str, site: &Site) -> (r: (
    Vec<Effect>,
    Reply,
))
    requires
        old(state).wf(),
    ensures
        final(state).wf(),
        ({
            let endpoint = string_field(body@, "logSenderEndpoint"@);
            match endpoint_error(endpoint) {
                Some(msg) => final(state)@ == old(state)@ && effects(r.0@) == Seq::<
                    EffectView,
                >::empty() && r.1@ == ReplyView::Error(400, msg),
                None => {
                    &&& final(state)@ == (StateView { log_sender_endpoint: endpoint, ..old(state)@ })
                    &&& effects(r.0@) == key_updated(
                        state_file@,
                        "log_sender_endpoint"@,
                        endpoint,
                    ) + edgenode_applied(final(state)@, site@)
                    &&& r.1@ == ReplyView::Json(STATUS_OK@)
                },
            }
        }),
        (Changed { state: final(state)@, done: effects(r.0@), reply: Some(r.1@) })
            == collector_saved(old(state)@, body@, state_file@, site@),
{
    match refuse_log_sender(body) {
        Some(reply) => {
            return (no_effects(), reply);
        },
        None => {},
    }
    let endpoint = json_str(body, "logSenderEndpoint");
    let mut v = update_state_key(state_file, "log_sender_endpoint", endpoint.as_str());
    state.log_sender_endpoint = endpoint;
    add_all(&mut v, apply_edgenode_config(state, site));
    (v, json(STATUS_OK))
}

// ---------------------------------------------------------------------------
// The password
// ---------------------------------------------------------------------------

/// How a request to change the password goes on.
#[derive(Debug, PartialEq, Eq)]
pub enum PasswordStep {
    /// Answer it.
    Answer(Reply),
    /// Work out the digest of a text.
    Digest(String),
}

/// A step with its text as a sequence of characters.
pub enum PasswordStepView {
    Answer(ReplyView),
    Digest(Seq<char>),
}

impl View for PasswordStep {
    type V = PasswordStepView;

    open spec fn view(&self) -> PasswordStepView {
        match *self {
            PasswordStep::Answer(r) => PasswordStepView::Answer(r@),
            PasswordStep::Digest(s) => PasswordStepView::Digest(s@),
        }
    }
}

/// The answer to a wrong password.
pub open spec fn wrong_password() -> ReplyView {
    ReplyView::Error(401, "Incorrect current password"@)
}

/// How a request to change the password begins.
pub open spec fn password_step(body: Seq<char>, stored: Seq<char>) -> PasswordStepView {
    let current = string_field(body, "current"@);
    let new = string_field(body, "newPassword"@);
    if current.len() == 0 || new.len() == 0 {
        PasswordStepView::Answer(ReplyView::Error(400, "current and newPassword are required"@))
    } else {
        match password_error(new) {
            Some(msg) => PasswordStepView::Answer(ReplyView::Error(400, msg)),
            None => match challenge(current, stored) {
                None => PasswordStepView::Answer(wrong_password()),
                Some(text) => PasswordStepView::Digest(text),
            },
        }
    }
}

/// How a request to change the password begins, given what is kept of the
/// password: with the text whose digest shows whether the current one is right.
pub fn handle_password(body: &str, stored: &str) -> (r: PasswordStep)
    ensures
        r@ == password_step(body@, stored@),
{
    let current = json_str(body, "current");
    let new = json_str(body, "newPassword");
    if is_blank(current.as_str()) || is_blank(new.as_str()) {
        return PasswordStep::Answer(error(400, "current and newPassword are required"));
    }
    match check_password(new.as_str()) {
        Some(msg) => {
            return PasswordStep::Answer(error(400, msg.as_str()));
        },
        None => {},
    }
    match password_challenge(current.as_str(), stored) {
        None => PasswordStep::Answer(error(401, "Incorrect current password")),
        Some(text) => PasswordStep::Digest(text),
    }
}

/// How a request for a new password goes on, given what is kept, the digest that was
/// worked out and random bytes for a salt: with the text whose digest is to be kept, or
/// with the answer to a wrong digest.
pub open spec fn new_password_text(
    body: Seq<char>,
    stored: Seq<char>,
    digest: Seq<char>,
    salt: Seq<u8>,
    wrong: ReplyView,
) -> PasswordStepView {
    if digest_accepted(stored, digest) {
        PasswordStepView::Digest(salted(hex(salt), string_field(body, "newPassword"@)))
    } else {
        PasswordStepView::Answer(wrong)
    }
}

/// How a request to change the password goes on, given the digest for the current
/// one and random bytes for a salt: with the text whose digest is to be kept.
pub fn confirm_password(
    body: &str,
    stored: &str,
    digest: &str,
    salt: &[u8; SALT_BYTES],
) -> (r: PasswordStep)
    ensures
        r@ == (if digest_accepted(stored@, digest@) {
            PasswordStepView::Digest(salted(hex(salt@), string_field(body@, "newPassword"@)))
        } else {
            PasswordStepView::Answer(wrong_password())
        }),
        r@ == new_password_text(body@, stored@, digest@, salt@, wrong_password()),
{
    if !verify_password(stored, digest) {
        return PasswordStep::Answer(error(401, "Incorrect current password"));
    }
    let new = json_str(body, "newPassword");
    PasswordStep::Digest(salted_password(random_hex(salt.as_slice()).as_str(), new.as_str()))
}

/// Keeps a new password, given the bytes of its salt and its digest. The first
/// part is what is kept.
pub fn finish_password(salt: &[u8; SALT_BYTES], digest: &str) -> (r: (String, Vec<Effect>, Reply))
    ensures
        r.0@ == auth_record(hex(salt@), digest@),
        effects(r.1@) == auth_kept(r.0@),
        r.2@ == ReplyView::Json(STATUS_OK@),
{
    let record = hash_password(salt, digest);
    let v = keep_auth(record.as_str());
    (record, v, json(STATUS_OK))
}

// ---------------------------------------------------------------------------
// The recovery seed phrase
// ---------------------------------------------------------------------------

/// Makes a seed phrase from random bytes, given others for a salt. The second part
/// is the text whose digest is to be kept of the phrase.
pub fn new_seed_phrase(
    entropy: &[u8; ENTROPY_BYTES],
    seed_salt: &[u8; SALT_BYTES],
) -> (r: (String, String))
    ensures
        r.0@ == mnemonic_from(entropy@),
        is_seed_phrase(r.0@),
        r.1@ == salted(hex(seed_salt@), r.0@),
{
    let phrase = make_seed_phrase(entropy);
    let text = salted_password(random_hex(seed_salt.as_slice()).as_str(), phrase.as_str());
    (phrase, text)
}

/// The answer to a seed phrase that is not the node's.
pub open spec fn wrong_seed_phrase() -> ReplyView {
    ReplyView::Error(401, "Incorrect seed phrase"@)
}

/// How a request to reset the password begins, given the seed phrase that the
/// request comes with, if it is one, and what is kept of the node's.
pub open spec fn recovery_step(
    body: Seq<char>,
    phrase: Option<Seq<char>>,
    seed_hash: Seq<char>,
) -> PasswordStepView {
    let new = string_field(body, "newPassword"@);
    if string_field(body, "seedPhrase"@).len() == 0 || new.len() == 0 {
        PasswordStepView::Answer(ReplyView::Error(400, "seedPhrase and newPassword are required"@))
    } else {
        match password_error(new) {
            Some(msg) => PasswordStepView::Answer(ReplyView::Error(400, msg)),
            None => match phrase {
                None => PasswordStepView::Answer(ReplyView::Error(400, "Invalid seed phrase"@)),
                Some(p) => match challenge(p, seed_hash) {
                    None => PasswordStepView::Answer(wrong_seed_phrase()),
                    Some(text) => PasswordStepView::Digest(text),
                },
            },
        }
    }
}

/// How a request to reset the password begins, given the seed phrase that the
/// request comes with, if it is one.
pub fn begin_recovery(body: &str, phrase: Option<&str>, seed_hash: &str) -> (r: PasswordStep)
    ensures
        r@ == recovery_step(body@, opt_str(phrase), seed_hash@),
{
    let given = json_str(body, "seedPhrase");
    let new = json_str(body, "newPassword");
    if is_blank(given.as_str()) || is_blank(new.as_str()) {
        return PasswordStep::Answer(error(400, "seedPhrase and newPassword are required"));
    }
    match check_password(new.as_str()) {
        Some(msg) => {
            return PasswordStep::Answer(error(400, msg.as_str()));
        },
        None => {},
    }
    match phrase {
        None => PasswordStep::Answer(error(400, "Invalid seed phrase")),
        Some(p) => match password_challenge(p, seed_hash) {
            None => PasswordStep::Answer(error(401, "Incorrect seed phrase")),
            Some(text) => PasswordStep::Digest(text),
        },
    }
}

/// How a request to reset the password begins: with the text whose digest shows
/// whether the seed phrase is the node's.
pub fn handle_recover(body: &str, state: &AppState) -> (r: PasswordStep)
    ensures
        r@ == recovery_step(
            body@,
            seed_phrase_in(string_field(body@, "seedPhrase"@)),
            state@.seed_hash,
        ),
{
    let phrase = read_seed_phrase(json_str(body, "seedPhrase").as_str());
    match phrase {
        None => begin_recovery(body, None, state.seed_hash.as_str()),
        Some(p) => begin_recovery(body, Some(p.as_str()), state.seed_hash.as_str()),
    }
}

/// How a request to reset the password goes on, given the digest for the seed
/// phrase and random bytes for a salt: with the text whose digest is to be kept.
/// `finish_password` keeps it.
pub fn confirm_recovery(
    body: &str,
    state: &AppState,
    digest: &str,
    salt: &[u8; SALT_BYTES],
) -> (r: PasswordStep)
    ensures
        r@ == (if digest_accepted(state@.seed_hash, digest@) {
            PasswordStepView::Digest(salted(hex(salt@), string_field(body@, "newPassword"@)))
        } else {
            PasswordStepView::Answer(wrong_seed_phrase())
        }),
        r@ == new_password_text(body@, state@.seed_hash, digest@, salt@, wrong_seed_phrase()),
{
    if !verify_password(state.seed_hash.as_str(), digest) {
        return PasswordStep::Answer(error(401, "Incorrect seed phrase"));
    }
    let new = json_str(body, "newPassword");
    PasswordStep::Digest(salted_password(random_hex(salt.as_slice()).as_str(), new.as_str()))
}

/// Why a request to make a seed phrase is refused: the node has one.
pub open spec fn seed_refusal(state: StateView) -> Option<Seq<char>> {
    if state.seed_hash.len() > 0 {
        Some("A recovery seed phrase has already been generated"@)
    } else {
        None
    }
}

/// The answer where a request to make a seed phrase is refused.
pub fn refuse_generate_seed(state: &AppState) -> (r: Option<Reply>)
    ensures
        reply_opt(r) == refused_for(seed_refusal(state@)),
{
    if is_blank(state.seed_hash.as_str()) {
        None
    } else {
        Some(error(400, "A recovery seed phrase has already been generated"))
    }
}

/// Hands out a seed phrase to a node that has none, and keeps its salt and digest,
/// given the content of the state file.
pub fn handle_generate_seed(
    state: &mut AppState,
    phrase: &str,
    seed_salt: &[u8; SALT_BYTES],
    seed_digest: &str,
    state_file: &str,
) -> (r: (Vec<Effect>, Reply))
    requires
        old(state).wf(),
    ensures
        final(state).wf(),
        (match seed_refusal(old(state)@) {
            Some(msg) => final(state)@ == old(state)@ && effects(r.0@) == Seq::<EffectView>::empty()
                && r.1@ == ReplyView::Error(400, msg),
            None => {
                let record = auth_record(hex(seed_salt@), seed_digest@);
                &&& final(state)@ == (StateView { seed_hash: record, ..old(state)@ })
                &&& effects(r.0@) == key_updated(state_file@, "seed_hash"@, record)
                &&& r.1@ == ReplyView::Json(seed_json(phrase@))
            },
        }),
        (Changed { state: final(state)@, done: effects(r.0@), reply: Some(r.1@) }) == seed_made(
            old(state)@,
            phrase@,
            auth_record(hex(seed_salt@), seed_digest@),
            state_file@,
        ),
{
    match refuse_generate_seed(state) {
        Some(reply) => {
            return (no_effects(), reply);
        },
        None => {},
    }
    let record = hash_password(seed_salt, seed_digest);
    let v = update_state_key(state_file, "seed_hash", record.as_str());
    state.seed_hash = record;
    (v, hand_out(phrase))
}

// ---------------------------------------------------------------------------
// Updates
// ---------------------------------------------------------------------------

/// The repository to look for a release in, and the answer; the search goes on
/// behind it.
pub fn handle_update(env: Option<&str>) -> (r: (String, Reply))
    ensures
        r.0@ == (match opt_str(env) {
            Some(repo) => repo,
            None => UPDATE_REPO_DEFAULT@,
        }),
        r.1@ == ReplyView::Json("{\"status\":\"update_triggered\"}"@),
{
    (update_repo(env), json("{\"status\":\"update_triggered\"}"))
}

// ---------------------------------------------------------------------------
// What holds of all requests
// ---------------------------------------------------------------------------

/// In the Wind Tunnel, a node name and an Agent ID are accepted together exactly
/// where the name has at most 50 bytes and the Agent ID is in order: how long the
/// Agent ID is plays no part.
pub proof fn law_names_in_wind_tunnel(node_name: Seq<char>, agent_id: Seq<char>)
    ensures
        names_error(WIND_TUNNEL@, node_name, agent_id) is None <==> agent_id_error(agent_id) is None
            && byte_len(node_name) <= 50,
        is_slug(node_name) ==> byte_len(node_name) == node_name.len(),
{
    law_hostname_fits(node_name);
    if is_slug(node_name) {
        assert forall|i: int| 0 <= i < node_name.len() implies '\0' <= #[trigger] node_name[i]
            <= '\u{7f}' by {}
        is_ascii_chars_encode_utf8(node_name);
    }
}

/// A request to set up a node in the Wind Tunnel is accepted exactly where the node
/// has not been set up, the name has one to 50 bytes, the Agent ID is in order and
/// the password has at least eight characters. An Agent ID that is in order is then
/// saved, however long it is.
pub proof fn law_set_up_in_wind_tunnel(state: StateView, body: Seq<char>)
    requires
        mode_asked(string_field(body, "hwMode"@)) == WIND_TUNNEL@,
    ensures
        submit_refused(state, body) is None <==> {
            &&& !state.onboarded
            &&& 0 < string_field(body, "nodeName"@).len()
            &&& byte_len(string_field(body, "nodeName"@)) <= 50
            &&& agent_id_error(string_field(body, "unytAgentId"@)) is None
            &&& string_field(body, "password"@).len() >= 8
        },
        forall|agent_id: Seq<char>|
            agent_id_error_in(WIND_TUNNEL@, state.node_name, agent_id) == #[trigger] agent_id_error(
                agent_id,
            ),
{
    law_names_in_wind_tunnel(
        string_field(body, "nodeName"@),
        string_field(body, "unytAgentId"@),
    );
}

/// The names that a node was set up with fit: its host name has at most 63 bytes in
/// the Wind Tunnel, and its client name in the ordinary mode.
pub proof fn law_set_up_names_fit(
    state: StateView,
    body: Seq<char>,
    bytes: Seq<u8>,
    seed_hash: Seq<char>,
)
    requires
        submit_refusal(body) is None,
        bytes.len() == 8,
    ensures
        ({
            let s = submitted(state, body, bytes, seed_hash);
            &&& s.node_name.len() > 0
            &&& s.hw_mode == WIND_TUNNEL@ ==> byte_len(wt_hostname(s.node_name)) <= 63
            &&& s.hw_mode != WIND_TUNNEL@ ==> byte_len(
                wt_client_name(s.node_name, s.unyt_agent_id, s.wt_suffix),
            ) <= 63
        }),
{
    let s = submitted(state, body, bytes, seed_hash);
    lemma_hex(bytes);
    lemma_suffix_bytes(s.wt_suffix);
    law_hostname_fits(s.node_name);
    if s.hw_mode != WIND_TUNNEL@ {
        law_client_name_fits(s.node_name, s.unyt_agent_id, s.wt_suffix);
    }
}

/// A node is set up once. A request to set up a node that has been set up is
/// refused at every step: it changes neither the state nor what is kept of the
/// password, and has no effects. After a node was set up, every further request is
/// refused that way.
pub proof fn law_set_up_once(
    state: StateView,
    body: Seq<char>,
    bytes: Seq<u8>,
    site: SiteView,
    salt: Seq<u8>,
    auth: Seq<char>,
    phrase: Seq<char>,
    seed_hash: Seq<char>,
)
    ensures
        state.onboarded ==> {
            &&& submit_begun(state, body, salt) == PasswordStepView::Answer(already_set_up())
            &&& submit_prepared(state, body) == Seq::<EffectView>::empty()
            &&& submit_next(state, body) == PlanView::Answer(already_set_up())
            &&& set_up(state, body, bytes, site, auth, phrase, seed_hash) == (SetUp {
                state,
                done: Seq::empty(),
                reply: already_set_up(),
                auth: None,
            })
        },
        set_up(state, body, bytes, site, auth, phrase, seed_hash).state.onboarded,
{
}

proof fn lemma_suffix_bytes(s: Seq<char>)
    requires
        forall|i: int| 0 <= i < s.len() ==> is_lower_hex(#[trigger] s[i]),
    ensures
        byte_len(s) == s.len(),
{
    assert(is_ascii_chars(s)) by {
        assert forall|i: int| 0 <= i < s.len() implies '\0' <= #[trigger] s[i] <= '\u{7f}' by {
            assert(is_lower_hex(s[i]));
        }
    }
    is_ascii_chars_encode_utf8(s);
}

/// A node name that a change was accepted for is a lowercase slug, differs from
/// the old one, and makes a host name of at most 63 bytes in the Wind Tunnel.
pub proof fn law_changed_name_fits(state: StateView, body: Seq<char>)
    requires
        nodename_refusal(state, body) is None,
    ensures
        ({
            let name = string_field(body, "nodeName"@);
            &&& name.len() > 0
            &&& is_slug(name)
            &&& name != state.node_name
            &&& state.hw_mode == WIND_TUNNEL@ ==> byte_len(wt_hostname(name)) <= 63
        }),
{
    law_hostname_fits(string_field(body, "nodeName"@));
}

/// A node in the Wind Tunnel has a host name that fits: a switch to that mode is
/// refused where it would not.
pub proof fn law_wind_tunnel_hostname_fits(node_name: Seq<char>)
    ensures
        hostname_error_in(WIND_TUNNEL@, node_name) is None <==> byte_len(wt_hostname(node_name))
            <= 63,
        hostname_error_in(STANDARD@, node_name) is None,
{
    law_hostname_fits(node_name);
    reveal_strlit("WIND_TUNNEL");
    reveal_strlit("STANDARD");
    assert(WIND_TUNNEL@[0] == 'W');
    assert(STANDARD@[0] == 'S');
}

/// The password that was chosen when the node was set up has at least eight
/// characters. What is kept of it accepts the digest of that password, and no
/// other.
pub proof fn law_chosen_password_logs_in(body: Seq<char>, salt: Seq<u8>, digest: Seq<char>)
    requires
        submit_refusal(body) is None,
        hex_text(digest),
        digest.len() > 0,
    ensures
        string_field(body, "password"@).len() >= 8,
        challenge(string_field(body, "password"@), auth_record(hex(salt), digest)) == Some(
            salted(hex(salt), string_field(body, "password"@)),
        ),
        forall|d: Seq<char>| digest_accepted(auth_record(hex(salt), digest), d) <==> d == digest,
{
    lemma_hex(salt);
    law_password_round_trip(hex(salt), digest, string_field(body, "password"@));
}

/// The chosen password itself is kept nowhere: two requests that differ in their
/// password alone lead to the same state and, with the same record of a password,
/// to the same effects.
pub proof fn law_chosen_password_is_not_kept(
    state: StateView,
    body: Seq<char>,
    other: Seq<char>,
    bytes: Seq<u8>,
    site: SiteView,
    auth: Seq<char>,
    seed_hash: Seq<char>,
)
    requires
        string_field(body, "nodeName"@) == string_field(other, "nodeName"@),
        string_field(body, "hwMode"@) == string_field(other, "hwMode"@),
        string_field(body, "unytAgentId"@) == string_field(other, "unytAgentId"@),
        string_field(body, "sshKey"@) == string_field(other, "sshKey"@),
    ensures
        submitted(state, body, bytes, seed_hash) == submitted(state, other, bytes, seed_hash),
        submit_done(submitted(state, body, bytes, seed_hash), body, site, auth) == submit_done(
            submitted(state, other, bytes, seed_hash),
            other,
            site,
            auth,
        ),
        forall|phrase: Seq<char>| #[trigger]
            set_up(state, body, bytes, site, auth, phrase, seed_hash) == set_up(
                state,
                other,
                bytes,
                site,
                auth,
                phrase,
                seed_hash,
            ),
{
}

/// The seed phrase that was handed out resets the password: a request that comes
/// with it, and with a new password of eight characters, is asked for the digest
/// that is kept of the phrase. No other digest will do.
pub proof fn law_seed_phrase_recovers(
    phrase: Seq<char>,
    seed_salt: Seq<u8>,
    seed_digest: Seq<char>,
    body: Seq<char>,
)
    requires
        is_seed_phrase(phrase),
        hex_text(seed_digest),
        seed_digest.len() > 0,
        small(string_field(body, "seedPhrase"@)) == phrase,
        string_field(body, "newPassword"@).len() >= 8,
    ensures
        ({
            let record = auth_record(hex(seed_salt), seed_digest);
            &&& recovery_step(
                body,
                seed_phrase_in(string_field(body, "seedPhrase"@)),
                record,
            ) == PasswordStepView::Digest(salted(hex(seed_salt), phrase))
            &&& forall|d: Seq<char>| digest_accepted(record, d) <==> d == seed_digest
        }),
{
    let given = string_field(body, "seedPhrase"@);
    lemma_hex(seed_salt);
    law_password_round_trip(hex(seed_salt), seed_digest, phrase);
    law_seed_phrase_is_read(phrase, given);
    if given.len() == 0 {
        assert(small(given).len() == 0);
        assert(words(phrase).len() == 0);
    }
}

/// What is kept of a seed phrase does not hold the phrase.
pub proof fn law_seed_phrase_is_not_kept(
    phrase: Seq<char>,
    seed_salt: Seq<u8>,
    seed_digest: Seq<char>,
)
    requires
        is_seed_phrase(phrase),
        hex_text(seed_digest),
    ensures
        !occurs(auth_record(hex(seed_salt), seed_digest), phrase),
{
    let record = auth_record(hex(seed_salt), seed_digest);
    lemma_hex(seed_salt);
    lemma_seed_phrase_has_space(phrase);
    let k = choose|k: int| 0 <= k < phrase.len() && phrase[k] == ' ';
    reveal_strlit("sha256:");
    assert forall|i: int| 0 <= i < record.len() implies record[i] != ' ' by {
        let salt = hex(seed_salt);
        if i < 7 {
            assert(record[i] == "sha256:"@[i]);
        } else if i < 7 + salt.len() {
            assert(is_lower_hex(salt[i - 7]));
        } else if i > 7 + salt.len() {
            assert(is_lower_hex(seed_digest[i - 8 - salt.len()]));
        }
    }
    lemma_find_from(record, phrase, 0);
    match find(record, phrase) {
        Some(p) => {
            assert(record.subrange(p, p + phrase.len())[k] == record[p + k]);
        },
        None => {},
    }
}

/// A seed phrase is made once: after it was handed out, another one is refused.
pub proof fn law_seed_phrase_is_made_once(
    state: StateView,
    seed_salt: Seq<u8>,
    seed_digest: Seq<char>,
)
    ensures
        seed_refusal(
            StateView { seed_hash: auth_record(hex(seed_salt), seed_digest), ..state },
        ) is Some,
{
    reveal_strlit("sha256:");
}

/// What a node was set up with survives a restart: the state that is read from
/// the state file agrees with the state in which the node was set up. The settings
/// that are made later are not kept then; where they are empty, the file and the
/// state are in step.
pub proof fn law_set_up_survives(state: StateView, ss: SessionSeq)
    requires
        !state.node_name.contains('\n'),
        !state.unyt_agent_id.contains('\n'),
        !state.wt_suffix.contains('\n'),
        !state.seed_hash.contains('\n'),
        state.node_name.len() > 0 ==> state.node_name.last() != '\r',
        state.unyt_agent_id.len() > 0 ==> state.unyt_agent_id.last() != '\r',
        state.wt_suffix.len() > 0 ==> state.wt_suffix.last() != '\r',
        state.seed_hash.len() > 0 ==> state.seed_hash.last() != '\r',
        state.hw_mode == WIND_TUNNEL@ || state.hw_mode == STANDARD@,
    ensures
        ({
            let s = state_of(state.ap_mode, pairs_of_text(text_of_pairs(submit_pairs(state))), ss);
            &&& s.onboarded
            &&& s.node_name == state.node_name
            &&& s.hw_mode == state.hw_mode
            &&& s.unyt_agent_id == state.unyt_agent_id
            &&& s.wt_suffix == state.wt_suffix
            &&& s.seed_hash == state.seed_hash
        }),
        state.onboarded && state.log_sender_endpoint.len() == 0 && state.wt_image_override.len()
            == 0 && state.wt_entrypoint_bind.len() == 0 ==> in_step(
            StateView { sessions: ss, ..state },
            text_of_pairs(submit_pairs(state)),
        ),
{
    let p = submit_pairs(state);
    reveal_strlit("onboarded");
    reveal_strlit("node_name");
    reveal_strlit("hw_mode");
    reveal_strlit("unyt_agent_id");
    reveal_strlit("wt_suffix");
    reveal_strlit("seed_hash");
    reveal_strlit("true");
    reveal_strlit("WIND_TUNNEL");
    reveal_strlit("STANDARD");
    assert(p[0].0[0] == 'o');
    assert(p[1].0[0] == 'n');
    assert(p[2].0[0] == 'h');
    assert(p[3].0[0] == 'u');
    assert(p[4].0[0] == 'w');
    assert(p[5].0[0] == 's');
    lemma_trim_id(p[0].0);
    lemma_trim_id(p[1].0);
    lemma_trim_id(p[2].0);
    lemma_trim_id(p[3].0);
    lemma_trim_id(p[4].0);
    lemma_trim_id(p[5].0);
    assert(storable(p[0].0, p[0].1));
    assert(storable(p[1].0, p[1].1));
    assert(storable(p[2].0, p[2].1));
    assert(storable(p[3].0, p[3].1));
    assert(storable(p[4].0, p[4].1));
    assert(storable(p[5].0, p[5].1));
    assert(distinct(p));
    law_state_file_round_trip(p);
    lemma_position(p, "onboarded"@, 0);
    lemma_position(p, "node_name"@, 0);
    lemma_position(p, "hw_mode"@, 0);
    lemma_position(p, "unyt_agent_id"@, 0);
    lemma_position(p, "wt_suffix"@, 0);
    lemma_position(p, "seed_hash"@, 0);
    if state.onboarded && state.log_sender_endpoint.len() == 0 && state.wt_image_override.len() == 0
        && state.wt_entrypoint_bind.len() == 0 {
        lemma_setting_names();
        lemma_position(p, "log_sender_endpoint"@, 0);
        lemma_position(p, "wt_image_override"@, 0);
        lemma_position(p, "wt_entrypoint_bind"@, 0);
        assert(state.log_sender_endpoint =~= Seq::empty());
        assert(state.wt_image_override =~= Seq::empty());
        assert(state.wt_entrypoint_bind =~= Seq::empty());
    }
}

} // verus!
