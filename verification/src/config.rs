//! The settings of a node: what may be entered and what follows from it.
use vstd::prelude::*;
use vstd::utf8::*;

use crate::number::{dec, push_dec};
use crate::split::{trim, trimmed};
use crate::state::{AppState, StateView};
use crate::text::{
    begins_with, byte_count, byte_len, chars_of, find_any, in_set, index_of_any, opt, opt_str,
    starts_with, string_of,
};

verus! {

/// The longest name a host of the network may have.
pub const WT_HOSTNAME_MAX: usize = 63;

/// The length of the random suffix of a client name.
pub const WT_RANDOM_SUFFIX_LEN: usize = 16;

/// The environment variable that overrides the Wind Tunnel image.
pub const WT_IMAGE_ENV: &'static str = "WIND_TUNNEL_IMAGE";

/// The environment variable that overrides the Wind Tunnel entrypoint.
pub const WT_ENTRYPOINT_ENV: &'static str = "WIND_TUNNEL_ENTRYPOINT_BIND";

// ---------------------------------------------------------------------------
// Classes of characters
// ---------------------------------------------------------------------------

/// An ASCII letter or digit.
pub open spec fn is_alnum(c: char) -> bool {
    'a' <= c <= 'z' || 'A' <= c <= 'Z' || '0' <= c <= '9'
}

/// Whether `c` is an ASCII letter or digit.
pub fn alnum(c: char) -> (r: bool)
    ensures
        r == is_alnum(c),
{
    ('a' <= c && c <= 'z') || ('A' <= c && c <= 'Z') || ('0' <= c && c <= '9')
}

/// Every character is an ASCII letter or digit or one of `more`.
pub open spec fn alnum_or(s: Seq<char>, more: Seq<char>) -> bool {
    forall|i: int| 0 <= i < s.len() ==> is_alnum(#[trigger] s[i]) || more.contains(s[i])
}

/// Every character is a lowercase ASCII letter, a digit or a hyphen.
pub open spec fn is_slug(s: Seq<char>) -> bool {
    forall|i: int|
        0 <= i < s.len() ==> ('a' <= #[trigger] s[i] <= 'z' || '0' <= s[i] <= '9' || s[i] == '-')
}

/// Whether every character is an ASCII letter or digit or one of `more`.
fn all_alnum_or(s: &[char], more: &str) -> (r: bool)
    ensures
        r == alnum_or(s@, more@),
{
    let mut i: usize = 0;
    while i < s.len()
        invariant
            i <= s@.len(),
            forall|j: int| 0 <= j < i ==> is_alnum(#[trigger] s@[j]) || more@.contains(s@[j]),
        decreases s@.len() - i,
    {
        if !(alnum(s[i]) || in_set(more, s[i])) {
            return false;
        }
        i += 1;
    }
    true
}

/// Whether every character is a lowercase ASCII letter, a digit or a hyphen.
fn slug(s: &[char]) -> (r: bool)
    ensures
        r == is_slug(s@),
{
    let mut i: usize = 0;
    while i < s.len()
        invariant
            i <= s@.len(),
            forall|j: int|
                0 <= j < i ==> ('a' <= #[trigger] s@[j] <= 'z' || '0' <= s@[j] <= '9' || s@[j]
                    == '-'),
        decreases s@.len() - i,
    {
        let c = s[i];
        if !(('a' <= c && c <= 'z') || ('0' <= c && c <= '9') || c == '-') {
            return false;
        }
        i += 1;
    }
    true
}

// ---------------------------------------------------------------------------
// Names
// ---------------------------------------------------------------------------

/// What is wrong with a Unyt Agent ID; white space at its ends does not count,
/// and an empty one is in order.
pub open spec fn agent_id_error(agent_id: Seq<char>) -> Option<Seq<char>> {
    let id = trim(agent_id);
    if id.len() == 0 {
        None
    } else if id[0] == '-' || id.last() == '-' {
        Some("Unyt Agent ID cannot start or end with a hyphen."@)
    } else if !alnum_or(id, "-"@) {
        Some("Unyt Agent ID may only contain letters, numbers, and hyphens."@)
    } else {
        None
    }
}

/// What is wrong with a Unyt Agent ID.
pub fn validate_unyt_agent_id(agent_id: &str) -> (r: Option<String>)
    ensures
        opt(r) == agent_id_error(agent_id@),
{
    let a = chars_of(agent_id);
    let id = trimmed(a.as_slice());
    if id.len() == 0 {
        return None;
    }
    if id[0] == '-' || id[id.len() - 1] == '-' {
        return Some("Unyt Agent ID cannot start or end with a hyphen.".to_owned());
    }
    if !all_alnum_or(id, "-") {
        return Some("Unyt Agent ID may only contain letters, numbers, and hyphens.".to_owned());
    }
    None
}

/// What is wrong with a node name.
pub open spec fn node_name_error(node_name: Seq<char>) -> Option<Seq<char>> {
    if node_name.len() == 0 {
        Some("Node name is required."@)
    } else if !is_slug(node_name) {
        Some("Node name must be lowercase letters, numbers and hyphens only."@)
    } else {
        None
    }
}

/// What is wrong with a node name.
pub fn validate_node_name(node_name: &str) -> (r: Option<String>)
    ensures
        opt(r) == node_name_error(node_name@),
{
    let n = chars_of(node_name);
    if n.len() == 0 {
        return Some("Node name is required.".to_owned());
    }
    if !slug(n.as_slice()) {
        return Some("Node name must be lowercase letters, numbers and hyphens only.".to_owned());
    }
    None
}

/// The host name under which a node joins the Wind Tunnel.
pub open spec fn wt_hostname(node_name: Seq<char>) -> Seq<char> {
    "nomad-client-"@ + node_name
}

/// The host name under which a node joins the Wind Tunnel.
pub fn build_wt_hostname(node_name: &str) -> (r: String)
    ensures
        r@ == wt_hostname(node_name@),
{
    let mut out = String::new();
    out.append("nomad-client-");
    out.append(node_name);
    assert(out@ =~= wt_hostname(node_name@));
    out
}

/// The name under which a node is tracked: the node name with the Agent ID, or
/// with a random suffix where there is none.
pub open spec fn wt_client_name(
    node_name: Seq<char>,
    agent_id: Seq<char>,
    suffix: Seq<char>,
) -> Seq<char> {
    if trim(agent_id).len() == 0 {
        node_name + seq!['-'] + suffix
    } else {
        node_name + seq!['-'] + trim(agent_id)
    }
}

/// The name under which a node is tracked.
pub fn build_wt_client_name(node_name: &str, unyt_agent_id: &str, wt_suffix: &str) -> (r: String)
    ensures
        r@ == wt_client_name(node_name@, unyt_agent_id@, wt_suffix@),
{
    let a = chars_of(unyt_agent_id);
    let agent = trimmed(a.as_slice());
    let mut out = String::new();
    out.append(node_name);
    out.push('-');
    if agent.len() == 0 {
        out.append(wt_suffix);
    } else {
        out.append(string_of(agent).as_str());
    }
    assert(out@ =~= wt_client_name(node_name@, unyt_agent_id@, wt_suffix@));
    out
}

/// What the client name takes beside the node name, in bytes.
pub open spec fn client_name_overhead(agent_id: Seq<char>) -> nat {
    if trim(agent_id).len() == 0 {
        1 + WT_RANDOM_SUFFIX_LEN as nat
    } else {
        1 + byte_len(trim(agent_id))
    }
}

/// The complaint about a client name that is too long.
pub open spec fn client_name_too_long(agent_id: Seq<char>) -> Seq<char> {
    let overhead = client_name_overhead(agent_id);
    "Wind Tunnel client name would exceed "@ + dec(WT_HOSTNAME_MAX as nat)
        + " characters (node name + "@ + (if trim(agent_id).len() == 0 {
        "random tracking suffix"@
    } else {
        "full Agent ID"@
    }) + "). Shorten node name to at most "@ + dec(
        if overhead > WT_HOSTNAME_MAX {
            0
        } else {
            (WT_HOSTNAME_MAX - overhead) as nat
        },
    ) + " characters."@
}

/// What is wrong with an Agent ID, or with the length of the client name that it
/// makes with a node name.
pub open spec fn client_name_error(node_name: Seq<char>, agent_id: Seq<char>) -> Option<Seq<char>> {
    match agent_id_error(agent_id) {
        Some(msg) => Some(msg),
        None => if byte_len(node_name) + client_name_overhead(agent_id) <= WT_HOSTNAME_MAX {
            None
        } else {
            Some(client_name_too_long(agent_id))
        },
    }
}

/// What is wrong with an Agent ID, or with the length of the client name that it
/// makes with a node name.
pub fn wt_client_name_error(node_name: &str, unyt_agent_id: &str) -> (r: Option<String>)
    ensures
        opt(r) == client_name_error(node_name@, unyt_agent_id@),
{
    match validate_unyt_agent_id(unyt_agent_id) {
        Some(msg) => return Some(msg),
        None => {},
    }
    let a = chars_of(unyt_agent_id);
    let agent = trimmed(a.as_slice());
    let overhead: u128 = if agent.len() == 0 {
        1 + WT_RANDOM_SUFFIX_LEN as u128
    } else {
        1 + byte_count(string_of(agent).as_str()) as u128
    };
    let max: u128 = WT_HOSTNAME_MAX as u128;
    if byte_count(node_name) as u128 + overhead <= max {
        return None;
    }
    let max_name: u128 = if overhead > max {
        0
    } else {
        max - overhead
    };
    let mut out = String::new();
    out.append("Wind Tunnel client name would exceed ");
    push_dec(&mut out, max);
    out.append(" characters (node name + ");
    if agent.len() == 0 {
        out.append("random tracking suffix");
    } else {
        out.append("full Agent ID");
    }
    out.append("). Shorten node name to at most ");
    push_dec(&mut out, max_name);
    out.append(" characters.");
    assert(out@ =~= client_name_too_long(unyt_agent_id@));
    Some(out)
}

/// The complaint about a node name that makes too long a host name.
pub open spec fn hostname_too_long() -> Seq<char> {
    "Wind Tunnel hostname would exceed "@ + dec(WT_HOSTNAME_MAX as nat)
        + " characters. Shorten node name to at most "@ + dec(50) + " characters."@
}

/// What is wrong with the length of the host name that a node name makes.
pub open spec fn hostname_error(node_name: Seq<char>) -> Option<Seq<char>> {
    if byte_len(wt_hostname(node_name)) <= WT_HOSTNAME_MAX {
        None
    } else {
        Some(hostname_too_long())
    }
}

/// What is wrong with the length of the host name that a node name makes: it may
/// have 63 characters, which leaves 50 for the node name.
pub fn wt_hostname_error(node_name: &str) -> (r: Option<String>)
    ensures
        opt(r) == hostname_error(node_name@),
{
    let hostname = build_wt_hostname(node_name);
    if byte_count(hostname.as_str()) <= WT_HOSTNAME_MAX {
        return None;
    }
    let mut out = String::new();
    out.append("Wind Tunnel hostname would exceed ");
    push_dec(&mut out, WT_HOSTNAME_MAX as u128);
    out.append(" characters. Shorten node name to at most ");
    push_dec(&mut out, 50);
    out.append(" characters.");
    assert(out@ =~= hostname_too_long());
    Some(out)
}

// ---------------------------------------------------------------------------
// Images, entrypoints and addresses
// ---------------------------------------------------------------------------

/// What is wrong with an image that overrides the default one.
pub open spec fn image_error(image: Seq<char>) -> Option<Seq<char>> {
    let image = trim(image);
    if image.len() == 0 {
        None
    } else if find_any(image, ";|`$\n "@) is Some {
        Some("Image override contains invalid characters."@)
    } else if find_any(image, ":"@) is None {
        Some("Image override must include a tag (e.g. registry/image:tag)."@)
    } else if !alnum_or(image, "/:._-@"@) {
        Some("Image override has invalid characters."@)
    } else {
        None
    }
}

/// What is wrong with an image that overrides the default one.
pub fn validate_wt_image_override(image: &str) -> (r: Option<String>)
    ensures
        opt(r) == image_error(image@),
{
    let i = chars_of(image);
    let img = trimmed(i.as_slice());
    if img.len() == 0 {
        return None;
    }
    if index_of_any(img, ";|`$\n ").is_some() {
        return Some("Image override contains invalid characters.".to_owned());
    }
    if index_of_any(img, ":").is_none() {
        return Some("Image override must include a tag (e.g. registry/image:tag).".to_owned());
    }
    if !all_alnum_or(img, "/:._-@") {
        return Some("Image override has invalid characters.".to_owned());
    }
    None
}

/// What stands at a path.
#[derive(Clone, Copy, Debug, PartialEq, Eq)]
pub enum PathKind {
    /// Nothing that can be looked at.
    Missing,
    /// A regular file.
    File,
    /// Something else.
    Other,
}

/// The path that has to be looked at before an entrypoint is accepted: one under
/// the home directory.
pub open spec fn entrypoint_path(path: Seq<char>) -> Option<Seq<char>> {
    if trim(path).len() > 0 && starts_with(trim(path), "/home/holo/"@) {
        Some(trim(path))
    } else {
        None
    }
}

/// What is wrong with an entrypoint, given what stands at its path.
pub open spec fn entrypoint_error(path: Seq<char>, found: PathKind) -> Option<Seq<char>> {
    let path = trim(path);
    if path.len() == 0 {
        None
    } else if !starts_with(path, "/home/holo/"@) {
        Some("Entrypoint bind must be under /home/holo/."@)
    } else {
        match found {
            PathKind::Missing => Some("Entrypoint file not found: "@ + path),
            PathKind::Other => Some("Entrypoint bind must point to a regular file."@),
            PathKind::File => None,
        }
    }
}

/// The path that has to be looked at before an entrypoint is accepted.
pub fn entrypoint_to_look_at(path: &str) -> (r: Option<String>)
    ensures
        opt(r) == entrypoint_path(path@),
{
    let p = chars_of(path);
    let t = trimmed(p.as_slice());
    let home = chars_of("/home/holo/");
    if t.len() > 0 && begins_with(t, home.as_slice()) {
        Some(string_of(t))
    } else {
        None
    }
}

/// What is wrong with an entrypoint, given what stands at its path.
pub fn validate_wt_entrypoint_bind(path: &str, found: PathKind) -> (r: Option<String>)
    ensures
        opt(r) == entrypoint_error(path@, found),
{
    let p = chars_of(path);
    let t = trimmed(p.as_slice());
    if t.len() == 0 {
        return None;
    }
    let home = chars_of("/home/holo/");
    if !begins_with(t, home.as_slice()) {
        return Some("Entrypoint bind must be under /home/holo/.".to_owned());
    }
    match found {
        PathKind::Missing => {
            let mut out = "Entrypoint file not found: ".to_owned();
            out.append(string_of(t).as_str());
            Some(out)
        },
        PathKind::Other => Some("Entrypoint bind must point to a regular file.".to_owned()),
        PathKind::File => None,
    }
}

/// What is wrong with the address of a log collector.
pub open spec fn endpoint_error(url: Seq<char>) -> Option<Seq<char>> {
    let url = trim(url);
    if url.len() == 0 {
        None
    } else if !starts_with(url, "http://"@) && !starts_with(url, "https://"@) {
        Some("Log Collector URL must start with http:// or https://"@)
    } else if find_any(url, " \n\"'"@) is Some {
        Some("Log Collector URL contains invalid characters."@)
    } else {
        None
    }
}

/// What is wrong with the address of a log collector.
pub fn validate_log_sender_endpoint(url: &str) -> (r: Option<String>)
    ensures
        opt(r) == endpoint_error(url@),
{
    let u = chars_of(url);
    let t = trimmed(u.as_slice());
    if t.len() == 0 {
        return None;
    }
    let plain = chars_of("http://");
    let secure = chars_of("https://");
    if !(begins_with(t, plain.as_slice()) || begins_with(t, secure.as_slice())) {
        return Some("Log Collector URL must start with http:// or https://".to_owned());
    }
    if index_of_any(t, " \n\"'").is_some() {
        return Some("Log Collector URL contains invalid characters.".to_owned());
    }
    None
}

// ---------------------------------------------------------------------------
// Overrides
// ---------------------------------------------------------------------------

/// A setting that a value from the state, or else one from the environment,
/// overrides; neither counts where it is blank.
pub open spec fn override_of(from_state: Seq<char>, from_env: Option<Seq<char>>) -> Option<
    Seq<char>,
> {
    if trim(from_state).len() > 0 {
        Some(trim(from_state))
    } else {
        match from_env {
            Some(e) if trim(e).len() > 0 => Some(trim(e)),
            _ => None,
        }
    }
}

/// A setting that a value from the state, or else one from the environment,
/// overrides.
fn pick_override(from_state: &str, from_env: Option<&str>) -> (r: Option<String>)
    ensures
        opt(r) == override_of(from_state@, opt_str(from_env)),
{
    let s = chars_of(from_state);
    let t = trimmed(s.as_slice());
    if t.len() > 0 {
        return Some(string_of(t));
    }
    match from_env {
        None => None,
        Some(text) => {
            let e = chars_of(text);
            let t = trimmed(e.as_slice());
            if t.len() > 0 {
                Some(string_of(t))
            } else {
                None
            }
        },
    }
}

/// The image that overrides the default one, if any, given the value of the
/// environment variable.
pub fn resolve_wt_image_override(state: &AppState, env: Option<&str>) -> (r: Option<String>)
    ensures
        opt(r) == override_of(state@.wt_image_override, opt_str(env)),
{
    pick_override(state.wt_image_override.as_str(), env)
}

/// The entrypoint that overrides the default one, if any, given the value of the
/// environment variable.
pub fn resolve_wt_entrypoint_bind(state: &AppState, env: Option<&str>) -> (r: Option<String>)
    ensures
        opt(r) == override_of(state@.wt_entrypoint_bind, opt_str(env)),
{
    pick_override(state.wt_entrypoint_bind.as_str(), env)
}

/// How the Wind Tunnel container is run.
#[derive(Debug, PartialEq, Eq)]
pub struct WindTunnelConfig {
    pub hostname: String,
    pub image: String,
    pub entrypoint_bind: Option<String>,
}

/// The configuration with its texts as sequences of characters.
pub struct WindTunnelView {
    pub hostname: Seq<char>,
    pub image: Seq<char>,
    pub entrypoint_bind: Option<Seq<char>>,
}

impl View for WindTunnelConfig {
    type V = WindTunnelView;

    open spec fn view(&self) -> WindTunnelView {
        WindTunnelView {
            hostname: self.hostname@,
            image: self.image@,
            entrypoint_bind: opt(self.entrypoint_bind),
        }
    }
}

/// How the Wind Tunnel container is run in a state, given the environment and
/// the image that counts where none overrides it.
pub open spec fn wind_tunnel_config(
    state: StateView,
    image_env: Option<Seq<char>>,
    entrypoint_env: Option<Seq<char>>,
    default_image: Seq<char>,
) -> WindTunnelView {
    WindTunnelView {
        hostname: wt_hostname(state.node_name),
        image: match override_of(state.wt_image_override, image_env) {
            Some(image) => image,
            None => default_image,
        },
        entrypoint_bind: override_of(state.wt_entrypoint_bind, entrypoint_env),
    }
}

/// How the Wind Tunnel container is run, given the environment and the image
/// that counts where none overrides it.
pub fn resolve_wind_tunnel_config(
    state: &AppState,
    image_env: Option<&str>,
    entrypoint_env: Option<&str>,
    default_image: &str,
) -> (r: WindTunnelConfig)
    ensures
        r@ == wind_tunnel_config(
            state@,
            opt_str(image_env),
            opt_str(entrypoint_env),
            default_image@,
        ),
{
    let image = match resolve_wt_image_override(state, image_env) {
        Some(image) => image,
        None => default_image.to_owned(),
    };
    WindTunnelConfig {
        hostname: build_wt_hostname(state.node_name.as_str()),
        image,
        entrypoint_bind: resolve_wt_entrypoint_bind(state, entrypoint_env),
    }
}

// ---------------------------------------------------------------------------
// What accepted settings guarantee
// ---------------------------------------------------------------------------

proof fn lemma_byte_len_concat(a: Seq<char>, b: Seq<char>)
    ensures
        byte_len(a + b) == byte_len(a) + byte_len(b),
    decreases a.len(),
{
    if a.len() == 0 {
        assert(a + b =~= b);
    } else {
        assert((a + b).drop_first() =~= a.drop_first() + b);
        lemma_byte_len_concat(a.drop_first(), b);
    }
}

proof fn lemma_byte_len_ascii(s: Seq<char>)
    requires
        is_ascii_chars(s),
    ensures
        byte_len(s) == s.len(),
{
    is_ascii_chars_encode_utf8(s);
}

/// A node name that is accepted makes a host name of at most 63 bytes, and it is
/// accepted exactly where it has at most 50; the Agent ID plays no part.
pub proof fn law_hostname_fits(node_name: Seq<char>)
    ensures
        hostname_error(node_name) is None <==> byte_len(wt_hostname(node_name)) <= 63,
        hostname_error(node_name) is None <==> byte_len(node_name) <= 50,
{
    let prefix = "nomad-client-"@;
    reveal_strlit("nomad-client-");
    assert(is_ascii_chars(prefix));
    lemma_byte_len_ascii(prefix);
    lemma_byte_len_concat(prefix, node_name);
}

/// A node name and an Agent ID that are accepted together make a client name of
/// at most 63 bytes, with a random suffix of the usual length where the Agent ID
/// is blank.
pub proof fn law_client_name_fits(
    node_name: Seq<char>,
    agent_id: Seq<char>,
    suffix: Seq<char>,
)
    requires
        client_name_error(node_name, agent_id) is None,
        byte_len(suffix) == WT_RANDOM_SUFFIX_LEN,
    ensures
        byte_len(wt_client_name(node_name, agent_id, suffix)) <= 63,
{
    let sep = seq!['-'];
    assert(is_ascii_chars(sep));
    lemma_byte_len_ascii(sep);
    lemma_byte_len_concat(node_name, sep);
    lemma_byte_len_concat(node_name + sep, suffix);
    lemma_byte_len_concat(node_name + sep, trim(agent_id));
}

} // verus!
