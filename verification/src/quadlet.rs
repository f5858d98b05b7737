//! The container services: their unit files and which of them runs.
use vstd::prelude::*;

use crate::auth::random_hex;
use crate::config::{
    resolve_wind_tunnel_config, wind_tunnel_config, WindTunnelConfig, WindTunnelView,
};
use crate::effects::{
    add_all, effects, keep_file, kept_file, no_effects, push_effect, remove, restart_if_active,
    run2, run4, write_file, Effect, EffectView,
};
use crate::escape::{escaped, json_escape, Escape};
use crate::number::hex;
use crate::split::{trim, trimmed};
use crate::state::{key_updated, update_state_key, AppState, StateView, STANDARD, WIND_TUNNEL};
use crate::text::{chars_of, lemma_occurs, occurs, opt, opt_str, same, string_of};

verus! {

/// Where the container runtime looks for unit files.
pub const QUADLET_DIR: &'static str = "/etc/containers/systemd";

/// The unit file of the ordinary container.
pub const EDGENODE_UNIT: &'static str = "/etc/containers/systemd/edgenode.container";

/// The unit file of the container that tests the network.
pub const WIND_TUNNEL_UNIT: &'static str = "/etc/containers/systemd/wind-tunnel.container";

/// What the network test learns about the node.
pub const WIND_TUNNEL_CLIENT_META: &'static str = "/etc/node-manager/client-meta.json";

/// A file of variables that no container reads any more; it is removed.
pub const WIND_TUNNEL_LEGACY_ENV: &'static str = "/etc/node-manager/wind-tunnel.env";

/// The file that tells the node's mode to the container.
pub const MODE_SWITCH: &'static str = "/var/lib/edgenode/mode_switch.txt";

/// How many random bytes the suffix of a client name takes.
pub const SUFFIX_BYTES: usize = 8;

/// The service of the ordinary container.
pub const EDGENODE_SERVICE: &'static str = "edgenode.service";

/// The service of the container that tests the network.
pub const WIND_TUNNEL_SERVICE: &'static str = "wind-tunnel.service";

// ---------------------------------------------------------------------------
// Unit files
// ---------------------------------------------------------------------------

/// A line that sets a variable, where there is a value to set.
pub open spec fn env_line(head: Seq<char>, value: Seq<char>) -> Seq<char> {
    if trim(value).len() == 0 {
        Seq::empty()
    } else {
        head + trim(value) + "\n"@
    }
}

/// The unit file of the ordinary container.
pub open spec fn edgenode_quadlet(image: Seq<char>, endpoint: Seq<char>, agent: Seq<char>) -> Seq<
    char,
> {
    "[Unit]\nDescription=Holo EdgeNode\nAfter=network-online.target\n"@ + "Conflicts=wind-tunnel.service"@
        + "\n\n[Container]\nImage="@
        + image + "\nContainerName=edgenode\nVolume=/var/lib/edgenode:/data:Z\n"@ + env_line(
        "Environment=LOG_SENDER_ENDPOINT="@,
        endpoint,
    ) + env_line("Environment=LOG_SENDER_UNYT_PUB_KEY="@, agent)
        + "Label=io.containers.autoupdate=registry\n\n[Service]\nRestart=always\nRestartSec=5\n\n[Install]\nWantedBy=multi-user.target\n"@
}

/// Adds a line that sets a variable, where there is a value to set.
fn push_env_line(out: &mut String, head: &str, value: &str)
    ensures
        final(out)@ == old(out)@ + env_line(head@, value@),
{
    let v = chars_of(value);
    let t = trimmed(v.as_slice());
    if t.len() > 0 {
        out.append(head);
        out.append(string_of(t).as_str());
        out.append("\n");
    }
    assert(out@ =~= old(out)@ + env_line(head@, value@));
}

/// The unit file of the ordinary container.
pub fn build_edgenode_quadlet(image: &str, log_sender_endpoint: &str, unyt_agent_id: &str) -> (r:
    String)
    ensures
        r@ == edgenode_quadlet(image@, log_sender_endpoint@, unyt_agent_id@),
{
    let mut out = String::new();
    out.append(
        "[Unit]\nDescription=Holo EdgeNode\nAfter=network-online.target\n",
    );
    out.append("Conflicts=wind-tunnel.service");
    out.append("\n\n[Container]\nImage=");
    out.append(image);
    out.append("\nContainerName=edgenode\nVolume=/var/lib/edgenode:/data:Z\n");
    push_env_line(&mut out, "Environment=LOG_SENDER_ENDPOINT=", log_sender_endpoint);
    push_env_line(&mut out, "Environment=LOG_SENDER_UNYT_PUB_KEY=", unyt_agent_id);
    out.append(
        "Label=io.containers.autoupdate=registry\n\n[Service]\nRestart=always\nRestartSec=5\n\n[Install]\nWantedBy=multi-user.target\n",
    );
    assert(out@ =~= edgenode_quadlet(image@, log_sender_endpoint@, unyt_agent_id@));
    out
}

/// The line that mounts an entrypoint, where there is one.
pub open spec fn entrypoint_line(path: Option<Seq<char>>) -> Seq<char> {
    match path {
        Some(p) => "Volume="@ + p + ":/entrypoint.sh:ro,Z\n"@,
        None => Seq::empty(),
    }
}

/// The unit file of the container that tests the network.
pub open spec fn wind_tunnel_quadlet(cfg: WindTunnelView) -> Seq<char> {
    "[Unit]\nDescription=Holochain Wind Tunnel Runner\nAfter=network-online.target\n"@ + "Conflicts=edgenode.service"@
        + "\n\n[Container]\nImage="@
        + cfg.image + "\nContainerName=wind-tunnel\nHostName="@ + cfg.hostname
        + "\nNetwork=host\nVolume="@ + WIND_TUNNEL_CLIENT_META@
        + ":/etc/nomad.d/client-meta.json:ro,Z\n"@ + entrypoint_line(cfg.entrypoint_bind)
        + "PodmanArgs=--cgroupns=host --privileged\nLabel=io.containers.autoupdate=registry\n\n[Service]\nRestart=always\nRestartSec=5\n\n[Install]\nWantedBy=multi-user.target\n"@
}

/// The unit file of the container that tests the network.
pub fn build_wind_tunnel_quadlet(hostname: &str, image: &str, entrypoint_bind: Option<&str>) -> (r:
    String)
    ensures
        r@ == wind_tunnel_quadlet(
            (WindTunnelView {
                hostname: hostname@,
                image: image@,
                entrypoint_bind: opt_str(entrypoint_bind),
            }),
        ),
{
    let mut out = String::new();
    out.append(
        "[Unit]\nDescription=Holochain Wind Tunnel Runner\nAfter=network-online.target\n",
    );
    out.append("Conflicts=edgenode.service");
    out.append("\n\n[Container]\nImage=");
    out.append(image);
    out.append("\nContainerName=wind-tunnel\nHostName=");
    out.append(hostname);
    out.append("\nNetwork=host\nVolume=");
    out.append(WIND_TUNNEL_CLIENT_META);
    out.append(":/etc/nomad.d/client-meta.json:ro,Z\n");
    match entrypoint_bind {
        Some(p) => {
            out.append("Volume=");
            out.append(p);
            out.append(":/entrypoint.sh:ro,Z\n");
        },
        None => {},
    }
    out.append(
        "PodmanArgs=--cgroupns=host --privileged\nLabel=io.containers.autoupdate=registry\n\n[Service]\nRestart=always\nRestartSec=5\n\n[Install]\nWantedBy=multi-user.target\n",
    );
    assert(out@ =~= wind_tunnel_quadlet(
        WindTunnelView {
            hostname: hostname@,
            image: image@,
            entrypoint_bind: opt_str(entrypoint_bind),
        },
    ));
    out
}

// ---------------------------------------------------------------------------
// The random suffix and the client's description
// ---------------------------------------------------------------------------

/// A random suffix, from random bytes.
pub fn generate_wt_suffix(bytes: &[u8]) -> (r: String)
    ensures
        r@ == hex(bytes@),
{
    random_hex(bytes)
}

/// The suffix of a node, made of random bytes where it has none yet.
pub open spec fn suffix_of(state: StateView, bytes: Seq<u8>) -> Seq<char> {
    if state.wt_suffix.len() > 0 {
        state.wt_suffix
    } else {
        hex(bytes)
    }
}

/// What keeping a new suffix takes, where the node has none yet.
pub open spec fn suffix_kept(state: StateView, bytes: Seq<u8>, state_file: Seq<char>) -> Seq<
    EffectView,
> {
    if state.wt_suffix.len() > 0 {
        Seq::empty()
    } else {
        key_updated(state_file, "wt_suffix"@, hex(bytes))
    }
}

/// The suffix of a node: the one it has, or one made of random bytes, which is
/// then kept in the state and in the state file with the given content.
pub fn ensure_wt_suffix(state: &mut AppState, bytes: &[u8], state_file: &str) -> (r: (
    String,
    Vec<Effect>,
))
    requires
        old(state).wf(),
    ensures
        final(state).wf(),
        r.0@ == suffix_of(old(state)@, bytes@),
        final(state)@ == (StateView { wt_suffix: suffix_of(old(state)@, bytes@), ..old(state)@ }),
        effects(r.1@) == suffix_kept(old(state)@, bytes@, state_file@),
{
    let existing = chars_of(state.wt_suffix.as_str());
    if existing.len() > 0 {
        return (string_of(existing.as_slice()), no_effects());
    }
    let suffix = generate_wt_suffix(bytes);
    let kept = update_state_key(state_file, "wt_suffix", suffix.as_str());
    state.wt_suffix = suffix.as_str().to_owned();
    (suffix, kept)
}

/// The description of the node that the network test reads.
pub open spec fn client_meta(agent_id: Seq<char>) -> Seq<char> {
    "{\n  \"client\": {\n    \"meta\": {\n      \"unyt_agent_id\": \""@ + escaped(
        trim(agent_id),
        Escape::Json,
    ) + "\"\n    }\n  }\n}\n"@
}

/// The effects of writing that description.
pub open spec fn client_meta_kept(agent_id: Seq<char>) -> Seq<EffectView> {
    kept_file(WIND_TUNNEL_CLIENT_META@, client_meta(agent_id)).push(
        EffectView::Remove(WIND_TUNNEL_LEGACY_ENV@),
    )
}

/// Writes the description of the node that the network test reads.
pub fn write_wind_tunnel_client_meta(unyt_agent_id: &str) -> (v: Vec<Effect>)
    ensures
        effects(v@) == client_meta_kept(unyt_agent_id@),
{
    let a = chars_of(unyt_agent_id);
    let t = string_of(trimmed(a.as_slice()));
    let mut text = String::new();
    text.append("{\n  \"client\": {\n    \"meta\": {\n      \"unyt_agent_id\": \"");
    text.append(json_escape(t.as_str()).as_str());
    text.append("\"\n    }\n  }\n}\n");
    assert(text@ =~= client_meta(unyt_agent_id@));
    let mut v = keep_file(WIND_TUNNEL_CLIENT_META, text.as_str());
    push_effect(&mut v, remove(WIND_TUNNEL_LEGACY_ENV));
    v
}

// ---------------------------------------------------------------------------
// Writing the unit files
// ---------------------------------------------------------------------------

/// What the node's surroundings say about its containers.
#[derive(Debug, PartialEq, Eq)]
pub struct Site {
    /// The environment variable that overrides the Wind Tunnel image.
    pub image_env: Option<String>,
    /// The environment variable that overrides the Wind Tunnel entrypoint.
    pub entrypoint_env: Option<String>,
    /// The Wind Tunnel image that counts where none overrides it.
    pub wind_tunnel_image: String,
    /// The image of the ordinary container.
    pub edgenode_image: String,
}

/// The surroundings with their texts as sequences of characters.
pub struct SiteView {
    pub image_env: Option<Seq<char>>,
    pub entrypoint_env: Option<Seq<char>>,
    pub wind_tunnel_image: Seq<char>,
    pub edgenode_image: Seq<char>,
}

impl View for Site {
    type V = SiteView;

    open spec fn view(&self) -> SiteView {
        SiteView {
            image_env: opt(self.image_env),
            entrypoint_env: opt(self.entrypoint_env),
            wind_tunnel_image: self.wind_tunnel_image@,
            edgenode_image: self.edgenode_image@,
        }
    }
}

/// How the Wind Tunnel container is run in a state and its surroundings.
pub open spec fn config_at(state: StateView, site: SiteView) -> WindTunnelView {
    wind_tunnel_config(state, site.image_env, site.entrypoint_env, site.wind_tunnel_image)
}

/// A text that may be missing, borrowed.
pub fn borrowed(s: &Option<String>) -> (r: Option<&str>)
    ensures
        opt_str(r) == opt(*s),
{
    match s {
        Some(t) => Some(t.as_str()),
        None => None,
    }
}

/// How the Wind Tunnel container is run in a state and its surroundings.
pub fn config_of(state: &AppState, site: &Site) -> (r: WindTunnelConfig)
    ensures
        r@ == config_at(state@, site@),
{
    resolve_wind_tunnel_config(
        state,
        borrowed(&site.image_env),
        borrowed(&site.entrypoint_env),
        site.wind_tunnel_image.as_str(),
    )
}

/// The effects of writing both unit files.
pub open spec fn quadlets_written(state: StateView, site: SiteView) -> Seq<EffectView> {
    client_meta_kept(state.unyt_agent_id) + seq![
        EffectView::Write(
            EDGENODE_UNIT@,
            edgenode_quadlet(site.edgenode_image, state.log_sender_endpoint, state.unyt_agent_id),
        ),
        EffectView::Write(WIND_TUNNEL_UNIT@, wind_tunnel_quadlet(config_at(state, site))),
        EffectView::Run(seq!["systemctl"@, "daemon-reload"@]),
    ]
}

/// Writes both unit files and has them read.
pub fn write_quadlets_from_state(state: &AppState, site: &Site) -> (v: Vec<Effect>)
    ensures
        effects(v@) == quadlets_written(state@, site@),
{
    let cfg = config_of(state, site);
    let mut v = write_wind_tunnel_client_meta(state.unyt_agent_id.as_str());
    let wt = build_wind_tunnel_quadlet(
        cfg.hostname.as_str(),
        cfg.image.as_str(),
        borrowed(&cfg.entrypoint_bind),
    );
    let edgenode = build_edgenode_quadlet(
        site.edgenode_image.as_str(),
        state.log_sender_endpoint.as_str(),
        state.unyt_agent_id.as_str(),
    );
    push_effect(&mut v, write_file(EDGENODE_UNIT, edgenode.as_str()));
    push_effect(&mut v, write_file(WIND_TUNNEL_UNIT, wt.as_str()));
    push_effect(&mut v, run2("systemctl", "daemon-reload"));
    assert(effects(v@) =~= quadlets_written(state@, site@));
    v
}

/// The effects of a change that concerns the Wind Tunnel container.
pub open spec fn wind_tunnel_applied(state: StateView, site: SiteView) -> Seq<EffectView> {
    if state.hw_mode == WIND_TUNNEL@ {
        quadlets_written(state, site).push(EffectView::RestartIfActive(WIND_TUNNEL_SERVICE@))
    } else {
        quadlets_written(state, site)
    }
}

/// Puts a change into force that concerns the Wind Tunnel container.
pub fn apply_wind_tunnel_config(state: &AppState, site: &Site) -> (v: Vec<Effect>)
    ensures
        effects(v@) == wind_tunnel_applied(state@, site@),
{
    let mut v = write_quadlets_from_state(state, site);
    if state.in_wind_tunnel() {
        push_effect(&mut v, restart_if_active(WIND_TUNNEL_SERVICE));
    }
    v
}

/// The effects of a change that concerns the ordinary container.
pub open spec fn edgenode_applied(state: StateView, site: SiteView) -> Seq<EffectView> {
    if state.hw_mode == WIND_TUNNEL@ {
        quadlets_written(state, site)
    } else {
        quadlets_written(state, site).push(EffectView::RestartIfActive(EDGENODE_SERVICE@))
    }
}

/// Puts a change into force that concerns the ordinary container.
pub fn apply_edgenode_config(state: &AppState, site: &Site) -> (v: Vec<Effect>)
    ensures
        effects(v@) == edgenode_applied(state@, site@),
{
    let mut v = write_quadlets_from_state(state, site);
    if !state.in_wind_tunnel() {
        push_effect(&mut v, restart_if_active(EDGENODE_SERVICE));
    }
    v
}

// ---------------------------------------------------------------------------
// Which service runs
// ---------------------------------------------------------------------------

/// The service that runs in a mode, and the one that does not.
pub open spec fn mode_services(mode: Seq<char>) -> (Seq<char>, Seq<char>) {
    if mode == WIND_TUNNEL@ {
        (WIND_TUNNEL_SERVICE@, EDGENODE_SERVICE@)
    } else {
        (EDGENODE_SERVICE@, WIND_TUNNEL_SERVICE@)
    }
}

/// The service that runs in a mode, and the one that does not.
pub fn container_services_for_mode(hw_mode: &str) -> (r: (&'static str, &'static str))
    ensures
        (r.0@, r.1@) == mode_services(hw_mode@),
{
    if same(hw_mode, WIND_TUNNEL) {
        (WIND_TUNNEL_SERVICE, EDGENODE_SERVICE)
    } else {
        (EDGENODE_SERVICE, WIND_TUNNEL_SERVICE)
    }
}

/// The effects of running the service of a mode: the other one is stopped first.
pub open spec fn services_synced(mode: Seq<char>) -> Seq<EffectView> {
    seq![
        EffectView::Run(seq!["systemctl"@, "disable"@, "--now"@, mode_services(mode).1]),
        EffectView::Run(seq!["systemctl"@, "enable"@, "--now"@, mode_services(mode).0]),
    ]
}

/// Runs the service of a mode and stops the other one first.
pub fn sync_container_services(hw_mode: &str) -> (v: Vec<Effect>)
    ensures
        effects(v@) == services_synced(hw_mode@),
{
    let (active, inactive) = container_services_for_mode(hw_mode);
    let v = vec![
        run4("systemctl", "disable", "--now", inactive),
        run4("systemctl", "enable", "--now", active),
    ];
    assert(effects(v@) =~= services_synced(hw_mode@));
    v
}

/// The mode that a word asks for: anything but the one word means the ordinary
/// mode.
pub open spec fn mode_asked(word: Seq<char>) -> Seq<char> {
    if word == WIND_TUNNEL@ {
        WIND_TUNNEL@
    } else {
        STANDARD@
    }
}

/// The mode that a word asks for.
pub fn asked_mode(word: &str) -> (r: &'static str)
    ensures
        r@ == mode_asked(word@),
{
    if same(word, WIND_TUNNEL) {
        WIND_TUNNEL
    } else {
        STANDARD
    }
}

/// The effects of switching a node to a mode; the services change only where the
/// mode does.
pub open spec fn mode_applied(
    state: StateView,
    mode: Seq<char>,
    site: SiteView,
    state_file: Seq<char>,
) -> Seq<EffectView> {
    seq![EffectView::Write(MODE_SWITCH@, mode)] + key_updated(state_file, "hw_mode"@, mode)
        + quadlets_written(StateView { hw_mode: mode, ..state }, site) + (if state.hw_mode == mode {
        Seq::<EffectView>::empty()
    } else {
        services_synced(mode)
    })
}

/// Switches a node to a mode, given the content of the state file.
pub fn apply_hardware_mode(
    new_mode: &str,
    state: &mut AppState,
    site: &Site,
    state_file: &str,
) -> (v: Vec<Effect>)
    requires
        old(state).wf(),
    ensures
        final(state).wf(),
        final(state)@ == (StateView { hw_mode: new_mode@, ..old(state)@ }),
        effects(v@) == mode_applied(old(state)@, new_mode@, site@, state_file@),
{
    let unchanged = same(state.hw_mode.as_str(), new_mode);
    let mut v = no_effects();
    push_effect(&mut v, write_file(MODE_SWITCH, new_mode));
    state.hw_mode = new_mode.to_owned();
    add_all(&mut v, update_state_key(state_file, "hw_mode", new_mode));
    add_all(&mut v, write_quadlets_from_state(state, site));
    if !unchanged {
        add_all(&mut v, sync_container_services(new_mode));
    }
    assert(effects(v@) =~= mode_applied(old(state)@, new_mode@, site@, state_file@));
    v
}

/// What is done at start for a node that has been set up.
pub fn start_services(state: &AppState, site: &Site) -> (v: Vec<Effect>)
    ensures
        effects(v@) == quadlets_written(state@, site@) + services_synced(state@.hw_mode),
{
    let mut v = write_quadlets_from_state(state, site);
    add_all(&mut v, sync_container_services(state.hw_mode.as_str()));
    v
}

// ---------------------------------------------------------------------------
// The services exclude each other
// ---------------------------------------------------------------------------

/// Of the two services, one runs in a mode and the other one does not; the other
/// one is stopped before the one starts.
pub proof fn law_one_service_runs(mode: Seq<char>)
    ensures
        mode_services(mode).0 != mode_services(mode).1,
        services_synced(mode) == seq![
            EffectView::Run(seq!["systemctl"@, "disable"@, "--now"@, mode_services(mode).1]),
            EffectView::Run(seq!["systemctl"@, "enable"@, "--now"@, mode_services(mode).0]),
        ],
{
    reveal_strlit("edgenode.service");
    reveal_strlit("wind-tunnel.service");
    assert(EDGENODE_SERVICE@.len() == 16);
    assert(WIND_TUNNEL_SERVICE@.len() == 19);
}

/// Each unit file declares that its service conflicts with the other one.
pub proof fn law_units_conflict(
    image: Seq<char>,
    endpoint: Seq<char>,
    agent: Seq<char>,
    cfg: WindTunnelView,
)
    ensures
        occurs(edgenode_quadlet(image, endpoint, agent), "Conflicts=wind-tunnel.service"@),
        occurs(wind_tunnel_quadlet(cfg), "Conflicts=edgenode.service"@),
{
    lemma_occurs(
        edgenode_quadlet(image, endpoint, agent),
        "[Unit]\nDescription=Holo EdgeNode\nAfter=network-online.target\n"@,
        "Conflicts=wind-tunnel.service"@,
    );
    lemma_occurs(
        wind_tunnel_quadlet(cfg),
        "[Unit]\nDescription=Holochain Wind Tunnel Runner\nAfter=network-online.target\n"@,
        "Conflicts=edgenode.service"@,
    );
}

} // verus!
