//! What holds of the unit files: what the settings of a node say stands in them.
use vstd::prelude::*;

use crate::config::{override_of, WindTunnelView};
use crate::deployment_laws::value_behind;
use crate::effects::EffectView;
use crate::escape::lemma_json_plain;
use crate::json::{
    after, lemma_after_quote, lemma_quoted_start, lemma_quoted_value, quoted, string_field,
};
use crate::quadlet::{
    client_meta, config_at, edgenode_quadlet, entrypoint_line, env_line, quadlets_written,
    wind_tunnel_quadlet, SiteView,
};
use crate::split::{lemma_split_once, trim, trim_start};
use crate::state::StateView;
use crate::text::{lemma_occurs, occurs};

verus! {

/// A line of its own stands in a text.
pub open spec fn has_line(text: Seq<char>, line: Seq<char>) -> bool {
    occurs(text, "\n"@ + line + "\n"@)
}

/// What stands between two texts stands in the whole.
pub proof fn lemma_in_text(before: Seq<char>, part: Seq<char>, behind: Seq<char>)
    ensures
        occurs(before + part + behind, part),
{
    let text = before + part + behind;
    assert forall|j: int| 0 <= j < part.len() implies text[before.len() + j]
        == #[trigger] part[j] by {}
    lemma_occurs(text, before, part);
}

/// A text with a line between two others has that line.
proof fn lemma_has_line(text: Seq<char>, before: Seq<char>, line: Seq<char>, behind: Seq<char>)
    requires
        text == before + "\n"@ + line + "\n"@ + behind,
    ensures
        has_line(text, line),
{
    let pat = "\n"@ + line + "\n"@;
    let split_text = before + pat + behind;
    assert(text =~= split_text);
    assert forall|j: int| 0 <= j < pat.len() implies text[before.len() + j]
        == #[trigger] pat[j] by {
        assert(split_text[before.len() + j] == pat[j]);
    }
    lemma_occurs(text, before, pat);
}

// ---------------------------------------------------------------------------
// The ordinary container
// ---------------------------------------------------------------------------

/// The unit file of the ordinary container runs an image under its name, with its
/// data, and tells it the log collector and the Agent ID where there are any.
pub open spec fn runs_edgenode(
    text: Seq<char>,
    image: Seq<char>,
    endpoint: Seq<char>,
    agent: Seq<char>,
) -> bool {
    &&& has_line(text, "Image="@ + image)
    &&& has_line(text, "ContainerName=edgenode"@)
    &&& has_line(text, "Volume=/var/lib/edgenode:/data:Z"@)
    &&& trim(endpoint).len() > 0 ==> has_line(
        text,
        "Environment=LOG_SENDER_ENDPOINT="@ + trim(endpoint),
    )
    &&& trim(agent).len() > 0 ==> has_line(
        text,
        "Environment=LOG_SENDER_UNYT_PUB_KEY="@ + trim(agent),
    )
}

#[verifier::spinoff_prover]
proof fn lemma_edgenode_lines(image: Seq<char>, endpoint: Seq<char>, agent: Seq<char>)
    ensures
        has_line(edgenode_quadlet(image, endpoint, agent), "Image="@ + image),
        has_line(edgenode_quadlet(image, endpoint, agent), "ContainerName=edgenode"@),
        has_line(edgenode_quadlet(image, endpoint, agent), "Volume=/var/lib/edgenode:/data:Z"@),
{
    let text = edgenode_quadlet(image, endpoint, agent);
    let head = "[Unit]\nDescription=Holo EdgeNode\nAfter=network-online.target\n"@
        + "Conflicts=wind-tunnel.service"@;
    let open = "\n\n[Container]\nImage="@;
    let name = "\nContainerName=edgenode\nVolume=/var/lib/edgenode:/data:Z\n"@;
    let env = env_line("Environment=LOG_SENDER_ENDPOINT="@, endpoint) + env_line(
        "Environment=LOG_SENDER_UNYT_PUB_KEY="@,
        agent,
    );
    let end =
        "Label=io.containers.autoupdate=registry\n\n[Service]\nRestart=always\nRestartSec=5\n\n[Install]\nWantedBy=multi-user.target\n"@;
    assert(text =~= head + open + image + name + (env + end));
    reveal_strlit("\n\n[Container]\nImage=");
    reveal_strlit("\nContainerName=edgenode\nVolume=/var/lib/edgenode:/data:Z\n");
    reveal_strlit("\n");
    reveal_strlit("Image=");
    reveal_strlit("ContainerName=edgenode");
    reveal_strlit("Volume=/var/lib/edgenode:/data:Z");
    let nl = "\n"@;
    assert(open =~= open.take(13) + nl + "Image="@);
    assert(name =~= nl + "ContainerName=edgenode"@ + nl + "Volume=/var/lib/edgenode:/data:Z"@
        + nl);
    let tail = env + end;
    lemma_has_line(
        head + open.take(13) + nl + ("Image="@ + image) + nl + (name.skip(1) + tail),
        head + open.take(13),
        "Image="@ + image,
        name.skip(1) + tail,
    );
    assert(text =~= head + open.take(13) + nl + ("Image="@ + image) + nl + (name.skip(1) + tail));
    let to_name = head + open + image;
    let volume = "Volume=/var/lib/edgenode:/data:Z"@;
    lemma_has_line(
        to_name + nl + "ContainerName=edgenode"@ + nl + (volume + nl + tail),
        to_name,
        "ContainerName=edgenode"@,
        volume + nl + tail,
    );
    assert(text =~= to_name + nl + "ContainerName=edgenode"@ + nl + (volume + nl + tail));
    lemma_has_line(
        (to_name + nl + "ContainerName=edgenode"@) + nl + volume + nl + tail,
        to_name + nl + "ContainerName=edgenode"@,
        volume,
        tail,
    );
    assert(text =~= (to_name + nl + "ContainerName=edgenode"@) + nl + volume + nl + tail);
}

#[verifier::spinoff_prover]
proof fn lemma_edgenode_variables(image: Seq<char>, endpoint: Seq<char>, agent: Seq<char>)
    ensures
        trim(endpoint).len() > 0 ==> has_line(
            edgenode_quadlet(image, endpoint, agent),
            "Environment=LOG_SENDER_ENDPOINT="@ + trim(endpoint),
        ),
        trim(agent).len() > 0 ==> has_line(
            edgenode_quadlet(image, endpoint, agent),
            "Environment=LOG_SENDER_UNYT_PUB_KEY="@ + trim(agent),
        ),
{
    let text = edgenode_quadlet(image, endpoint, agent);
    let name = "\nContainerName=edgenode\nVolume=/var/lib/edgenode:/data:Z\n"@;
    let head = "[Unit]\nDescription=Holo EdgeNode\nAfter=network-online.target\n"@
        + "Conflicts=wind-tunnel.service"@ + "\n\n[Container]\nImage="@ + image;
    let e = env_line("Environment=LOG_SENDER_ENDPOINT="@, endpoint);
    let a = env_line("Environment=LOG_SENDER_UNYT_PUB_KEY="@, agent);
    let end =
        "Label=io.containers.autoupdate=registry\n\n[Service]\nRestart=always\nRestartSec=5\n\n[Install]\nWantedBy=multi-user.target\n"@;
    let nl = "\n"@;
    reveal_strlit("\nContainerName=edgenode\nVolume=/var/lib/edgenode:/data:Z\n");
    reveal_strlit("\n");
    let start = head + name;
    let cut = start.drop_last();
    assert(start =~= cut + nl);
    assert(text == start + e + a + end);
    if trim(endpoint).len() > 0 {
        let line = "Environment=LOG_SENDER_ENDPOINT="@ + trim(endpoint);
        lemma_has_line(cut + nl + line + nl + (a + end), cut, line, a + end);
        assert(text =~= cut + nl + line + nl + (a + end));
    }
    if trim(agent).len() > 0 {
        let line = "Environment=LOG_SENDER_UNYT_PUB_KEY="@ + trim(agent);
        let before = (start + e).drop_last();
        assert((start + e).last() == '\n');
        assert(start + e =~= before + nl);
        lemma_has_line(before + nl + line + nl + end, before, line, end);
        assert(text =~= before + nl + line + nl + end);
    }
}

/// The unit file of the ordinary container says what is run and how.
pub proof fn law_edgenode_unit(image: Seq<char>, endpoint: Seq<char>, agent: Seq<char>)
    ensures
        runs_edgenode(edgenode_quadlet(image, endpoint, agent), image, endpoint, agent),
{
    lemma_edgenode_lines(image, endpoint, agent);
    lemma_edgenode_variables(image, endpoint, agent);
}

// ---------------------------------------------------------------------------
// The Wind Tunnel
// ---------------------------------------------------------------------------

/// The unit file of the Wind Tunnel runs an image under its name and a host name, on
/// the network of the host, and mounts the description of the node and the
/// entrypoint, where there is one.
pub open spec fn runs_wind_tunnel(
    text: Seq<char>,
    image: Seq<char>,
    hostname: Seq<char>,
    entrypoint: Option<Seq<char>>,
) -> bool {
    &&& has_line(text, "Image="@ + image)
    &&& has_line(text, "ContainerName=wind-tunnel"@)
    &&& has_line(text, "HostName="@ + hostname)
    &&& has_line(text, "Network=host"@)
    &&& has_line(
        text,
        "Volume=/etc/node-manager/client-meta.json:/etc/nomad.d/client-meta.json:ro,Z"@,
    )
    &&& entrypoint matches Some(p) ==> has_line(text, "Volume="@ + p + ":/entrypoint.sh:ro,Z"@)
}

#[verifier::spinoff_prover]
proof fn lemma_wind_tunnel_lines(cfg: WindTunnelView)
    ensures
        has_line(wind_tunnel_quadlet(cfg), "Image="@ + cfg.image),
        has_line(wind_tunnel_quadlet(cfg), "ContainerName=wind-tunnel"@),
        has_line(wind_tunnel_quadlet(cfg), "HostName="@ + cfg.hostname),
{
    let text = wind_tunnel_quadlet(cfg);
    let head = "[Unit]\nDescription=Holochain Wind Tunnel Runner\nAfter=network-online.target\n"@
        + "Conflicts=edgenode.service"@;
    let open = "\n\n[Container]\nImage="@;
    let name = "\nContainerName=wind-tunnel\nHostName="@;
    let net = "\nNetwork=host\nVolume="@;
    let end =
        "PodmanArgs=--cgroupns=host --privileged\nLabel=io.containers.autoupdate=registry\n\n[Service]\nRestart=always\nRestartSec=5\n\n[Install]\nWantedBy=multi-user.target\n"@;
    let tail = "/etc/node-manager/client-meta.json"@ + ":/etc/nomad.d/client-meta.json:ro,Z\n"@
        + entrypoint_line(cfg.entrypoint_bind) + end;
    assert(text =~= head + open + cfg.image + name + cfg.hostname + net + tail);
    reveal_strlit("\n\n[Container]\nImage=");
    reveal_strlit("\nContainerName=wind-tunnel\nHostName=");
    reveal_strlit("\nNetwork=host\nVolume=");
    reveal_strlit("\n");
    reveal_strlit("Image=");
    reveal_strlit("ContainerName=wind-tunnel");
    reveal_strlit("HostName=");
    let nl = "\n"@;
    let cn = "ContainerName=wind-tunnel"@;
    assert(open =~= open.take(13) + nl + "Image="@);
    assert(name =~= nl + cn + nl + "HostName="@);
    assert(net =~= nl + net.skip(1));
    let before = head + open.take(13);
    let behind = cn + nl + "HostName="@ + cfg.hostname + net + tail;
    lemma_has_line(
        before + nl + ("Image="@ + cfg.image) + nl + behind,
        before,
        "Image="@ + cfg.image,
        behind,
    );
    assert(text =~= before + nl + ("Image="@ + cfg.image) + nl + behind);
    let to_name = head + open + cfg.image;
    let host = "HostName="@ + cfg.hostname;
    lemma_has_line(to_name + nl + cn + nl + (host + net + tail), to_name, cn, host + net + tail);
    assert(text =~= to_name + nl + cn + nl + (host + net + tail));
    let to_host = to_name + nl + cn;
    lemma_has_line(
        to_host + nl + host + nl + (net.skip(1) + tail),
        to_host,
        host,
        net.skip(1) + tail,
    );
    assert(text =~= to_host + nl + host + nl + (net.skip(1) + tail));
}

#[verifier::spinoff_prover]
proof fn lemma_wind_tunnel_volumes(cfg: WindTunnelView)
    ensures
        has_line(wind_tunnel_quadlet(cfg), "Network=host"@),
        has_line(
            wind_tunnel_quadlet(cfg),
            "Volume=/etc/node-manager/client-meta.json:/etc/nomad.d/client-meta.json:ro,Z"@,
        ),
        cfg.entrypoint_bind matches Some(p) ==> has_line(
            wind_tunnel_quadlet(cfg),
            "Volume="@ + p + ":/entrypoint.sh:ro,Z"@,
        ),
{
    let text = wind_tunnel_quadlet(cfg);
    let head = "[Unit]\nDescription=Holochain Wind Tunnel Runner\nAfter=network-online.target\n"@
        + "Conflicts=edgenode.service"@ + "\n\n[Container]\nImage="@ + cfg.image
        + "\nContainerName=wind-tunnel\nHostName="@ + cfg.hostname;
    let net = "\nNetwork=host\nVolume="@;
    let meta = "/etc/node-manager/client-meta.json"@;
    let mount = ":/etc/nomad.d/client-meta.json:ro,Z\n"@;
    let entry = entrypoint_line(cfg.entrypoint_bind);
    let end =
        "PodmanArgs=--cgroupns=host --privileged\nLabel=io.containers.autoupdate=registry\n\n[Service]\nRestart=always\nRestartSec=5\n\n[Install]\nWantedBy=multi-user.target\n"@;
    assert(text =~= head + net + meta + mount + (entry + end));
    reveal_strlit("\nNetwork=host\nVolume=");
    reveal_strlit("Network=host");
    reveal_strlit("\n");
    reveal_strlit("/etc/node-manager/client-meta.json");
    reveal_strlit(":/etc/nomad.d/client-meta.json:ro,Z\n");
    reveal_strlit("Volume=/etc/node-manager/client-meta.json:/etc/nomad.d/client-meta.json:ro,Z");
    reveal_strlit("Volume=");
    reveal_strlit(":/entrypoint.sh:ro,Z\n");
    reveal_strlit(":/entrypoint.sh:ro,Z");
    let nl = "\n"@;
    let line = "Volume=/etc/node-manager/client-meta.json:/etc/nomad.d/client-meta.json:ro,Z"@;
    let host = "Network=host"@;
    let tail = entry + end;
    assert(net + meta + mount =~= nl + host + nl + line + nl);
    lemma_has_line(head + nl + host + nl + (line + nl + tail), head, host, line + nl + tail);
    assert(text =~= head + nl + host + nl + (line + nl + tail));
    lemma_has_line((head + nl + host) + nl + line + nl + tail, head + nl + host, line, tail);
    assert(text =~= (head + nl + host) + nl + line + nl + tail);
    if let Some(p) = cfg.entrypoint_bind {
        let bind = "Volume="@ + p + ":/entrypoint.sh:ro,Z"@;
        assert(":/entrypoint.sh:ro,Z\n"@ =~= ":/entrypoint.sh:ro,Z"@ + nl);
        assert(entry =~= bind + nl);
        let before = head + nl + host + nl + line;
        lemma_has_line(before + nl + bind + nl + end, before, bind, end);
        assert(text =~= before + nl + bind + nl + end);
    }
}

/// The unit file of the Wind Tunnel says what is run and how.
pub proof fn law_wind_tunnel_unit(cfg: WindTunnelView)
    ensures
        runs_wind_tunnel(wind_tunnel_quadlet(cfg), cfg.image, cfg.hostname, cfg.entrypoint_bind),
{
    lemma_wind_tunnel_lines(cfg);
    lemma_wind_tunnel_volumes(cfg);
}

/// A setting in force: what was saved, or else what the environment says, without
/// white space round it; where both are blank there is none.
pub open spec fn in_force(saved: Seq<char>, env: Option<Seq<char>>, r: Option<Seq<char>>) -> bool {
    &&& trim(saved).len() > 0 ==> r == Some(trim(saved))
    &&& trim(saved).len() == 0 && env is Some && trim(env->0).len() > 0 ==> r == Some(trim(env->0))
    &&& trim(saved).len() == 0 && (env is None || trim(env->0).len() == 0) ==> r is None
}

/// How the Wind Tunnel is run: under the host name made of the node's name, with the
/// image and the entrypoint that are in force, or the default image where none is.
pub proof fn law_wind_tunnel_config(state: StateView, site: SiteView)
    ensures
        config_at(state, site).hostname == "nomad-client-"@ + state.node_name,
        in_force(
            state.wt_entrypoint_bind,
            site.entrypoint_env,
            config_at(state, site).entrypoint_bind,
        ),
        exists|image: Option<Seq<char>>|
            #[trigger] in_force(state.wt_image_override, site.image_env, image) && config_at(
                state,
                site,
            ).image == (match image {
                Some(i) => i,
                None => site.wind_tunnel_image,
            }),
{
    assert(in_force(
        state.wt_image_override,
        site.image_env,
        override_of(state.wt_image_override, site.image_env),
    ));
}

// ---------------------------------------------------------------------------
// The description of the node
// ---------------------------------------------------------------------------

/// The description of the node gives its Agent ID back, without white space round it.
pub proof fn law_client_meta_names_agent(agent: Seq<char>)
    requires
        !trim(agent).contains('"'),
        !trim(agent).contains('\\'),
    ensures
        string_field(client_meta(agent), "unyt_agent_id"@) == trim(agent),
{
    let v = trim(agent);
    let q = seq!['"'];
    let none = Seq::<char>::empty();
    let name = "unyt_agent_id"@;
    let w = name + q + none;
    let text = client_meta(agent);
    lemma_json_plain(v);
    assert(quoted(name) =~= q + w);
    let head = "{\n  \"client\": {\n    \"meta\": {\n      \"unyt_agent_id\": \""@;
    let end = "\"\n    }\n  }\n}\n"@;
    reveal_strlit("{\n  \"client\": {\n    \"meta\": {\n      \"unyt_agent_id\": \"");
    reveal_strlit("\"\n    }\n  }\n}\n");
    reveal_strlit("unyt_agent_id");
    let s0 = seq!['{', '\n', ' ', ' '];
    let s1 = seq!['c', 'l', 'i', 'e', 'n', 't'];
    let s2 = seq![':', ' ', '{', '\n', ' ', ' ', ' ', ' '];
    let s3 = seq!['m', 'e', 't', 'a'];
    let s4 = seq![':', ' ', '{', '\n', ' ', ' ', ' ', ' ', ' ', ' '];
    let s6 = seq![':', ' '];
    let rest = end.skip(1);
    assert(end =~= q + rest);
    let r6 = s6 + q + (v + q + rest);
    let r5 = name + q + r6;
    let r4 = s4 + q + r5;
    let r3 = s3 + q + r4;
    let r2 = s2 + q + r3;
    let r1 = s1 + q + r2;
    assert(head =~= s0 + q + s1 + q + s2 + q + s3 + q + s4 + q + name + q + s6 + q);
    assert(text =~= s0 + q + r1);
    assert(s1.len() == 6 && s3.len() == 4 && s2.len() == 8 && s4.len() == 10 && name.len() == 13);
    lemma_after_quote(s0, r1, w);
    lemma_quoted_start(s1, r2, name, none);
    lemma_after_quote(s1, r2, w);
    lemma_quoted_start(s2, r3, name, none);
    lemma_after_quote(s2, r3, w);
    lemma_quoted_start(s3, r4, name, none);
    lemma_after_quote(s3, r4, w);
    lemma_quoted_start(s4, r5, name, none);
    lemma_after_quote(s4, r5, w);
    lemma_quoted_start(name, r6, name, none);
    assert(r6.subrange(0, 0) =~= none);
    assert(r5.skip(w.len() as int) =~= r6);
    assert(string_field(text, name) == value_behind(after(text, quoted(name))));
    lemma_spaced_value(v, rest);
    assert(r6 =~= none + seq![':'] + (seq![' '] + (quoted(v) + rest)));
}

/// A space between the colon and the value does not matter.
proof fn lemma_spaced_value(value: Seq<char>, rest: Seq<char>)
    requires
        !value.contains('"'),
    ensures
        value_behind(
            Some(Seq::<char>::empty() + seq![':'] + (seq![' '] + (quoted(value) + rest))),
        ) == value,
{
    let none = Seq::<char>::empty();
    let t = quoted(value) + rest;
    let spaced = seq![' '] + t;
    reveal_strlit(":");
    assert(":"@ =~= seq![':']);
    lemma_split_once(none, ':', spaced, ":"@);
    assert(spaced.drop_first() =~= t);
    assert(trim_start(spaced) == trim_start(t));
    lemma_quoted_value(value, rest);
}

// ---------------------------------------------------------------------------
// Writing them
// ---------------------------------------------------------------------------

/// Writing the unit files writes the description of the node, which only root may
/// read, and both unit files with what the settings say; a file that nothing reads any
/// more is removed, and the files are read anew last.
pub proof fn law_unit_files_follow_settings(state: StateView, site: SiteView)
    ensures
        ({
            let es = quadlets_written(state, site);
            &&& es.len() == 7
            &&& es[0] == EffectView::MakeDir("/etc/node-manager"@)
            &&& es[1] matches EffectView::Write(path, text) && path
                == "/etc/node-manager/client-meta.json"@ && (!trim(state.unyt_agent_id).contains(
                '"',
            ) && !trim(state.unyt_agent_id).contains('\\') ==> string_field(text, "unyt_agent_id"@)
                == trim(state.unyt_agent_id))
            &&& es[2] == EffectView::Run(
                seq!["chmod"@, "600"@, "/etc/node-manager/client-meta.json"@],
            )
            &&& es[3] == EffectView::Remove("/etc/node-manager/wind-tunnel.env"@)
            &&& es[4] matches EffectView::Write(path, text) && path
                == "/etc/containers/systemd/edgenode.container"@ && runs_edgenode(
                text,
                site.edgenode_image,
                state.log_sender_endpoint,
                state.unyt_agent_id,
            )
            &&& es[5] matches EffectView::Write(path, text) && path
                == "/etc/containers/systemd/wind-tunnel.container"@ && runs_wind_tunnel(
                text,
                config_at(state, site).image,
                "nomad-client-"@ + state.node_name,
                config_at(state, site).entrypoint_bind,
            )
            &&& es[6] == EffectView::Run(seq!["systemctl"@, "daemon-reload"@])
        }),
{
    law_edgenode_unit(site.edgenode_image, state.log_sender_endpoint, state.unyt_agent_id);
    law_wind_tunnel_unit(config_at(state, site));
    if !trim(state.unyt_agent_id).contains('"') && !trim(state.unyt_agent_id).contains('\\') {
        law_client_meta_names_agent(state.unyt_agent_id);
    }
}

} // verus!
