//! What holds of the requests that change a setting: a request that is refused changes
//! nothing, and one that is accepted changes the setting in memory and on disk, and
//! puts it into force.
use vstd::prelude::*;

use crate::config::{
    endpoint_error, entrypoint_error, image_error, law_hostname_fits, node_name_error, PathKind,
};
use crate::effects::EffectView;
use crate::handlers::{
    agent_id_error_in, agent_saved, collector_saved, entrypoint_saved, image_saved, mode_switched,
    name_changed, names_error, seed_made, Changed,
};
use crate::http::ReplyView;
use crate::json::string_field;
use crate::quadlet::{
    edgenode_applied, mode_applied, quadlets_written, wind_tunnel_applied, SiteView,
};
use crate::split::{lemma_trim_id, trim};
use crate::state::{
    in_step, key_updated, law_setting_survives, law_settings_stay_in_step, lemma_setting_names,
    StateView,
};
use crate::store::{inserted, lookup, pairs_of_text, storable, text_of_pairs};
use crate::text::{byte_len, occurs};

verus! {

// ---------------------------------------------------------------------------
// Saving a setting
// ---------------------------------------------------------------------------

/// Every pair of a state file can be written back.
pub open spec fn writable(content: Seq<char>) -> bool {
    forall|i: int|
        0 <= i < pairs_of_text(content).len() ==> storable(
            #[trigger] pairs_of_text(content)[i].0,
            pairs_of_text(content)[i].1,
        )
}

/// A text of a state file holds a value under a key and every other key as another
/// text does.
pub open spec fn differs_in(
    text: Seq<char>,
    content: Seq<char>,
    key: Seq<char>,
    value: Seq<char>,
) -> bool {
    &&& lookup(pairs_of_text(text), key) == Some(value)
    &&& forall|other: Seq<char>|
        other != key ==> #[trigger] lookup(pairs_of_text(text), other) == lookup(
            pairs_of_text(content),
            other,
        )
}

/// The first three effects write a state file that only root may read; it holds the
/// value under the key, and everything else as before.
pub open spec fn saves(
    es: Seq<EffectView>,
    content: Seq<char>,
    key: Seq<char>,
    value: Seq<char>,
) -> bool {
    &&& es.len() >= 3
    &&& es[0] == EffectView::MakeDir("/etc/node-manager"@)
    &&& es[1] matches EffectView::Write(path, text) && path == "/etc/node-manager/state"@ && (
    writable(content) && storable(key, value) ==> differs_in(text, content, key, value))
    &&& es[2] == EffectView::Run(seq!["chmod"@, "600"@, "/etc/node-manager/state"@])
}

/// Changing a key of the state file saves it.
pub proof fn law_key_is_saved(content: Seq<char>, key: Seq<char>, value: Seq<char>)
    ensures
        saves(key_updated(content, key, value), content, key, value),
        key_updated(content, key, value).len() == 3,
{
    let text = text_of_pairs(inserted(pairs_of_text(content), key, value));
    let es = key_updated(content, key, value);
    assert(es[1] == EffectView::Write("/etc/node-manager/state"@, text));
    if writable(content) && storable(key, value) {
        law_setting_survives(content, key, value, key);
        assert forall|other: Seq<char>| other != key implies #[trigger] lookup(
            pairs_of_text(text),
            other,
        ) == lookup(pairs_of_text(content), other) by {
            law_setting_survives(content, key, value, other);
        }
    }
}

proof fn lemma_saves_more(
    content: Seq<char>,
    key: Seq<char>,
    value: Seq<char>,
    more: Seq<EffectView>,
)
    ensures
        saves(key_updated(content, key, value) + more, content, key, value),
{
    law_key_is_saved(content, key, value);
    let es = key_updated(content, key, value);
    assert((es + more)[0] == es[0]);
    assert((es + more)[1] == es[1]);
    assert((es + more)[2] == es[2]);
}

/// A request that was refused: it says why, and nothing changes.
pub open spec fn refused(c: Changed, state: StateView) -> bool {
    &&& c.state == state
    &&& c.done.len() == 0
    &&& c.reply matches Some(ReplyView::Error(status, _)) && status == 400
}

// ---------------------------------------------------------------------------
// The settings
// ---------------------------------------------------------------------------

/// A new name is accepted exactly where it is in order, differs from the old one, and
/// is accepted with the Agent ID in the mode. It is then saved, becomes the host name
/// of the system, and goes into the unit files; the Wind Tunnel is restarted where it
/// runs.
pub proof fn law_name_change(
    state: StateView,
    body: Seq<char>,
    state_file: Seq<char>,
    site: SiteView,
)
    ensures
        ({
            let c = name_changed(state, body, state_file, site);
            let name = string_field(body, "nodeName"@);
            let accepted = node_name_error(name) is None && name != state.node_name && names_error(
                state.hw_mode,
                name,
                state.unyt_agent_id,
            ) is None;
            &&& !accepted ==> refused(c, state)
            &&& node_name_error(name) is None && name == state.node_name ==> c.reply == Some(
                ReplyView::Error(400, "Node name unchanged"@),
            )
            &&& accepted ==> {
                &&& c.reply matches Some(ReplyView::Json(_))
                &&& c.state == (StateView { node_name: name, ..state })
                &&& saves(c.done, state_file, "node_name"@, name)
                &&& c.done.len() >= 11
                &&& c.done[3] == EffectView::Run(seq!["hostnamectl"@, "set-hostname"@, name])
                &&& c.done.subrange(4, 11) == quadlets_written(c.state, site)
                &&& c.done.skip(11) == (if state.hw_mode == "WIND_TUNNEL"@ {
                    seq![EffectView::RestartIfActive("wind-tunnel.service"@)]
                } else {
                    seq![]
                })
            }
        }),
{
    let c = name_changed(state, body, state_file, site);
    let name = string_field(body, "nodeName"@);
    let kept = key_updated(state_file, "node_name"@, name);
    let host = seq![EffectView::Run(seq!["hostnamectl"@, "set-hostname"@, name])];
    let after = StateView { node_name: name, ..state };
    let units = quadlets_written(after, site);
    let rest = wind_tunnel_applied(after, site);
    lemma_saves_more(state_file, "node_name"@, name, host + rest);
    law_key_is_saved(state_file, "node_name"@, name);
    assert(kept + host + rest =~= kept + (host + rest));
    let all = kept + host + rest;
    assert(units.len() == 7);
    assert(all.subrange(4, 11) =~= units);
    assert(all.skip(11) =~= (if state.hw_mode == "WIND_TUNNEL"@ {
        seq![EffectView::RestartIfActive("wind-tunnel.service"@)]
    } else {
        seq![]
    }));
}

/// An Agent ID is accepted exactly where it is in order in the mode and with the name.
/// It is then saved and goes into the unit files, and the container that runs in the
/// mode is restarted, that one alone.
pub proof fn law_agent_save(
    state: StateView,
    body: Seq<char>,
    state_file: Seq<char>,
    site: SiteView,
)
    ensures
        ({
            let c = agent_saved(state, body, state_file, site);
            let agent = string_field(body, "unytAgentId"@);
            let accepted = agent_id_error_in(state.hw_mode, state.node_name, agent) is None;
            let service = if state.hw_mode == "WIND_TUNNEL"@ {
                "wind-tunnel.service"@
            } else {
                "edgenode.service"@
            };
            &&& !accepted ==> refused(c, state)
            &&& accepted ==> {
                &&& c.reply is None
                &&& c.state == (StateView { unyt_agent_id: agent, ..state })
                &&& saves(c.done, state_file, "unyt_agent_id"@, agent)
                &&& c.done.len() == 18
                &&& c.done.subrange(3, 10) == quadlets_written(c.state, site)
                &&& c.done.contains(EffectView::RestartIfActive(service))
                &&& forall|i: int|
                    0 <= i < c.done.len() && (#[trigger] c.done[i] is RestartIfActive) ==> c.done[i]
                        == EffectView::RestartIfActive(service)
            }
        }),
{
    let agent = string_field(body, "unytAgentId"@);
    let after = StateView { unyt_agent_id: agent, ..state };
    let kept = key_updated(state_file, "unyt_agent_id"@, agent);
    let units = quadlets_written(after, site);
    let wt = wind_tunnel_applied(after, site);
    let en = edgenode_applied(after, site);
    lemma_saves_more(state_file, "unyt_agent_id"@, agent, wt + en);
    law_key_is_saved(state_file, "unyt_agent_id"@, agent);
    let all = kept + wt + en;
    assert(all =~= kept + (wt + en));
    assert(units.len() == 7);
    assert(all.subrange(3, 10) =~= units);
    let service = if state.hw_mode == "WIND_TUNNEL"@ {
        "wind-tunnel.service"@
    } else {
        "edgenode.service"@
    };
    if state.hw_mode == "WIND_TUNNEL"@ {
        assert(all[10] == EffectView::RestartIfActive(service));
    } else {
        assert(all[17] == EffectView::RestartIfActive(service));
    }
    assert forall|i: int|
        0 <= i < all.len() && (#[trigger] all[i] is RestartIfActive) implies all[i]
        == EffectView::RestartIfActive(service) by {
        if i < 3 {
            assert(all[i] == kept[i]);
        } else if i < 10 {
            assert(all[i] == units[i - 3]);
        } else if state.hw_mode == "WIND_TUNNEL"@ && i > 10 {
            assert(all[i] == units[i - 11]);
        } else if state.hw_mode != "WIND_TUNNEL"@ && i < 17 {
            assert(all[i] == units[i - 10]);
        }
    }
}

/// A switch of the mode is refused exactly where it asks for the Wind Tunnel and the
/// name of the node has more than 50 bytes; otherwise the mode changes and nothing
/// else in the state, and the switch is carried out.
pub proof fn law_mode_switch(
    state: StateView,
    body: Seq<char>,
    state_file: Seq<char>,
    site: SiteView,
)
    ensures
        ({
            let c = mode_switched(state, body, state_file, site);
            let word = string_field(body, "mode"@);
            let mode = if word == "WIND_TUNNEL"@ {
                "WIND_TUNNEL"@
            } else {
                "STANDARD"@
            };
            let accepted = word != "WIND_TUNNEL"@ || byte_len(state.node_name) <= 50;
            &&& !accepted ==> refused(c, state)
            &&& accepted ==> {
                &&& c.reply == Some(ReplyView::Json("{\"status\":\"ok\"}"@))
                &&& c.state == (StateView { hw_mode: mode, ..state })
                &&& c.done == mode_applied(state, mode, site, state_file)
            }
        }),
{
    law_hostname_fits(state.node_name);
    reveal_strlit("WIND_TUNNEL");
    reveal_strlit("STANDARD");
    assert("WIND_TUNNEL"@.len() == 11);
    assert("STANDARD"@.len() == 8);
}

/// An image that a request names is saved exactly where it is in order, without white
/// space round it; a request that names none changes nothing and is not refused.
pub proof fn law_image_save(state: StateView, body: Seq<char>, state_file: Seq<char>)
    ensures
        ({
            let c = image_saved(state, body, state_file);
            let image = trim(string_field(body, "wtImageOverride"@));
            let named = occurs(body, "\"wtImageOverride\""@);
            &&& !named ==> c.state == state && c.done.len() == 0 && c.reply is None
            &&& named && image_error(image) is Some ==> refused(c, state)
            &&& named && image_error(image) is None ==> {
                &&& c.reply is None
                &&& c.state == (StateView { wt_image_override: image, ..state })
                &&& saves(c.done, state_file, "wt_image_override"@, image)
                &&& c.done.len() == 3
            }
        }),
{
    reveal_strlit("\"wtImageOverride\"");
    reveal_strlit("wtImageOverride");
    assert("\"wtImageOverride\""@ =~= seq!['"'] + "wtImageOverride"@ + seq!['"']);
    law_key_is_saved(
        state_file,
        "wt_image_override"@,
        trim(string_field(body, "wtImageOverride"@)),
    );
}

/// An entrypoint that a request names is saved exactly where it is in order, without
/// white space round it; a request that names none changes nothing and is not refused.
pub proof fn law_entrypoint_save(
    state: StateView,
    body: Seq<char>,
    found: PathKind,
    state_file: Seq<char>,
)
    ensures
        ({
            let c = entrypoint_saved(state, body, found, state_file);
            let path = trim(string_field(body, "wtEntrypointBind"@));
            let named = occurs(body, "\"wtEntrypointBind\""@);
            &&& !named ==> c.state == state && c.done.len() == 0 && c.reply is None
            &&& named && entrypoint_error(path, found) is Some ==> refused(c, state)
            &&& named && entrypoint_error(path, found) is None ==> {
                &&& c.reply is None
                &&& c.state == (StateView { wt_entrypoint_bind: path, ..state })
                &&& saves(c.done, state_file, "wt_entrypoint_bind"@, path)
                &&& c.done.len() == 3
            }
        }),
{
    reveal_strlit("\"wtEntrypointBind\"");
    reveal_strlit("wtEntrypointBind");
    assert("\"wtEntrypointBind\""@ =~= seq!['"'] + "wtEntrypointBind"@ + seq!['"']);
    law_key_is_saved(
        state_file,
        "wt_entrypoint_bind"@,
        trim(string_field(body, "wtEntrypointBind"@)),
    );
}

/// The address of a log collector is saved exactly where it is in order; it then goes
/// into the unit files, and the ordinary container is restarted where it runs.
pub proof fn law_collector_save(
    state: StateView,
    body: Seq<char>,
    state_file: Seq<char>,
    site: SiteView,
)
    ensures
        ({
            let c = collector_saved(state, body, state_file, site);
            let endpoint = string_field(body, "logSenderEndpoint"@);
            &&& endpoint_error(endpoint) is Some ==> refused(c, state)
            &&& endpoint_error(endpoint) is None ==> {
                &&& c.reply == Some(ReplyView::Json("{\"status\":\"ok\"}"@))
                &&& c.state == (StateView { log_sender_endpoint: endpoint, ..state })
                &&& saves(c.done, state_file, "log_sender_endpoint"@, endpoint)
                &&& c.done.len() >= 10
                &&& c.done.subrange(3, 10) == quadlets_written(c.state, site)
                &&& c.done.skip(10) == (if state.hw_mode == "WIND_TUNNEL"@ {
                    seq![]
                } else {
                    seq![EffectView::RestartIfActive("edgenode.service"@)]
                })
            }
        }),
{
    let endpoint = string_field(body, "logSenderEndpoint"@);
    let after = StateView { log_sender_endpoint: endpoint, ..state };
    let kept = key_updated(state_file, "log_sender_endpoint"@, endpoint);
    let units = quadlets_written(after, site);
    let rest = edgenode_applied(after, site);
    lemma_saves_more(state_file, "log_sender_endpoint"@, endpoint, rest);
    law_key_is_saved(state_file, "log_sender_endpoint"@, endpoint);
    let all = kept + rest;
    assert(units.len() == 7);
    assert(all.subrange(3, 10) =~= units);
    assert(all.skip(10) =~= (if state.hw_mode == "WIND_TUNNEL"@ {
        seq![]
    } else {
        seq![EffectView::RestartIfActive("edgenode.service"@)]
    }));
}

/// A seed phrase is made for a node that has none: what is kept of it is saved, and the
/// answer is all that holds the phrase. A node that has one is left alone.
pub proof fn law_seed_save(
    state: StateView,
    phrase: Seq<char>,
    other: Seq<char>,
    record: Seq<char>,
    state_file: Seq<char>,
)
    ensures
        ({
            let c = seed_made(state, phrase, record, state_file);
            let d = seed_made(state, other, record, state_file);
            &&& state.seed_hash.len() > 0 ==> refused(c, state)
            &&& state.seed_hash.len() == 0 ==> {
                &&& c.reply matches Some(ReplyView::Json(_))
                &&& c.state == (StateView { seed_hash: record, ..state })
                &&& saves(c.done, state_file, "seed_hash"@, record)
                &&& c.done.len() == 3
            }
            &&& c.state == d.state && c.done == d.done
        }),
{
    law_key_is_saved(state_file, "seed_hash"@, record);
}

// ---------------------------------------------------------------------------
// In memory and on disk
// ---------------------------------------------------------------------------

/// An effect that writes the state file leaves it in step with a state.
pub open spec fn writes_in_step(e: EffectView, state: StateView) -> bool {
    match e {
        EffectView::Write(path, text) => path == "/etc/node-manager/state"@ ==> in_step(
            state,
            text,
        ),
        _ => true,
    }
}

/// Every state file that the effects write is in step with the state.
pub open spec fn kept_in_step(c: Changed) -> bool {
    forall|i: int| 0 <= i < c.done.len() ==> writes_in_step(#[trigger] c.done[i], c.state)
}

proof fn lemma_paths()
    ensures
        "/etc/node-manager/state"@.len() == 23,
        "/etc/node-manager/client-meta.json"@.len() == 34,
        "/etc/containers/systemd/edgenode.container"@.len() == 42,
        "/etc/containers/systemd/wind-tunnel.container"@.len() == 45,
        "/var/lib/edgenode/mode_switch.txt"@.len() == 33,
{
    reveal_strlit("/etc/node-manager/state");
    reveal_strlit("/etc/node-manager/client-meta.json");
    reveal_strlit("/etc/containers/systemd/edgenode.container");
    reveal_strlit("/etc/containers/systemd/wind-tunnel.container");
    reveal_strlit("/var/lib/edgenode/mode_switch.txt");
}

/// Where the state file and the state are in step, the change of a name keeps them so.
pub proof fn law_name_stays_in_step(
    state: StateView,
    body: Seq<char>,
    state_file: Seq<char>,
    site: SiteView,
)
    requires
        in_step(state, state_file),
        writable(state_file),
        storable("node_name"@, string_field(body, "nodeName"@)),
    ensures
        kept_in_step(name_changed(state, body, state_file, site)),
{
    let c = name_changed(state, body, state_file, site);
    let name = string_field(body, "nodeName"@);
    lemma_setting_names();
    lemma_paths();
    law_settings_stay_in_step(state, state_file, "node_name"@, name);
    let after = StateView { node_name: name, ..state };
    let units = quadlets_written(after, site);
    assert forall|i: int| 0 <= i < c.done.len() implies writes_in_step(
        #[trigger] c.done[i],
        c.state,
    ) by {
        if 4 <= i < 11 {
            assert(c.done[i] == units[i - 4]);
        }
    }
}

/// Where the state file and the state are in step, a saved Agent ID keeps them so.
pub proof fn law_agent_stays_in_step(
    state: StateView,
    body: Seq<char>,
    state_file: Seq<char>,
    site: SiteView,
)
    requires
        in_step(state, state_file),
        writable(state_file),
        storable("unyt_agent_id"@, string_field(body, "unytAgentId"@)),
    ensures
        kept_in_step(agent_saved(state, body, state_file, site)),
{
    let c = agent_saved(state, body, state_file, site);
    let agent = string_field(body, "unytAgentId"@);
    lemma_setting_names();
    lemma_paths();
    law_settings_stay_in_step(state, state_file, "unyt_agent_id"@, agent);
    let after = StateView { unyt_agent_id: agent, ..state };
    let units = quadlets_written(after, site);
    let wt = wind_tunnel_applied(after, site);
    let en = edgenode_applied(after, site);
    assert forall|i: int| 0 <= i < c.done.len() implies writes_in_step(
        #[trigger] c.done[i],
        c.state,
    ) by {
        if 3 <= i < 3 + wt.len() {
            assert(c.done[i] == wt[i - 3]);
            if i < 10 {
                assert(c.done[i] == units[i - 3]);
            }
        } else if i >= 3 + wt.len() {
            let k = i - 3 - wt.len();
            assert(c.done[i] == en[k]);
            if k < 7 {
                assert(c.done[i] == units[k]);
            }
        }
    }
}

proof fn lemma_modes_storable()
    ensures
        storable("hw_mode"@, "WIND_TUNNEL"@),
        storable("hw_mode"@, "STANDARD"@),
{
    reveal_strlit("hw_mode");
    reveal_strlit("WIND_TUNNEL");
    reveal_strlit("STANDARD");
    lemma_trim_id("hw_mode"@);
}

/// Where the state file and the state are in step, a switch of the mode keeps them so.
pub proof fn law_mode_stays_in_step(
    state: StateView,
    body: Seq<char>,
    state_file: Seq<char>,
    site: SiteView,
)
    requires
        in_step(state, state_file),
        writable(state_file),
    ensures
        kept_in_step(mode_switched(state, body, state_file, site)),
{
    let c = mode_switched(state, body, state_file, site);
    let mode = if string_field(body, "mode"@) == "WIND_TUNNEL"@ {
        "WIND_TUNNEL"@
    } else {
        "STANDARD"@
    };
    lemma_setting_names();
    lemma_paths();
    lemma_modes_storable();
    law_settings_stay_in_step(state, state_file, "hw_mode"@, mode);
    let units = quadlets_written(StateView { hw_mode: mode, ..state }, site);
    let kept = key_updated(state_file, "hw_mode"@, mode);
    assert forall|i: int| 0 <= i < c.done.len() implies writes_in_step(
        #[trigger] c.done[i],
        c.state,
    ) by {
        if 1 <= i < 4 {
            assert(c.done[i] == kept[i - 1]);
        } else if 4 <= i < 11 {
            assert(c.done[i] == units[i - 4]);
        }
    }
}

/// Where the state file and the state are in step, the other settings keep them so: the
/// image and the entrypoint of the Wind Tunnel, the log collector, and what is kept of a
/// seed phrase.
pub proof fn law_others_stay_in_step(
    state: StateView,
    body: Seq<char>,
    found: PathKind,
    phrase: Seq<char>,
    record: Seq<char>,
    state_file: Seq<char>,
    site: SiteView,
)
    requires
        in_step(state, state_file),
        writable(state_file),
        storable("wt_image_override"@, trim(string_field(body, "wtImageOverride"@))),
        storable("wt_entrypoint_bind"@, trim(string_field(body, "wtEntrypointBind"@))),
        storable("log_sender_endpoint"@, string_field(body, "logSenderEndpoint"@)),
        storable("seed_hash"@, record),
    ensures
        kept_in_step(image_saved(state, body, state_file)),
        kept_in_step(entrypoint_saved(state, body, found, state_file)),
        kept_in_step(collector_saved(state, body, state_file, site)),
        kept_in_step(seed_made(state, phrase, record, state_file)),
{
    lemma_setting_names();
    lemma_paths();
    let endpoint = string_field(body, "logSenderEndpoint"@);
    law_settings_stay_in_step(
        state,
        state_file,
        "wt_image_override"@,
        trim(string_field(body, "wtImageOverride"@)),
    );
    law_settings_stay_in_step(
        state,
        state_file,
        "wt_entrypoint_bind"@,
        trim(string_field(body, "wtEntrypointBind"@)),
    );
    law_settings_stay_in_step(state, state_file, "log_sender_endpoint"@, endpoint);
    law_settings_stay_in_step(state, state_file, "seed_hash"@, record);
    let c = collector_saved(state, body, state_file, site);
    let units = quadlets_written(StateView { log_sender_endpoint: endpoint, ..state }, site);
    assert forall|i: int| 0 <= i < c.done.len() implies writes_in_step(
        #[trigger] c.done[i],
        c.state,
    ) by {
        if 3 <= i < 10 {
            assert(c.done[i] == units[i - 3]);
        }
    }
}

} // verus!
