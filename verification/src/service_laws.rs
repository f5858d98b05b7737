//! What holds of the services: which of them a request starts, and which it stops.
use vstd::prelude::*;

use crate::effects::EffectView;
use crate::handlers::set_up;
use crate::json::string_field;
use crate::quadlet::{
    edgenode_applied, mode_applied, quadlets_written, services_synced, wind_tunnel_applied,
    SiteView,
};
use crate::state::StateView;

verus! {

// ---------------------------------------------------------------------------
// Starting and stopping
// ---------------------------------------------------------------------------

/// The effect runs `systemctl` with a verb.
pub open spec fn systemctl(e: EffectView, verb: Seq<char>) -> bool {
    e matches EffectView::Run(args) && args.len() >= 2 && args[0] == "systemctl"@ && args[1] == verb
}

/// The effect stops a service, now and for good.
pub open spec fn stops(e: EffectView, service: Seq<char>) -> bool {
    e == EffectView::Run(seq!["systemctl"@, "disable"@, "--now"@, service])
}

/// The effect starts a service, now and for good.
pub open spec fn starts(e: EffectView, service: Seq<char>) -> bool {
    e == EffectView::Run(seq!["systemctl"@, "enable"@, "--now"@, service])
}

/// The effect neither starts nor stops a service.
pub open spec fn leaves_services(e: EffectView) -> bool {
    &&& !systemctl(e, "enable"@)
    &&& !systemctl(e, "disable"@)
    &&& !systemctl(e, "start"@)
    &&& !systemctl(e, "stop"@)
    &&& !systemctl(e, "restart"@)
    &&& !(e is RestartIfActive)
}

/// The last two effects stop one service and then start another one, and no effect
/// before them starts or stops any.
pub open spec fn hands_over(es: Seq<EffectView>, from: Seq<char>, to: Seq<char>) -> bool {
    &&& es.len() >= 2
    &&& stops(es[es.len() - 2], from)
    &&& starts(es[es.len() - 1], to)
    &&& forall|i: int| 0 <= i < es.len() - 2 ==> leaves_services(#[trigger] es[i])
}

/// In the Wind Tunnel its service is the one that is started, and in any other mode
/// the ordinary one.
pub open spec fn serves_mode(es: Seq<EffectView>, mode: Seq<char>) -> bool {
    if mode == "WIND_TUNNEL"@ {
        hands_over(es, "edgenode.service"@, "wind-tunnel.service"@)
    } else {
        hands_over(es, "wind-tunnel.service"@, "edgenode.service"@)
    }
}

proof fn lemma_verbs()
    ensures
        "systemctl"@ != "chmod"@,
        "systemctl"@ != "chown"@,
        "daemon-reload"@.len() == 13,
        "enable"@.len() == 6,
        "disable"@.len() == 7,
        "start"@.len() == 5,
        "stop"@.len() == 4,
        "restart"@.len() == 7,
{
    reveal_strlit("systemctl");
    reveal_strlit("chmod");
    reveal_strlit("chown");
    reveal_strlit("daemon-reload");
    reveal_strlit("enable");
    reveal_strlit("disable");
    reveal_strlit("start");
    reveal_strlit("stop");
    reveal_strlit("restart");
    assert("systemctl"@.len() == 9);
    assert("chmod"@.len() == 5);
    assert("chown"@.len() == 5);
}

/// Writing the unit files starts and stops nothing.
proof fn lemma_unit_files_leave_services(state: StateView, site: SiteView)
    ensures
        forall|i: int|
            0 <= i < quadlets_written(state, site).len() ==> leaves_services(
                #[trigger] quadlets_written(state, site)[i],
            ),
{
    lemma_verbs();
}

/// When the node starts, the service of its mode is started and the other one
/// stopped before.
pub proof fn law_start_serves_mode(state: StateView, site: SiteView)
    ensures
        serves_mode(services_synced(state.hw_mode), state.hw_mode),
        serves_mode(quadlets_written(state, site) + services_synced(state.hw_mode), state.hw_mode),
{
    lemma_unit_files_leave_services(state, site);
    let before = quadlets_written(state, site);
    let es = before + services_synced(state.hw_mode);
    assert forall|i: int| 0 <= i < es.len() - 2 implies leaves_services(#[trigger] es[i]) by {
        assert(es[i] == before[i]);
    }
}

/// Where a switch changes the mode, the service that does not run in the new mode
/// is stopped and then the one that does is started. Where it does not, no service
/// is touched.
pub proof fn law_switch_serves_mode(
    state: StateView,
    mode: Seq<char>,
    site: SiteView,
    state_file: Seq<char>,
)
    ensures
        state.hw_mode != mode ==> serves_mode(mode_applied(state, mode, site, state_file), mode),
        state.hw_mode == mode ==> forall|i: int|
            0 <= i < mode_applied(state, mode, site, state_file).len() ==> leaves_services(
                #[trigger] mode_applied(state, mode, site, state_file)[i],
            ),
        exists|i: int|
            0 <= i < mode_applied(state, mode, site, state_file).len() && mode_applied(
                state,
                mode,
                site,
                state_file,
            )[i] == EffectView::Write("/var/lib/edgenode/mode_switch.txt"@, mode),
{
    lemma_verbs();
    let changed = StateView { hw_mode: mode, ..state };
    lemma_unit_files_leave_services(changed, site);
    let units = quadlets_written(changed, site);
    let es = mode_applied(state, mode, site, state_file);
    assert(es[0] == EffectView::Write("/var/lib/edgenode/mode_switch.txt"@, mode));
    assert forall|i: int| 0 <= i < 4 + units.len() implies leaves_services(#[trigger] es[i]) by {
        if i >= 4 {
            assert(es[i] == units[i - 4]);
        }
    }
}

/// Switching there and back runs the commands for the Wind Tunnel first and those
/// for the ordinary mode then.
pub proof fn law_switch_between_modes(state: StateView, site: SiteView, state_file: Seq<char>)
    ensures
        state.hw_mode == "STANDARD"@ ==> hands_over(
            mode_applied(state, "WIND_TUNNEL"@, site, state_file),
            "edgenode.service"@,
            "wind-tunnel.service"@,
        ),
        state.hw_mode == "WIND_TUNNEL"@ ==> hands_over(
            mode_applied(state, "STANDARD"@, site, state_file),
            "wind-tunnel.service"@,
            "edgenode.service"@,
        ),
{
    reveal_strlit("WIND_TUNNEL");
    reveal_strlit("STANDARD");
    assert("WIND_TUNNEL"@.len() == 11);
    assert("STANDARD"@.len() == 8);
    law_switch_serves_mode(state, "WIND_TUNNEL"@, site, state_file);
    law_switch_serves_mode(state, "STANDARD"@, site, state_file);
}

/// A node that is set up runs the service of the mode that was asked for: the one
/// of the Wind Tunnel for that word, and the ordinary one for any other.
#[verifier::spinoff_prover]
#[verifier::rlimit(30)]
pub proof fn law_set_up_serves_mode(
    state: StateView,
    body: Seq<char>,
    bytes: Seq<u8>,
    site: SiteView,
    auth: Seq<char>,
    phrase: Seq<char>,
    seed_hash: Seq<char>,
)
    requires
        !state.onboarded,
    ensures
        serves_mode(
            set_up(state, body, bytes, site, auth, phrase, seed_hash).done,
            string_field(body, "hwMode"@),
        ),
        set_up(state, body, bytes, site, auth, phrase, seed_hash).state.hw_mode == (if string_field(
            body,
            "hwMode"@,
        ) == "WIND_TUNNEL"@ {
            "WIND_TUNNEL"@
        } else {
            "STANDARD"@
        }),
{
    reveal_strlit("WIND_TUNNEL");
    reveal_strlit("STANDARD");
    assert("WIND_TUNNEL"@.len() == 11);
    assert("STANDARD"@.len() == 8);
    lemma_verbs();
    let end = set_up(state, body, bytes, site, auth, phrase, seed_hash);
    let es = end.done;
    let units = quadlets_written(end.state, site);
    lemma_unit_files_leave_services(end.state, site);
    assert(units.len() == 7);
    let first = es.len() - 15;
    assert(first == 0 || first == 3);
    assert forall|i: int| 0 <= i < es.len() - 2 implies leaves_services(#[trigger] es[i]) by {
        if first + 5 <= i < first + 12 {
            assert(es[i] == units[i - first - 5]);
        }
    }
}

/// A changed setting restarts a container at most where it runs: a change to the
/// Wind Tunnel restarts its service in that mode alone, a change to the ordinary
/// container its service in every other mode, and both come last.
pub proof fn law_restart_in_its_mode(state: StateView, site: SiteView)
    ensures
        ({
            let es = wind_tunnel_applied(state, site);
            &&& state.hw_mode == "WIND_TUNNEL"@ ==> es.len() > 0 && es.last()
                == EffectView::RestartIfActive("wind-tunnel.service"@)
            &&& forall|i: int|
                0 <= i < es.len() && !leaves_services(#[trigger] es[i]) ==> state.hw_mode
                    == "WIND_TUNNEL"@ && i == es.len() - 1
        }),
        ({
            let es = edgenode_applied(state, site);
            &&& state.hw_mode != "WIND_TUNNEL"@ ==> es.len() > 0 && es.last()
                == EffectView::RestartIfActive("edgenode.service"@)
            &&& forall|i: int|
                0 <= i < es.len() && !leaves_services(#[trigger] es[i]) ==> state.hw_mode
                    != "WIND_TUNNEL"@ && i == es.len() - 1
        }),
{
    lemma_unit_files_leave_services(state, site);
    let units = quadlets_written(state, site);
    let wt = wind_tunnel_applied(state, site);
    let en = edgenode_applied(state, site);
    assert forall|i: int| 0 <= i < wt.len() && !leaves_services(
        #[trigger] wt[i],
    ) implies state.hw_mode == "WIND_TUNNEL"@ && i == wt.len() - 1 by {
        if i < units.len() {
            assert(wt[i] == units[i]);
        }
    }
    assert forall|i: int| 0 <= i < en.len() && !leaves_services(
        #[trigger] en[i],
    ) implies state.hw_mode != "WIND_TUNNEL"@ && i == en.len() - 1 by {
        if i < units.len() {
            assert(en[i] == units[i]);
        }
    }
}

} // verus!
