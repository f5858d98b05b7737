//! What holds of the answers and pages that show the node: each value stands in its
//! place, between the texts round it.
use vstd::prelude::*;

use crate::calendar::uptime_text;
use crate::config::{wt_client_name, wt_hostname};
use crate::escape::{escaped, Escape};
use crate::handlers::{keys_json, status_json};
use crate::json::{keyed, quoted};
use crate::manage_page::{
    key_cuttable, key_row, key_rows, keys_html, manage_page, page_access, page_end, page_head,
    page_settings, shortened, HAPPS_NOT_RUNNING, HAPPS_WRONG_MODE, SEED_NOTICE, TO_ADDRESS,
    TO_AGENT, TO_AGENT_BADGE, TO_AGENT_CLASS, TO_AGENT_COPY, TO_AGENT_STATE, TO_AGENT_VALUE, TO_END,
    TO_ENDPOINT_VALUE, TO_ENTRYPOINT, TO_ENTRYPOINT_VALUE, TO_HAPPS_NOTICE, TO_HEADING, TO_HOSTNAME,
    TO_IMAGE, TO_IMAGE_VALUE, TO_KEYS, TO_KEY_COUNT, TO_KEY_PLURAL, TO_MODE, TO_MODE_BADGE,
    TO_NAME_VALUE, TO_SCRIPT_MODE, TO_SCRIPT_NAME, TO_SEED_NOTICE, TO_STANDARD_CLASS,
    TO_STATUS_LINK, TO_STYLE, TO_TITLE, TO_UPTIME, TO_VERSION, TO_VERSION_BADGE,
    TO_WIND_TUNNEL_CLASS,
};
use crate::number::dec;
use crate::pages::{
    login_page, setup_page, COMMON_CSS, LOGIN_END, LOGIN_HEAD, LOGIN_MIDDLE, SETUP_END,
    SETUP_ETHERNET, SETUP_FORM, SETUP_HEAD, SETUP_STYLE, SETUP_WIFI, UNYT_INFO_COPY,
};
use crate::quadlet::{config_at, SiteView};
use crate::split::words;
use crate::state::StateView;
use crate::text::{byte_len, bytes_after, bytes_before, law_bytes_come_apart, lemma_occurs, occurs};
use crate::url::status_url;

verus! {

// ---------------------------------------------------------------------------
// Parts of a text
// ---------------------------------------------------------------------------

/// A text begins with another.
spec fn begins(text: Seq<char>, start: Seq<char>) -> bool {
    start.len() <= text.len() && text.take(start.len() as int) == start
}

proof fn lemma_begins_self(text: Seq<char>)
    ensures
        begins(text, text),
{
    assert(text.take(text.len() as int) =~= text);
}

proof fn lemma_begins_less(text: Seq<char>, l: Seq<char>, p: Seq<char>)
    requires
        begins(text, l + p),
    ensures
        begins(text, l),
{
    assert(text.take(l.len() as int) =~= text.take((l + p).len() as int).take(l.len() as int));
    assert((l + p).take(l.len() as int) =~= l);
}

/// A value stands in a text between two others.
pub open spec fn stands_between(
    text: Seq<char>,
    a: Seq<char>,
    value: Seq<char>,
    b: Seq<char>,
) -> bool {
    occurs(text, a + value + b)
}

proof fn lemma_stands(
    text: Seq<char>,
    l: Seq<char>,
    a: Seq<char>,
    value: Seq<char>,
    b: Seq<char>,
)
    requires
        begins(text, l + a + value + b),
    ensures
        stands_between(text, a, value, b),
{
    let pat = a + value + b;
    let start = l + a + value + b;
    assert(start =~= l + pat);
    assert forall|j: int| 0 <= j < pat.len() implies text[l.len() + j] == #[trigger] pat[j] by {
        assert(text.take(start.len() as int)[l.len() + j] == start[l.len() + j]);
        assert((l + pat)[l.len() + j] == pat[j]);
    }
    lemma_occurs(text, l, pat);
}

proof fn lemma_stands_first(text: Seq<char>, a: Seq<char>, value: Seq<char>, b: Seq<char>)
    requires
        begins(text, a + value + b),
    ensures
        stands_between(text, a, value, b),
{
    let none = Seq::<char>::empty();
    assert(none + a + value + b =~= a + value + b);
    lemma_stands(text, none, a, value, b);
}

/// One of two texts, as a condition says.
pub open spec fn either(cond: bool, yes: Seq<char>, no: Seq<char>) -> Seq<char> {
    if cond {
        yes
    } else {
        no
    }
}

/// A text, or another where there is none.
pub open spec fn or_else(text: Option<Seq<char>>, other: Seq<char>) -> Seq<char> {
    match text {
        Some(t) => t,
        None => other,
    }
}

// ---------------------------------------------------------------------------
// The status
// ---------------------------------------------------------------------------

/// The status says each thing under its name: the version, the names, the mode, the
/// Agent ID and the log collector as JSON strings, whether the container runs and
/// whether there is a seed phrase as truths, and the counts as numbers.
#[verifier::spinoff_prover]
pub proof fn law_status_shows(
    state: StateView,
    keys: Seq<Seq<char>>,
    happs: nat,
    running: bool,
    uptime: nat,
)
    ensures
        stands_between(
            status_json(state, keys, happs, running, uptime),
            "{"@,
            keyed("version"@) + quoted(escaped("6.2.1"@, Escape::Json)),
            ","@,
        ),
        stands_between(
            status_json(state, keys, happs, running, uptime),
            ","@,
            keyed("node_name"@) + quoted(escaped(state.node_name, Escape::Json)),
            ",\"hw_mode\":\""@,
        ),
        stands_between(
            status_json(state, keys, happs, running, uptime),
            ",\"hw_mode\":\""@,
            state.hw_mode,
            "\","@,
        ),
        stands_between(
            status_json(state, keys, happs, running, uptime),
            "\","@,
            keyed("unyt_agent_id"@) + quoted(escaped(state.unyt_agent_id, Escape::Json)),
            ","@,
        ),
        stands_between(
            status_json(state, keys, happs, running, uptime),
            ","@,
            keyed("log_sender_endpoint"@) + quoted(
                escaped(state.log_sender_endpoint, Escape::Json),
            ),
            ",\"edgenode_running\":"@,
        ),
        stands_between(
            status_json(state, keys, happs, running, uptime),
            ",\"edgenode_running\":"@,
            either(running, "true"@, "false"@),
            ",\"happs_count\":"@,
        ),
        stands_between(
            status_json(state, keys, happs, running, uptime),
            ",\"happs_count\":"@,
            dec(happs),
            ","@,
        ),
        stands_between(
            status_json(state, keys, happs, running, uptime),
            ","@,
            keyed("wt_client_name"@) + quoted(
                escaped(
                    wt_client_name(state.node_name, state.unyt_agent_id, state.wt_suffix),
                    Escape::Json,
                ),
            ),
            ","@,
        ),
        stands_between(
            status_json(state, keys, happs, running, uptime),
            ","@,
            keyed("wt_hostname"@) + quoted(escaped(wt_hostname(state.node_name), Escape::Json)),
            ",\"ssh_key_count\":"@,
        ),
        stands_between(
            status_json(state, keys, happs, running, uptime),
            ",\"ssh_key_count\":"@,
            dec(keys.len()),
            ",\"ssh_keys\":["@,
        ),
        stands_between(
            status_json(state, keys, happs, running, uptime),
            ",\"ssh_keys\":["@,
            keys_json(keys),
            "],\"uptime_secs\":"@,
        ),
        stands_between(
            status_json(state, keys, happs, running, uptime),
            "],\"uptime_secs\":"@,
            dec(uptime),
            ",\"has_seed_phrase\":"@,
        ),
        stands_between(
            status_json(state, keys, happs, running, uptime),
            ",\"has_seed_phrase\":"@,
            either(state.seed_hash.len() > 0, "true"@, "false"@),
            "}"@,
        ),
{
    let text = status_json(state, keys, happs, running, uptime);
    let p0 = "{"@;
    let p1 = keyed("version"@) + quoted(escaped("6.2.1"@, Escape::Json));
    let p2 = ","@;
    let p3 = keyed("node_name"@) + quoted(escaped(state.node_name, Escape::Json));
    let p4 = ",\"hw_mode\":\""@;
    let p5 = state.hw_mode;
    let p6 = "\","@;
    let p7 = keyed("unyt_agent_id"@) + quoted(escaped(state.unyt_agent_id, Escape::Json));
    let p8 = ","@;
    let p9 = keyed("log_sender_endpoint"@) + quoted(
        escaped(state.log_sender_endpoint, Escape::Json),
    );
    let p10 = ",\"edgenode_running\":"@;
    let p11 = either(running, "true"@, "false"@);
    let p12 = ",\"happs_count\":"@;
    let p13 = dec(happs);
    let p14 = ","@;
    let p15 = keyed("wt_client_name"@) + quoted(
        escaped(
            wt_client_name(state.node_name, state.unyt_agent_id, state.wt_suffix),
            Escape::Json,
        ),
    );
    let p16 = ","@;
    let p17 = keyed("wt_hostname"@) + quoted(escaped(wt_hostname(state.node_name), Escape::Json));
    let p18 = ",\"ssh_key_count\":"@;
    let p19 = dec(keys.len());
    let p20 = ",\"ssh_keys\":["@;
    let p21 = keys_json(keys);
    let p22 = "],\"uptime_secs\":"@;
    let p23 = dec(uptime);
    let p24 = ",\"has_seed_phrase\":"@;
    let p25 = either(state.seed_hash.len() > 0, "true"@, "false"@);
    let p26 = "}"@;
    let l0 = p0;
    let l1 = l0 + p1;
    let l2 = l1 + p2;
    let l3 = l2 + p3;
    let l4 = l3 + p4;
    let l5 = l4 + p5;
    let l6 = l5 + p6;
    let l7 = l6 + p7;
    let l8 = l7 + p8;
    let l9 = l8 + p9;
    let l10 = l9 + p10;
    let l11 = l10 + p11;
    let l12 = l11 + p12;
    let l13 = l12 + p13;
    let l14 = l13 + p14;
    let l15 = l14 + p15;
    let l16 = l15 + p16;
    let l17 = l16 + p17;
    let l18 = l17 + p18;
    let l19 = l18 + p19;
    let l20 = l19 + p20;
    let l21 = l20 + p21;
    let l22 = l21 + p22;
    let l23 = l22 + p23;
    let l24 = l23 + p24;
    let l25 = l24 + p25;
    let l26 = l25 + p26;
    assert(text == l26);
    lemma_begins_self(text);
    lemma_begins_less(text, l25, p26);
    lemma_begins_less(text, l24, p25);
    lemma_begins_less(text, l23, p24);
    lemma_begins_less(text, l22, p23);
    lemma_begins_less(text, l21, p22);
    lemma_begins_less(text, l20, p21);
    lemma_begins_less(text, l19, p20);
    lemma_begins_less(text, l18, p19);
    lemma_begins_less(text, l17, p18);
    lemma_begins_less(text, l16, p17);
    lemma_begins_less(text, l15, p16);
    lemma_begins_less(text, l14, p15);
    lemma_begins_less(text, l13, p14);
    lemma_begins_less(text, l12, p13);
    lemma_begins_less(text, l11, p12);
    lemma_begins_less(text, l10, p11);
    lemma_begins_less(text, l9, p10);
    lemma_begins_less(text, l8, p9);
    lemma_begins_less(text, l7, p8);
    lemma_begins_less(text, l6, p7);
    lemma_begins_less(text, l5, p6);
    lemma_begins_less(text, l4, p5);
    lemma_begins_less(text, l3, p4);
    lemma_begins_less(text, l2, p3);
    lemma_begins_less(text, l1, p2);
    lemma_begins_less(text, l0, p1);
    lemma_stands_first(text, p0, p1, p2);
    lemma_stands(text, l1, p2, p3, p4);
    lemma_stands(text, l3, p4, p5, p6);
    lemma_stands(text, l5, p6, p7, p8);
    lemma_stands(text, l7, p8, p9, p10);
    lemma_stands(text, l9, p10, p11, p12);
    lemma_stands(text, l11, p12, p13, p14);
    lemma_stands(text, l13, p14, p15, p16);
    lemma_stands(text, l15, p16, p17, p18);
    lemma_stands(text, l17, p18, p19, p20);
    lemma_stands(text, l19, p20, p21, p22);
    lemma_stands(text, l21, p22, p23, p24);
    lemma_stands(text, l23, p24, p25, p26);
}

// ---------------------------------------------------------------------------
// The management page
// ---------------------------------------------------------------------------

/// The head of the page shows the name of the node, the version, its address, how long
/// it has been up, its mode, and whether it has an Agent ID.
#[verifier::spinoff_prover]
pub proof fn law_page_head_shows(state: StateView, uptime: nat, ip: Seq<char>)
    ensures
        stands_between(
            page_head(state, uptime, ip),
            TO_TITLE@,
            escaped(state.node_name, Escape::Html),
            TO_STYLE@,
        ),
        stands_between(
            page_head(state, uptime, ip),
            TO_HEADING@,
            escaped(state.node_name, Escape::Html),
            TO_VERSION@,
        ),
        stands_between(page_head(state, uptime, ip), TO_VERSION@, "6.2.1"@, TO_ADDRESS@),
        stands_between(
            page_head(state, uptime, ip),
            TO_ADDRESS@,
            escaped(ip, Escape::Html),
            TO_UPTIME@,
        ),
        stands_between(page_head(state, uptime, ip), TO_UPTIME@, uptime_text(uptime), TO_MODE@),
        stands_between(
            page_head(state, uptime, ip),
            TO_MODE@,
            either(state.hw_mode == "WIND_TUNNEL"@, "Wind Tunnel"@, "EdgeNode"@),
            TO_AGENT_STATE@,
        ),
        stands_between(
            page_head(state, uptime, ip),
            TO_AGENT_STATE@,
            either(state.unyt_agent_id.len() == 0, "not set"@, "set"@),
            Seq::<char>::empty(),
        ),
{
    let text = page_head(state, uptime, ip);
    let p0 = TO_TITLE@;
    let p1 = escaped(state.node_name, Escape::Html);
    let p2 = TO_STYLE@;
    let p3 = COMMON_CSS@;
    let p4 = TO_HEADING@;
    let p5 = escaped(state.node_name, Escape::Html);
    let p6 = TO_VERSION@;
    let p7 = "6.2.1"@;
    let p8 = TO_ADDRESS@;
    let p9 = escaped(ip, Escape::Html);
    let p10 = TO_UPTIME@;
    let p11 = uptime_text(uptime);
    let p12 = TO_MODE@;
    let p13 = either(state.hw_mode == "WIND_TUNNEL"@, "Wind Tunnel"@, "EdgeNode"@);
    let p14 = TO_AGENT_STATE@;
    let p15 = either(state.unyt_agent_id.len() == 0, "not set"@, "set"@);
    let p16 = Seq::<char>::empty();
    let l0 = p0;
    let l1 = l0 + p1;
    let l2 = l1 + p2;
    let l3 = l2 + p3;
    let l4 = l3 + p4;
    let l5 = l4 + p5;
    let l6 = l5 + p6;
    let l7 = l6 + p7;
    let l8 = l7 + p8;
    let l9 = l8 + p9;
    let l10 = l9 + p10;
    let l11 = l10 + p11;
    let l12 = l11 + p12;
    let l13 = l12 + p13;
    let l14 = l13 + p14;
    let l15 = l14 + p15;
    let l16 = l15 + p16;
    assert(l15 + p16 =~= l15);
    assert(text == l16);
    lemma_begins_self(text);
    lemma_begins_less(text, l15, p16);
    lemma_begins_less(text, l14, p15);
    lemma_begins_less(text, l13, p14);
    lemma_begins_less(text, l12, p13);
    lemma_begins_less(text, l11, p12);
    lemma_begins_less(text, l10, p11);
    lemma_begins_less(text, l9, p10);
    lemma_begins_less(text, l8, p9);
    lemma_begins_less(text, l7, p8);
    lemma_begins_less(text, l6, p7);
    lemma_begins_less(text, l5, p6);
    lemma_begins_less(text, l4, p5);
    lemma_begins_less(text, l3, p4);
    lemma_begins_less(text, l2, p3);
    lemma_begins_less(text, l1, p2);
    lemma_begins_less(text, l0, p1);
    lemma_stands_first(text, p0, p1, p2);
    lemma_stands(text, l3, p4, p5, p6);
    lemma_stands(text, l5, p6, p7, p8);
    lemma_stands(text, l7, p8, p9, p10);
    lemma_stands(text, l9, p10, p11, p12);
    lemma_stands(text, l11, p12, p13, p14);
    lemma_stands(text, l13, p14, p15, p16);
}

/// The settings on the page: the notice about the seed phrase exactly where the node has
/// none, its name, its mode with the choice that is made, and its Agent ID.
#[verifier::spinoff_prover]
pub proof fn law_page_settings_show(state: StateView)
    ensures
        stands_between(
            page_settings(state),
            TO_SEED_NOTICE@,
            either(state.seed_hash.len() == 0, SEED_NOTICE@, ""@),
            TO_NAME_VALUE@,
        ),
        stands_between(
            page_settings(state),
            TO_NAME_VALUE@,
            escaped(state.node_name, Escape::Html),
            TO_MODE_BADGE@,
        ),
        stands_between(
            page_settings(state),
            TO_MODE_BADGE@,
            either(state.hw_mode == "WIND_TUNNEL"@, "Wind Tunnel"@, "EdgeNode"@),
            TO_STANDARD_CLASS@,
        ),
        stands_between(
            page_settings(state),
            TO_STANDARD_CLASS@,
            either(state.hw_mode == "WIND_TUNNEL"@, ""@, " sel"@),
            TO_WIND_TUNNEL_CLASS@,
        ),
        stands_between(
            page_settings(state),
            TO_WIND_TUNNEL_CLASS@,
            either(state.hw_mode == "WIND_TUNNEL"@, " sel"@, ""@),
            TO_AGENT_CLASS@,
        ),
        stands_between(
            page_settings(state),
            TO_AGENT_CLASS@,
            either(state.unyt_agent_id.len() == 0, "badge-gray"@, "badge-green"@),
            TO_AGENT_BADGE@,
        ),
        stands_between(
            page_settings(state),
            TO_AGENT_BADGE@,
            either(state.unyt_agent_id.len() == 0, "not set"@, "set"@),
            TO_AGENT_COPY@,
        ),
        stands_between(
            page_settings(state),
            TO_AGENT@,
            escaped(
                either(
                    state.unyt_agent_id.len() == 0,
                    "(not set — compensation unavailable)"@,
                    state.unyt_agent_id,
                ),
                Escape::Html,
            ),
            TO_AGENT_VALUE@,
        ),
        stands_between(
            page_settings(state),
            TO_AGENT_VALUE@,
            escaped(state.unyt_agent_id, Escape::Html),
            Seq::<char>::empty(),
        ),
{
    let text = page_settings(state);
    let p0 = TO_SEED_NOTICE@;
    let p1 = either(state.seed_hash.len() == 0, SEED_NOTICE@, ""@);
    let p2 = TO_NAME_VALUE@;
    let p3 = escaped(state.node_name, Escape::Html);
    let p4 = TO_MODE_BADGE@;
    let p5 = either(state.hw_mode == "WIND_TUNNEL"@, "Wind Tunnel"@, "EdgeNode"@);
    let p6 = TO_STANDARD_CLASS@;
    let p7 = either(state.hw_mode == "WIND_TUNNEL"@, ""@, " sel"@);
    let p8 = TO_WIND_TUNNEL_CLASS@;
    let p9 = either(state.hw_mode == "WIND_TUNNEL"@, " sel"@, ""@);
    let p10 = TO_AGENT_CLASS@;
    let p11 = either(state.unyt_agent_id.len() == 0, "badge-gray"@, "badge-green"@);
    let p12 = TO_AGENT_BADGE@;
    let p13 = either(state.unyt_agent_id.len() == 0, "not set"@, "set"@);
    let p14 = TO_AGENT_COPY@;
    let p15 = UNYT_INFO_COPY@;
    let p16 = TO_AGENT@;
    let p17 = escaped(
        either(
            state.unyt_agent_id.len() == 0,
            "(not set — compensation unavailable)"@,
            state.unyt_agent_id,
        ),
        Escape::Html,
    );
    let p18 = TO_AGENT_VALUE@;
    let p19 = escaped(state.unyt_agent_id, Escape::Html);
    let p20 = Seq::<char>::empty();
    let l0 = p0;
    let l1 = l0 + p1;
    let l2 = l1 + p2;
    let l3 = l2 + p3;
    let l4 = l3 + p4;
    let l5 = l4 + p5;
    let l6 = l5 + p6;
    let l7 = l6 + p7;
    let l8 = l7 + p8;
    let l9 = l8 + p9;
    let l10 = l9 + p10;
    let l11 = l10 + p11;
    let l12 = l11 + p12;
    let l13 = l12 + p13;
    let l14 = l13 + p14;
    let l15 = l14 + p15;
    let l16 = l15 + p16;
    let l17 = l16 + p17;
    let l18 = l17 + p18;
    let l19 = l18 + p19;
    let l20 = l19 + p20;
    assert(l19 + p20 =~= l19);
    assert(text == l20);
    lemma_begins_self(text);
    lemma_begins_less(text, l19, p20);
    lemma_begins_less(text, l18, p19);
    lemma_begins_less(text, l17, p18);
    lemma_begins_less(text, l16, p17);
    lemma_begins_less(text, l15, p16);
    lemma_begins_less(text, l14, p15);
    lemma_begins_less(text, l13, p14);
    lemma_begins_less(text, l12, p13);
    lemma_begins_less(text, l11, p12);
    lemma_begins_less(text, l10, p11);
    lemma_begins_less(text, l9, p10);
    lemma_begins_less(text, l8, p9);
    lemma_begins_less(text, l7, p8);
    lemma_begins_less(text, l6, p7);
    lemma_begins_less(text, l5, p6);
    lemma_begins_less(text, l4, p5);
    lemma_begins_less(text, l3, p4);
    lemma_begins_less(text, l2, p3);
    lemma_begins_less(text, l1, p2);
    lemma_begins_less(text, l0, p1);
    lemma_stands_first(text, p0, p1, p2);
    lemma_stands(text, l1, p2, p3, p4);
    lemma_stands(text, l3, p4, p5, p6);
    lemma_stands(text, l5, p6, p7, p8);
    lemma_stands(text, l7, p8, p9, p10);
    lemma_stands(text, l9, p10, p11, p12);
    lemma_stands(text, l11, p12, p13, p14);
    lemma_stands(text, l15, p16, p17, p18);
    lemma_stands(text, l17, p18, p19, p20);
}

/// The part about access: the notice about applications, how many keys there are, and
/// the keys.
#[verifier::spinoff_prover]
pub proof fn law_page_access_shows(state: StateView, keys: Seq<Seq<char>>, running: bool)
    ensures
        stands_between(
            page_access(state, keys, running),
            TO_HAPPS_NOTICE@,
            either(
                state.hw_mode == "WIND_TUNNEL"@,
                HAPPS_WRONG_MODE@,
                either(running, ""@, HAPPS_NOT_RUNNING@),
            ),
            TO_KEY_COUNT@,
        ),
        stands_between(
            page_access(state, keys, running),
            TO_KEY_COUNT@,
            dec(keys.len()),
            TO_KEY_PLURAL@,
        ),
        stands_between(
            page_access(state, keys, running),
            TO_KEY_PLURAL@,
            either(keys.len() == 1, ""@, "s"@),
            TO_KEYS@,
        ),
        stands_between(
            page_access(state, keys, running),
            TO_KEYS@,
            keys_html(keys),
            Seq::<char>::empty(),
        ),
{
    let text = page_access(state, keys, running);
    let p0 = TO_HAPPS_NOTICE@;
    let p1 = either(
        state.hw_mode == "WIND_TUNNEL"@,
        HAPPS_WRONG_MODE@,
        either(running, ""@, HAPPS_NOT_RUNNING@),
    );
    let p2 = TO_KEY_COUNT@;
    let p3 = dec(keys.len());
    let p4 = TO_KEY_PLURAL@;
    let p5 = either(keys.len() == 1, ""@, "s"@);
    let p6 = TO_KEYS@;
    let p7 = keys_html(keys);
    let p8 = Seq::<char>::empty();
    let l0 = p0;
    let l1 = l0 + p1;
    let l2 = l1 + p2;
    let l3 = l2 + p3;
    let l4 = l3 + p4;
    let l5 = l4 + p5;
    let l6 = l5 + p6;
    let l7 = l6 + p7;
    let l8 = l7 + p8;
    assert(l7 + p8 =~= l7);
    assert(text == l8);
    lemma_begins_self(text);
    lemma_begins_less(text, l7, p8);
    lemma_begins_less(text, l6, p7);
    lemma_begins_less(text, l5, p6);
    lemma_begins_less(text, l4, p5);
    lemma_begins_less(text, l3, p4);
    lemma_begins_less(text, l2, p3);
    lemma_begins_less(text, l1, p2);
    lemma_begins_less(text, l0, p1);
    lemma_stands_first(text, p0, p1, p2);
    lemma_stands(text, l1, p2, p3, p4);
    lemma_stands(text, l3, p4, p5, p6);
    lemma_stands(text, l5, p6, p7, p8);
}

/// The end of the page: the log collector, how the Wind Tunnel is run and where its
/// status is shown, the settings that were saved for it, the version, and mode and name
/// for the script.
#[verifier::spinoff_prover]
pub proof fn law_page_end_shows(state: StateView, site: SiteView)
    ensures
        stands_between(
            page_end(state, site),
            TO_ENDPOINT_VALUE@,
            escaped(state.log_sender_endpoint, Escape::Html),
            TO_HOSTNAME@,
        ),
        stands_between(
            page_end(state, site),
            TO_HOSTNAME@,
            escaped(wt_hostname(state.node_name), Escape::Html),
            TO_IMAGE@,
        ),
        stands_between(
            page_end(state, site),
            TO_IMAGE@,
            escaped(config_at(state, site).image, Escape::Html),
            TO_ENTRYPOINT@,
        ),
        stands_between(
            page_end(state, site),
            TO_ENTRYPOINT@,
            escaped(or_else(config_at(state, site).entrypoint_bind, "(none)"@), Escape::Html),
            TO_STATUS_LINK@,
        ),
        stands_between(
            page_end(state, site),
            TO_STATUS_LINK@,
            escaped(status_url(wt_hostname(state.node_name)), Escape::Html),
            TO_IMAGE_VALUE@,
        ),
        stands_between(
            page_end(state, site),
            TO_IMAGE_VALUE@,
            escaped(state.wt_image_override, Escape::Html),
            TO_ENTRYPOINT_VALUE@,
        ),
        stands_between(
            page_end(state, site),
            TO_ENTRYPOINT_VALUE@,
            escaped(state.wt_entrypoint_bind, Escape::Html),
            TO_VERSION_BADGE@,
        ),
        stands_between(page_end(state, site), TO_VERSION_BADGE@, "6.2.1"@, TO_SCRIPT_MODE@),
        stands_between(page_end(state, site), TO_SCRIPT_MODE@, state.hw_mode, TO_SCRIPT_NAME@),
        stands_between(
            page_end(state, site),
            TO_SCRIPT_NAME@,
            escaped(state.node_name, Escape::Script),
            TO_END@,
        ),
{
    let text = page_end(state, site);
    let p0 = TO_ENDPOINT_VALUE@;
    let p1 = escaped(state.log_sender_endpoint, Escape::Html);
    let p2 = TO_HOSTNAME@;
    let p3 = escaped(wt_hostname(state.node_name), Escape::Html);
    let p4 = TO_IMAGE@;
    let p5 = escaped(config_at(state, site).image, Escape::Html);
    let p6 = TO_ENTRYPOINT@;
    let p7 = escaped(or_else(config_at(state, site).entrypoint_bind, "(none)"@), Escape::Html);
    let p8 = TO_STATUS_LINK@;
    let p9 = escaped(status_url(wt_hostname(state.node_name)), Escape::Html);
    let p10 = TO_IMAGE_VALUE@;
    let p11 = escaped(state.wt_image_override, Escape::Html);
    let p12 = TO_ENTRYPOINT_VALUE@;
    let p13 = escaped(state.wt_entrypoint_bind, Escape::Html);
    let p14 = TO_VERSION_BADGE@;
    let p15 = "6.2.1"@;
    let p16 = TO_SCRIPT_MODE@;
    let p17 = state.hw_mode;
    let p18 = TO_SCRIPT_NAME@;
    let p19 = escaped(state.node_name, Escape::Script);
    let p20 = TO_END@;
    let l0 = p0;
    let l1 = l0 + p1;
    let l2 = l1 + p2;
    let l3 = l2 + p3;
    let l4 = l3 + p4;
    let l5 = l4 + p5;
    let l6 = l5 + p6;
    let l7 = l6 + p7;
    let l8 = l7 + p8;
    let l9 = l8 + p9;
    let l10 = l9 + p10;
    let l11 = l10 + p11;
    let l12 = l11 + p12;
    let l13 = l12 + p13;
    let l14 = l13 + p14;
    let l15 = l14 + p15;
    let l16 = l15 + p16;
    let l17 = l16 + p17;
    let l18 = l17 + p18;
    let l19 = l18 + p19;
    let l20 = l19 + p20;
    assert(text == l20);
    lemma_begins_self(text);
    lemma_begins_less(text, l19, p20);
    lemma_begins_less(text, l18, p19);
    lemma_begins_less(text, l17, p18);
    lemma_begins_less(text, l16, p17);
    lemma_begins_less(text, l15, p16);
    lemma_begins_less(text, l14, p15);
    lemma_begins_less(text, l13, p14);
    lemma_begins_less(text, l12, p13);
    lemma_begins_less(text, l11, p12);
    lemma_begins_less(text, l10, p11);
    lemma_begins_less(text, l9, p10);
    lemma_begins_less(text, l8, p9);
    lemma_begins_less(text, l7, p8);
    lemma_begins_less(text, l6, p7);
    lemma_begins_less(text, l5, p6);
    lemma_begins_less(text, l4, p5);
    lemma_begins_less(text, l3, p4);
    lemma_begins_less(text, l2, p3);
    lemma_begins_less(text, l1, p2);
    lemma_begins_less(text, l0, p1);
    lemma_stands_first(text, p0, p1, p2);
    lemma_stands(text, l1, p2, p3, p4);
    lemma_stands(text, l3, p4, p5, p6);
    lemma_stands(text, l5, p6, p7, p8);
    lemma_stands(text, l7, p8, p9, p10);
    lemma_stands(text, l9, p10, p11, p12);
    lemma_stands(text, l11, p12, p13, p14);
    lemma_stands(text, l13, p14, p15, p16);
    lemma_stands(text, l15, p16, p17, p18);
    lemma_stands(text, l17, p18, p19, p20);
}

/// The page is made of its four parts, in order, and nothing else.
pub proof fn law_page_parts(
    state: StateView,
    keys: Seq<Seq<char>>,
    uptime: nat,
    ip: Seq<char>,
    site: SiteView,
    running: bool,
)
    ensures
        manage_page(state, keys, uptime, ip, site, running) == page_head(state, uptime, ip)
            + page_settings(state) + page_access(state, keys, running) + page_end(state, site),
{
}

/// The row of a key: its kind is its first word, its value is shown whole or by its
/// first 72 bytes, and its button names its place.
pub open spec fn is_row_of(row: Seq<char>, key: Seq<char>, place: nat) -> bool {
    exists|kind: Seq<char>, value: Seq<char>|
        {
            &&& #[trigger] row_with(kind, value, place) == row
            &&& words(key).len() > 0 ==> kind == words(key)[0]
            &&& byte_len(key) <= 72 ==> value == key
            &&& byte_len(key) > 72 && key_cuttable(key) ==> exists|start: Seq<char>|
                #[trigger] begins_text(key, start) && byte_len(start) == 72 && value == start
                    + "…"@
        }
}

/// One text begins with another.
pub open spec fn begins_text(text: Seq<char>, start: Seq<char>) -> bool {
    start.len() <= text.len() && text.take(start.len() as int) == start
}

/// A row with a kind, a value and a place.
pub open spec fn row_with(kind: Seq<char>, value: Seq<char>, place: nat) -> Seq<char> {
    "<div class=\"key-row\"><span class=\"key-type\">"@ + escaped(kind, Escape::Html)
        + "</span><span class=\"key-val\">"@ + escaped(value, Escape::Html)
        + "</span><button class=\"btn btn-danger btn-sm\" onclick=\"removeKey("@ + dec(place)
        + ")\">Remove</button></div>"@
}

proof fn lemma_key_row(key: Seq<char>, place: nat)
    ensures
        is_row_of(key_row(key, place), key, place),
{
    let kind = if words(key).len() == 0 {
        "key"@
    } else {
        words(key)[0]
    };
    let value = shortened(key);
    assert(row_with(kind, value, place) == key_row(key, place));
    if byte_len(key) > 72 && key_cuttable(key) {
        law_bytes_come_apart(key, 72);
        let start = bytes_before(key, 72);
        let all = start + bytes_after(key, 72);
        assert(all.take(start.len() as int) =~= start);
        assert(begins_text(key, start));
        assert(value == start + "…"@);
    }
}

/// The list of keys is one row for each key, in order, with its own place, and nothing
/// else; without keys there is a notice.
pub proof fn law_one_row_for_each_key(keys: Seq<Seq<char>>) -> (rows: Seq<Seq<char>>)
    ensures
        rows.len() == keys.len(),
        forall|i: int| 0 <= i < keys.len() ==> is_row_of(#[trigger] rows[i], keys[i], i as nat),
        keys.len() > 0 ==> keys_html(keys) == rows.fold_left(
            Seq::<char>::empty(),
            |text: Seq<char>, row: Seq<char>| text + row,
        ),
        key_rows(keys) == rows.fold_left(
            Seq::<char>::empty(),
            |text: Seq<char>, row: Seq<char>| text + row,
        ),
        keys.len() == 0 ==> keys_html(keys)
            == "<div class=\"no-keys\">No SSH keys configured. Add one below to enable SSH access.</div>"@,
    decreases keys.len(),
{
    let f = |text: Seq<char>, row: Seq<char>| text + row;
    if keys.len() == 0 {
        let rows = Seq::<Seq<char>>::empty();
        assert(key_rows(keys) =~= rows.fold_left(Seq::<char>::empty(), f));
        rows
    } else {
        let before = keys.drop_last();
        let place = (keys.len() - 1) as nat;
        let some = law_one_row_for_each_key(before);
        let row = key_row(keys.last(), place);
        lemma_key_row(keys.last(), place);
        let rows = some.push(row);
        assert(rows.drop_last() =~= some);
        assert forall|i: int| 0 <= i < keys.len() implies is_row_of(
            #[trigger] rows[i],
            keys[i],
            i as nat,
        ) by {
            if i < before.len() {
                assert(rows[i] == some[i]);
                assert(before[i] == keys[i]);
            }
        }
        assert(rows.fold_left(Seq::<char>::empty(), f) == f(
            some.fold_left(Seq::<char>::empty(), f),
            row,
        ));
        rows
    }
}

// ---------------------------------------------------------------------------
// The other pages
// ---------------------------------------------------------------------------

/// The login page has the message about a wrong password exactly after one: the page
/// with it is the page without it and the message between.
pub proof fn law_login_message()
    ensures
        exists|a: Seq<char>, b: Seq<char>| #[trigger] login_pages(a, b),
{
    let a = LOGIN_HEAD@ + COMMON_CSS@ + LOGIN_MIDDLE@;
    let b = LOGIN_END@;
    reveal_strlit("");
    assert(""@ =~= Seq::<char>::empty());
    assert(login_page(false) =~= a + b);
    assert(login_pages(a, b));
}

/// What the two login pages begin and end with.
pub open spec fn login_pages(a: Seq<char>, b: Seq<char>) -> bool {
    &&& login_page(false) == a + b
    &&& login_page(true) == a
        + "<div class=\"err-box\">Incorrect password. Try again.</div>"@ + b
}

/// The setup page asks for a wireless network exactly where there is no wired one.
pub proof fn law_setup_network()
    ensures
        exists|a: Seq<char>, b: Seq<char>| #[trigger] setup_pages(a, b),
{
    let a = SETUP_HEAD@ + COMMON_CSS@ + SETUP_STYLE@;
    let b = SETUP_FORM@ + UNYT_INFO_COPY@ + SETUP_END@;
    assert(setup_page(true) =~= a + SETUP_WIFI@ + b);
    assert(setup_page(false) =~= a + SETUP_ETHERNET@ + b);
    assert(setup_pages(a, b));
}

/// What the two setup pages begin and end with.
pub open spec fn setup_pages(a: Seq<char>, b: Seq<char>) -> bool {
    &&& setup_page(true) == a + SETUP_WIFI@ + b
    &&& setup_page(false) == a + SETUP_ETHERNET@ + b
}

} // verus!
