//! What holds of the requests that set up and manage the node.
use vstd::prelude::*;

use crate::auth::{auth_record, challenge, hex_text, law_password_round_trip};
use crate::config::{
    agent_id_error, client_name_error, endpoint_error, entrypoint_error, entrypoint_path,
    hostname_error, image_error, is_alnum, law_hostname_fits, node_name_error, wt_client_name,
    wt_hostname, PathKind,
};
use crate::deployments::{deployment_json, joined, DeploymentView};
use crate::effects::EffectView;
use crate::escape::{escaped, Escape};
use crate::handlers::{
    agent_id_error_in, auth_kept, hostname_error_in, keys_json, names_error, new_password_text,
    password_error, password_step, recovery_step, seed_refusal, set_up, setting_in, submit_begun,
    submit_next, submit_prepared, submit_refused, tunnel_in_force, PasswordStepView,
};
use crate::happ_handlers::{item_json, items_json};
use crate::http::{PlanView, ReplyView};
use crate::images::arch_name;
use crate::json::{quoted, string_field};
use crate::number::{dec, hex, lemma_hex};
use crate::quadlet::{mode_applied, mode_asked, quadlets_written, suffix_kept, suffix_of, SiteView};
use crate::request_laws::joined_by;
use crate::split::trim;
use crate::ssh::{is_pubkey, keys_of, law_keys_round_trip, storable_key};
use crate::state::{key_updated, StateView};
use crate::store::text_of_pairs;
use crate::text::{byte_len, find_any, lemma_find_any_from, occurs, starts_with};

verus! {

// ---------------------------------------------------------------------------
// Lists with commas
// ---------------------------------------------------------------------------

/// One more text joined to others stands behind the separator.
pub proof fn lemma_joined_push(ps: Seq<Seq<char>>, sep: char)
    requires
        ps.len() > 1,
    ensures
        joined_by(ps, sep) == joined_by(ps.drop_last(), sep) + seq![sep] + ps.last(),
    decreases ps.len(),
{
    let front = ps.drop_last();
    if ps.len() == 2 {
        assert(ps.drop_first().len() == 1);
        assert(ps.drop_first()[0] == ps.last());
        assert(joined_by(ps.drop_first(), sep) == ps.last());
        assert(joined_by(front, sep) == ps[0]);
    } else {
        let more = ps.drop_first();
        lemma_joined_push(more, sep);
        assert(more.drop_last() =~= front.drop_first());
        assert(more.last() == ps.last());
        assert(front[0] == ps[0]);
        let a = ps[0] + seq![sep];
        let b = joined_by(more.drop_last(), sep);
        assert(joined_by(front, sep) == a + b);
        assert(joined_by(ps, sep) == a + joined_by(more, sep));
        assert(a + (b + seq![sep] + ps.last()) =~= a + b + seq![sep] + ps.last());
    }
}

/// The keys in the status are JSON strings with a comma between each two and nothing
/// else: one for each key, in order.
pub proof fn law_keys_are_joined(keys: Seq<Seq<char>>)
    ensures
        keys_json(keys) == joined_by(
            Seq::new(
                keys.len(),
                |i: int| seq!['"'] + escaped(keys[i], Escape::Json) + seq!['"'],
            ),
            ',',
        ),
    decreases keys.len(),
{
    let ps = Seq::new(
        keys.len(),
        |i: int| seq!['"'] + escaped(keys[i], Escape::Json) + seq!['"'],
    );
    if keys.len() > 1 {
        let front = keys.drop_last();
        law_keys_are_joined(front);
        lemma_joined_push(ps, ',');
        assert(ps.drop_last() =~= Seq::new(
            front.len(),
            |i: int| seq!['"'] + escaped(front[i], Escape::Json) + seq!['"'],
        ));
    }
}

/// The listed deployments have a comma between each two and nothing else: one object
/// for each, in order.
pub proof fn law_items_are_joined(
    ds: Seq<DeploymentView>,
    l: Seq<(Seq<char>, bool)>,
    now: nat,
)
    ensures
        items_json(ds, l, now) == joined_by(
            Seq::new(ds.len(), |i: int| item_json(ds[i], l, now)),
            ',',
        ),
    decreases ds.len(),
{
    let ps = Seq::new(ds.len(), |i: int| item_json(ds[i], l, now));
    reveal_strlit(",");
    assert(","@ =~= seq![',']);
    if ds.len() > 1 {
        let front = ds.drop_last();
        law_items_are_joined(front, l, now);
        lemma_joined_push(ps, ',');
        assert(ps.drop_last() =~= Seq::new(front.len(), |i: int| item_json(front[i], l, now)));
        assert(ps.last() == item_json(ds.last(), l, now));
    }
}

/// The deployments in their file have a comma between each two and nothing else: one
/// object for each, in order.
pub proof fn law_deployments_are_joined(ds: Seq<DeploymentView>)
    ensures
        joined(ds) == joined_by(Seq::new(ds.len(), |i: int| deployment_json(ds[i])), ','),
    decreases ds.len(),
{
    let ps = Seq::new(ds.len(), |i: int| deployment_json(ds[i]));
    if ds.len() > 1 {
        let front = ds.drop_last();
        law_deployments_are_joined(front);
        lemma_joined_push(ps, ',');
        assert(ps.drop_last() =~= Seq::new(front.len(), |i: int| deployment_json(front[i])));
        assert(ps.last() == deployment_json(ds.last()));
    }
}

// ---------------------------------------------------------------------------
// Names and settings
// ---------------------------------------------------------------------------

/// An Agent ID is in order exactly where, without white space round it, it is empty or
/// made of letters, digits and hyphens with no hyphen at either end.
pub proof fn law_agent_id(agent: Seq<char>)
    ensures
        agent_id_error(agent) is None <==> {
            let id = trim(agent);
            id.len() == 0 || (id[0] != '-' && id.last() != '-' && forall|i: int|
                0 <= i < id.len() ==> 'a' <= #[trigger] id[i] <= 'z' || 'A' <= id[i] <= 'Z' || '0'
                    <= id[i] <= '9' || id[i] == '-')
        },
        trim(agent).len() > 0 && (trim(agent)[0] == '-' || trim(agent).last() == '-')
            ==> agent_id_error(agent) == Some("Unyt Agent ID cannot start or end with a hyphen."@),
        trim(agent).len() > 0 && trim(agent)[0] != '-' && trim(agent).last() != '-' ==> (
        agent_id_error(agent) matches Some(msg) ==> msg
            == "Unyt Agent ID may only contain letters, numbers, and hyphens."@),
{
    let id = trim(agent);
    reveal_strlit("-");
    assert("-"@ =~= seq!['-']);
    assert("-"@[0] == '-');
    if agent_id_error(agent) is None && id.len() > 0 {
        assert forall|i: int| 0 <= i < id.len() implies 'a' <= #[trigger] id[i] <= 'z' || 'A'
            <= id[i] <= 'Z' || '0' <= id[i] <= '9' || id[i] == '-' by {
            assert(is_alnum(id[i]) || "-"@.contains(id[i]));
        }
    }
}

/// A node name is in order exactly where it is not empty and made of small letters,
/// digits and hyphens.
pub proof fn law_node_name(name: Seq<char>)
    ensures
        node_name_error(name) is None <==> name.len() > 0 && forall|i: int|
            0 <= i < name.len() ==> 'a' <= #[trigger] name[i] <= 'z' || '0' <= name[i] <= '9'
                || name[i] == '-',
        name.len() == 0 ==> node_name_error(name) == Some("Node name is required."@),
        name.len() > 0 ==> (node_name_error(name) matches Some(msg) ==> msg
            == "Node name must be lowercase letters, numbers and hyphens only."@),
{
}

/// In the ordinary mode a node name and an Agent ID are accepted together exactly
/// where the Agent ID is in order and both fit in 63 bytes with the hyphen between
/// them; where the Agent ID is blank, sixteen characters take its place.
pub proof fn law_names_in_ordinary_mode(mode: Seq<char>, name: Seq<char>, agent: Seq<char>)
    requires
        mode != "WIND_TUNNEL"@,
    ensures
        names_error(mode, name, agent) is None <==> agent_id_error(agent) is None && byte_len(name)
            + 1 + (if trim(agent).len() == 0 {
            16
        } else {
            byte_len(trim(agent))
        }) <= 63,
        agent_id_error_in(mode, name, agent) == names_error(mode, name, agent),
        hostname_error_in(mode, name) is None,
        agent_id_error(agent) is Some ==> names_error(mode, name, agent) == agent_id_error(agent),
{
}

/// A client name that is too long is refused with the length that would do: a name of
/// that many bytes is accepted, and a longer one is not.
pub proof fn law_client_name_limit(name: Seq<char>, agent: Seq<char>, most: nat)
    requires
        agent_id_error(agent) is None,
        most == 63 - 1 - (if trim(agent).len() == 0 {
            16
        } else {
            byte_len(trim(agent)) as int
        }),
    ensures
        client_name_error(name, agent) is None <==> byte_len(name) <= most,
        byte_len(name) > most ==> client_name_error(name, agent) == Some(
            "Wind Tunnel client name would exceed "@ + dec(63) + " characters (node name + "@ + (
            if trim(agent).len() == 0 {
                "random tracking suffix"@
            } else {
                "full Agent ID"@
            }) + "). Shorten node name to at most "@ + dec(most) + " characters."@,
        ),
{
}

/// A host name that is too long is refused with the length that would do.
pub proof fn law_hostname_limit(name: Seq<char>)
    ensures
        hostname_error(name) is None <==> byte_len(name) <= 50,
        byte_len(name) > 50 ==> hostname_error(name) == Some(
            "Wind Tunnel hostname would exceed "@ + dec(63)
                + " characters. Shorten node name to at most "@ + dec(50) + " characters."@,
        ),
{
    law_hostname_fits(name);
}

/// Only the one word asks for the Wind Tunnel; every other one means the ordinary mode.
pub proof fn law_mode_asked(word: Seq<char>)
    ensures
        word == "WIND_TUNNEL"@ ==> mode_asked(word) == "WIND_TUNNEL"@,
        word != "WIND_TUNNEL"@ ==> mode_asked(word) == "STANDARD"@,
{
}

/// The name of the hardware is what was printed, without white space round it; where
/// nothing can be asked it is the usual one.
pub proof fn law_hardware_name(output: Seq<char>)
    ensures
        arch_name(Some(output)) == trim(output),
        arch_name(None) == "x86_64"@,
{
}

/// The client name of a node is its name, a hyphen, and the Agent ID or, where that is
/// blank, the suffix; its host name in the Wind Tunnel is made of its name alone.
pub proof fn law_made_names(name: Seq<char>, agent: Seq<char>, suffix: Seq<char>)
    ensures
        trim(agent).len() > 0 ==> wt_client_name(name, agent, suffix) == name + "-"@ + trim(agent),
        trim(agent).len() == 0 ==> wt_client_name(name, agent, suffix) == name + "-"@ + suffix,
        wt_hostname(name) == "nomad-client-"@ + name,
{
    reveal_strlit("-");
    assert("-"@ =~= seq!['-']);
}

/// An image is in order exactly where, without white space round it, it is empty or
/// has a colon and nothing but letters, digits and the characters of image names.
pub proof fn law_image(image: Seq<char>)
    ensures
        image_error(image) is None <==> {
            let i = trim(image);
            i.len() == 0 || (i.contains(':') && forall|k: int|
                0 <= k < i.len() ==> 'a' <= #[trigger] i[k] <= 'z' || 'A' <= i[k] <= 'Z' || '0'
                    <= i[k] <= '9' || i[k] == '/' || i[k] == ':' || i[k] == '.' || i[k] == '_'
                    || i[k] == '-' || i[k] == '@')
        },
{
    let i = trim(image);
    let bad = ";|`$\n "@;
    let good = "/:._-@"@;
    reveal_strlit(";|`$\n ");
    reveal_strlit("/:._-@");
    reveal_strlit(":");
    assert(bad =~= seq![';', '|', '`', '$', '\n', ' ']);
    assert(good =~= seq!['/', ':', '.', '_', '-', '@']);
    assert(":"@ =~= seq![':']);
    assert(":"@[0] == ':');
    assert(good[0] == '/' && good[1] == ':' && good[2] == '.' && good[3] == '_' && good[4] == '-'
        && good[5] == '@');
    lemma_find_any_from(i, bad, 0);
    lemma_find_any_from(i, ":"@, 0);
    if image_error(image) is None && i.len() > 0 {
        let p = find_any(i, ":"@)->0;
        assert(i[p] == ':');
        assert forall|k: int| 0 <= k < i.len() implies 'a' <= #[trigger] i[k] <= 'z' || 'A' <= i[k]
            <= 'Z' || '0' <= i[k] <= '9' || i[k] == '/' || i[k] == ':' || i[k] == '.' || i[k] == '_'
            || i[k] == '-' || i[k] == '@' by {
            assert(is_alnum(i[k]) || good.contains(i[k]));
        }
    }
    if i.contains(':') && forall|k: int|
        0 <= k < i.len() ==> 'a' <= #[trigger] i[k] <= 'z' || 'A' <= i[k] <= 'Z' || '0' <= i[k]
            <= '9' || i[k] == '/' || i[k] == ':' || i[k] == '.' || i[k] == '_' || i[k] == '-'
            || i[k] == '@' {
        let c = choose|c: int| 0 <= c < i.len() && i[c] == ':';
        assert(":"@.contains(i[c]));
        match find_any(i, bad) {
            Some(p) => {
                assert(bad.contains(i[p]));
            },
            None => {},
        }
        assert forall|k: int| 0 <= k < i.len() implies is_alnum(#[trigger] i[k]) || good.contains(
            i[k],
        ) by {}
    }
}

/// An image that is not in order is refused for the characters of the shell in it first,
/// then for the tag that it lacks, and then for other characters.
pub proof fn law_image_refused(image: Seq<char>)
    requires
        trim(image).len() > 0,
    ensures
        ({
            let i = trim(image);
            let shell = i.contains(';') || i.contains('|') || i.contains('`') || i.contains('$')
                || i.contains('\n') || i.contains(' ');
            &&& shell ==> image_error(image) == Some(
                "Image override contains invalid characters."@,
            )
            &&& !shell && !i.contains(':') ==> image_error(image) == Some(
                "Image override must include a tag (e.g. registry/image:tag)."@,
            )
            &&& !shell && i.contains(':') ==> (image_error(image) matches Some(msg) ==> msg
                == "Image override has invalid characters."@)
        }),
{
    let i = trim(image);
    let bad = ";|`$\n "@;
    reveal_strlit(";|`$\n ");
    reveal_strlit(":");
    assert(bad =~= seq![';', '|', '`', '$', '\n', ' ']);
    assert(bad[0] == ';' && bad[1] == '|' && bad[2] == '`' && bad[3] == '$' && bad[4] == '\n'
        && bad[5] == ' ');
    assert(":"@ =~= seq![':']);
    assert(":"@[0] == ':');
    lemma_find_any_from(i, bad, 0);
    lemma_find_any_from(i, ":"@, 0);
    match find_any(i, bad) {
        Some(p) => {
            assert(i.contains(i[p]));
        },
        None => {
            assert forall|k: int| 0 <= k < i.len() implies #[trigger] i[k] != ';' && i[k] != '|'
                && i[k] != '`' && i[k] != '$' && i[k] != '\n' && i[k] != ' ' by {
                assert(!bad.contains(i[k]));
            }
        },
    }
    match find_any(i, ":"@) {
        Some(p) => {
            assert(i.contains(i[p]));
        },
        None => {
            assert forall|k: int| 0 <= k < i.len() implies #[trigger] i[k] != ':' by {
                assert(!":"@.contains(i[k]));
            }
        },
    }
}

/// An entrypoint is accepted exactly where, without white space round it, it is empty,
/// or it lies under the home directory and a regular file stands there. Only a path
/// under the home directory is looked at.
pub proof fn law_entrypoint(path: Seq<char>, found: PathKind)
    ensures
        entrypoint_error(path, found) is None <==> trim(path).len() == 0 || (starts_with(
            trim(path),
            "/home/holo/"@,
        ) && found == PathKind::File),
        entrypoint_path(path) is Some <==> trim(path).len() > 0 && starts_with(
            trim(path),
            "/home/holo/"@,
        ),
        entrypoint_path(path) matches Some(p) ==> p == trim(path),
        starts_with(trim(path), "/home/holo/"@) && trim(path).len() > 0 && found
            == PathKind::Missing ==> entrypoint_error(path, found) == Some(
            "Entrypoint file not found: "@ + trim(path),
        ),
        starts_with(trim(path), "/home/holo/"@) && trim(path).len() > 0 && found == PathKind::Other
            ==> entrypoint_error(path, found) == Some(
            "Entrypoint bind must point to a regular file."@,
        ),
        trim(path).len() > 0 && !starts_with(trim(path), "/home/holo/"@) ==> entrypoint_error(
            path,
            found,
        ) == Some("Entrypoint bind must be under /home/holo/."@),
{
}

/// The address of a log collector is accepted exactly where, without white space round
/// it, it is empty, or it begins with `http://` or `https://` and has neither spaces
/// nor line feeds nor quotes in it.
pub proof fn law_endpoint(url: Seq<char>)
    ensures
        endpoint_error(url) is None <==> {
            let u = trim(url);
            u.len() == 0 || ((starts_with(u, "http://"@) || starts_with(u, "https://"@))
                && !u.contains(' ') && !u.contains('\n') && !u.contains('"') && !u.contains('\''))
        },
        trim(url).len() > 0 && !starts_with(trim(url), "http://"@) && !starts_with(
            trim(url),
            "https://"@,
        ) ==> endpoint_error(url) == Some("Log Collector URL must start with http:// or https://"@),
        starts_with(trim(url), "http://"@) || starts_with(trim(url), "https://"@) ==> (
        endpoint_error(url) matches Some(msg) ==> msg
            == "Log Collector URL contains invalid characters."@),
{
    let u = trim(url);
    let bad = " \n\"'"@;
    reveal_strlit(" \n\"'");
    assert(bad =~= seq![' ', '\n', '"', '\'']);
    assert(bad[0] == ' ' && bad[1] == '\n' && bad[2] == '"' && bad[3] == '\'');
    lemma_find_any_from(u, bad, 0);
    match find_any(u, bad) {
        Some(p) => {
            assert(u.contains(u[p]));
        },
        None => {
            assert forall|j: int| 0 <= j < u.len() implies #[trigger] u[j] != ' ' && u[j] != '\n'
                && u[j] != '"' && u[j] != '\'' by {
                assert(!bad.contains(u[j]));
            }
        },
    }
}

/// A setting that a request names is taken without white space round it; one that it
/// does not name is left alone.
pub proof fn law_setting_in_request(body: Seq<char>, key: Seq<char>)
    ensures
        setting_in(body, key) is Some <==> occurs(body, seq!['"'] + key + seq!['"']),
        setting_in(body, key) matches Some(v) ==> v == trim(string_field(body, key)),
{
}

/// A password is accepted exactly where it has at least eight characters.
pub proof fn law_password_length(password: Seq<char>)
    ensures
        password_error(password) is None <==> password.len() >= 8,
        password.len() < 8 ==> password_error(password) == Some(
            "Password must be at least 8 characters"@,
        ),
{
}

/// A change of the password is refused where a part is missing or the new one is too
/// short; otherwise the digest of the current one under the kept salt is asked for.
pub proof fn law_password_change(body: Seq<char>, stored: Seq<char>)
    ensures
        ({
            let current = string_field(body, "current"@);
            let new = string_field(body, "newPassword"@);
            let step = password_step(body, stored);
            &&& current.len() == 0 || new.len() == 0 ==> step == PasswordStepView::Answer(
                ReplyView::Error(400, "current and newPassword are required"@),
            )
            &&& current.len() > 0 && 0 < new.len() < 8 ==> step == PasswordStepView::Answer(
                ReplyView::Error(400, "Password must be at least 8 characters"@),
            )
            &&& current.len() > 0 && new.len() >= 8 ==> step == (match challenge(current, stored) {
                Some(text) => PasswordStepView::Digest(text),
                None => PasswordStepView::Answer(
                    ReplyView::Error(401, "Incorrect current password"@),
                ),
            })
        }),
{
}

/// A reset of the password is refused where a part is missing, the new one is too short
/// or the text is no seed phrase; otherwise the digest of the phrase under the kept
/// salt is asked for.
pub proof fn law_password_reset(
    body: Seq<char>,
    phrase: Option<Seq<char>>,
    seed_hash: Seq<char>,
)
    ensures
        ({
            let given = string_field(body, "seedPhrase"@);
            let new = string_field(body, "newPassword"@);
            let step = recovery_step(body, phrase, seed_hash);
            &&& given.len() == 0 || new.len() == 0 ==> step == PasswordStepView::Answer(
                ReplyView::Error(400, "seedPhrase and newPassword are required"@),
            )
            &&& given.len() > 0 && 0 < new.len() < 8 ==> step == PasswordStepView::Answer(
                ReplyView::Error(400, "Password must be at least 8 characters"@),
            )
            &&& given.len() > 0 && new.len() >= 8 && phrase is None ==> step
                == PasswordStepView::Answer(ReplyView::Error(400, "Invalid seed phrase"@))
            &&& given.len() > 0 && new.len() >= 8 && phrase is Some ==> step == (match challenge(
                phrase->0,
                seed_hash,
            ) {
                Some(text) => PasswordStepView::Digest(text),
                None => PasswordStepView::Answer(ReplyView::Error(401, "Incorrect seed phrase"@)),
            })
        }),
{
}

/// A new password is taken exactly where the digest is the one that is kept: its text is
/// the fresh salt, a colon and the password. Every other digest gets the answer to a
/// wrong one.
pub proof fn law_new_password(
    body: Seq<char>,
    kept_salt: Seq<u8>,
    kept: Seq<char>,
    digest: Seq<char>,
    salt: Seq<u8>,
    wrong: ReplyView,
)
    requires
        hex_text(kept),
        kept.len() > 0,
    ensures
        new_password_text(body, auth_record(hex(kept_salt), kept), digest, salt, wrong) == (
        if digest == kept {
            PasswordStepView::Digest(hex(salt) + ":"@ + string_field(body, "newPassword"@))
        } else {
            PasswordStepView::Answer(wrong)
        }),
{
    reveal_strlit(":");
    assert(":"@ =~= seq![':']);
    lemma_hex(kept_salt);
    law_password_round_trip(hex(kept_salt), kept, Seq::empty());
}

/// What is kept of a password is written to its file, which only root may read.
pub proof fn law_password_record_is_kept(record: Seq<char>)
    ensures
        auth_kept(record) == seq![
            EffectView::Write("/etc/node-manager/auth"@, record),
            EffectView::Run(seq!["chmod"@, "600"@, "/etc/node-manager/auth"@]),
        ],
        forall|salt: Seq<char>, digest: Seq<char>|
            #![trigger auth_record(salt, digest)]
            auth_record(salt, digest) == "sha256:"@ + salt + ":"@ + digest,
{
    reveal_strlit(":");
    assert(":"@ =~= seq![':']);
}

/// New Wind Tunnel settings are put into force unless the request says `false` or `0`
/// to that: the unit files are written, and the container is restarted where it runs.
pub proof fn law_tunnel_in_force(body: Seq<char>, state: StateView, site: SiteView)
    ensures
        ({
            let es = tunnel_in_force(body, state, site);
            let word = string_field(body, "apply"@);
            let held = occurs(body, "\"apply\""@) && (word == "false"@ || word == "0"@);
            &&& held ==> es.len() == 0
            &&& !held ==> {
                &&& es.len() >= 7
                &&& es.take(7) == quadlets_written(state, site)
                &&& es.skip(7) == (if state.hw_mode == "WIND_TUNNEL"@ {
                    seq![EffectView::RestartIfActive("wind-tunnel.service"@)]
                } else {
                    seq![]
                })
            }
        }),
{
    let es = tunnel_in_force(body, state, site);
    let units = quadlets_written(state, site);
    reveal_strlit("\"apply\"");
    reveal_strlit("apply");
    assert("\"apply\""@ =~= quoted("apply"@));
    if es.len() > 0 {
        assert(es.take(7) =~= units);
        assert(es.skip(7) =~= (if state.hw_mode == "WIND_TUNNEL"@ {
            seq![EffectView::RestartIfActive("wind-tunnel.service"@)]
        } else {
            seq![]
        }));
    }
}

/// A seed phrase is made exactly for a node that has none.
pub proof fn law_seed_phrase_for_node_without(state: StateView)
    ensures
        seed_refusal(state) is None <==> state.seed_hash.len() == 0,
{
}

/// A node keeps the suffix that it has, and one without gets the random bytes in
/// hexadecimal, which are then kept in the state file.
pub proof fn law_suffix_is_kept(state: StateView, bytes: Seq<u8>, state_file: Seq<char>)
    ensures
        state.wt_suffix.len() > 0 ==> suffix_of(state, bytes) == state.wt_suffix && suffix_kept(
            state,
            bytes,
            state_file,
        ).len() == 0,
        state.wt_suffix.len() == 0 ==> suffix_of(state, bytes) == hex(bytes) && suffix_kept(
            state,
            bytes,
            state_file,
        ) == key_updated(state_file, "wt_suffix"@, hex(bytes)),
{
}

// ---------------------------------------------------------------------------
// Setting up
// ---------------------------------------------------------------------------

/// A request to set up a node in the ordinary mode is accepted exactly where the node
/// has not been set up, it has a name, name and Agent ID are accepted together, and
/// the password has at least eight characters.
pub proof fn law_set_up_accepted(state: StateView, body: Seq<char>)
    ensures
        ({
            let name = string_field(body, "nodeName"@);
            let agent = string_field(body, "unytAgentId"@);
            let mode = if string_field(body, "hwMode"@) == "WIND_TUNNEL"@ {
                "WIND_TUNNEL"@
            } else {
                "STANDARD"@
            };
            &&& submit_refused(state, body) is None <==> !state.onboarded && name.len() > 0
                && names_error(mode, name, agent) is None && string_field(body, "password"@).len()
                >= 8
            &&& state.onboarded ==> submit_refused(state, body) == Some(
                ReplyView::Error(409, "Node is already set up"@),
            )
            &&& !state.onboarded && name.len() == 0 ==> submit_refused(state, body) == Some(
                ReplyView::Error(400, "nodeName is required"@),
            )
            &&& !state.onboarded && name.len() > 0 ==> (names_error(
                mode,
                name,
                agent,
            ) matches Some(msg) ==> submit_refused(state, body) == Some(
                ReplyView::Error(400, msg),
            ))
            &&& !state.onboarded && name.len() > 0 && names_error(mode, name, agent) is None
                && string_field(body, "password"@).len() < 8 ==> submit_refused(state, body)
                == Some(ReplyView::Error(400, "Password must be at least 8 characters"@))
        }),
{
}

/// Before a node is set up, the digest of its password under a fresh salt is asked
/// for, the wireless network is joined where one is named with its password, and the
/// directories are made; an SSH key that comes along is written alone, and a text that
/// is none is refused.
pub proof fn law_set_up_begins(state: StateView, body: Seq<char>, salt: Seq<u8>)
    requires
        submit_refused(state, body) is None,
    ensures
        submit_begun(state, body, salt) == PasswordStepView::Digest(
            hex(salt) + seq![':'] + string_field(body, "password"@),
        ),
        ({
            let ssid = string_field(body, "wifiSsid"@);
            let pass = string_field(body, "wifiPass"@);
            let es = submit_prepared(state, body);
            let dirs = seq![
                EffectView::MakeDir("/etc/node-manager"@),
                EffectView::MakeDir("/etc/containers/systemd"@),
                EffectView::MakeDir("/var/lib/edgenode"@),
                EffectView::MakeDir("/home/holo/.ssh"@),
            ];
            &&& ssid.len() == 0 || pass.len() == 0 ==> es == dirs
            &&& ssid.len() > 0 && pass.len() > 0 ==> es == seq![
                EffectView::Run(
                    seq!["nmcli"@, "device"@, "wifi"@, "connect"@, ssid, "password"@, pass],
                ),
                EffectView::Pause(4),
            ] + dirs
        }),
        ({
            let key = string_field(body, "sshKey"@);
            let next = submit_next(state, body);
            &&& trim(key).len() == 0 ==> next == PlanView::Go
            &&& trim(key).len() > 0 && !is_pubkey(key) ==> next == PlanView::Answer(
                ReplyView::Error(400, "Invalid SSH public key format"@),
            )
            &&& trim(key).len() > 0 && is_pubkey(key) ==> (next matches PlanView::Write(file)
                && file.path == "/home/holo/.ssh/authorized_keys"@ && file.dir
                == "/home/holo/.ssh"@ && (storable_key(key) ==> keys_of(file.content)
                == seq![key]))
        }),
{
    let key = string_field(body, "sshKey"@);
    let es = submit_prepared(state, body);
    let dirs = seq![
        EffectView::MakeDir("/etc/node-manager"@),
        EffectView::MakeDir("/etc/containers/systemd"@),
        EffectView::MakeDir("/var/lib/edgenode"@),
        EffectView::MakeDir("/home/holo/.ssh"@),
    ];
    assert(Seq::<EffectView>::empty() + dirs =~= dirs);
    if storable_key(key) {
        law_keys_round_trip(seq![key]);
    }
}

/// The pairs that are kept of a node when it is set up.
pub open spec fn keeps_set_up(text: Seq<char>, state: StateView) -> bool {
    text == text_of_pairs(
        seq![
            ("onboarded"@, "true"@),
            ("node_name"@, state.node_name),
            ("hw_mode"@, state.hw_mode),
            ("unyt_agent_id"@, state.unyt_agent_id),
            ("wt_suffix"@, state.wt_suffix),
            ("seed_hash"@, state.seed_hash),
        ],
    )
}

/// Setting up a node keeps what the request says and changes nothing else in the
/// state. What is kept of the password and the state file are written so that only
/// root may read them, the unit files follow, and then the mode is told to the
/// container; a key that was written becomes the user's own first.
#[verifier::spinoff_prover]
#[verifier::rlimit(40)]
pub proof fn law_set_up_keeps(
    state: StateView,
    body: Seq<char>,
    bytes: Seq<u8>,
    site: SiteView,
    auth: Seq<char>,
    phrase: Seq<char>,
    seed_hash: Seq<char>,
)
    requires
        !state.onboarded,
    ensures
        ({
            let end = set_up(state, body, bytes, site, auth, phrase, seed_hash);
            let es = end.done;
            let key = trim(string_field(body, "sshKey"@)).len() > 0;
            let k: int = if key {
                3
            } else {
                0
            };
            &&& end.auth == Some(auth)
            &&& end.state == (StateView {
                onboarded: true,
                node_name: string_field(body, "nodeName"@),
                hw_mode: if string_field(body, "hwMode"@) == "WIND_TUNNEL"@ {
                    "WIND_TUNNEL"@
                } else {
                    "STANDARD"@
                },
                unyt_agent_id: string_field(body, "unytAgentId"@),
                wt_suffix: hex(bytes),
                seed_hash,
                ..state
            })
            &&& es.len() == k + 15
            &&& key ==> es[0] == EffectView::Run(
                seq!["chown"@, "-R"@, "holo:holo"@, "/home/holo/.ssh"@],
            ) && es[1] == EffectView::Run(seq!["chmod"@, "700"@, "/home/holo/.ssh"@]) && es[2]
                == EffectView::Run(seq!["chmod"@, "600"@, "/home/holo/.ssh/authorized_keys"@])
            &&& es[k] == EffectView::Write("/etc/node-manager/auth"@, auth)
            &&& es[k + 1] == EffectView::Run(seq!["chmod"@, "600"@, "/etc/node-manager/auth"@])
            &&& es[k + 2] == EffectView::MakeDir("/etc/node-manager"@)
            &&& es[k + 3] matches EffectView::Write(path, text) && path
                == "/etc/node-manager/state"@ && keeps_set_up(text, end.state)
            &&& es[k + 4] == EffectView::Run(seq!["chmod"@, "600"@, "/etc/node-manager/state"@])
            &&& es.subrange(k + 5, k + 12) == quadlets_written(end.state, site)
            &&& es[k + 12] == EffectView::Write(
                "/var/lib/edgenode/mode_switch.txt"@,
                end.state.hw_mode,
            )
        }),
{
    let end = set_up(state, body, bytes, site, auth, phrase, seed_hash);
    let es = end.done;
    let key = trim(string_field(body, "sshKey"@)).len() > 0;
    let k: int = if key {
        3
    } else {
        0
    };
    let units = quadlets_written(end.state, site);
    assert(units.len() == 7);
    assert(es.len() == k + 15);
    assert(es.subrange(k + 5, k + 12) =~= units);
}

/// A switch of the mode keeps the new mode in the state file and writes the unit
/// files anew.
pub proof fn law_switch_keeps(
    state: StateView,
    mode: Seq<char>,
    site: SiteView,
    state_file: Seq<char>,
)
    ensures
        ({
            let es = mode_applied(state, mode, site, state_file);
            &&& es.len() == (if state.hw_mode == mode {
                11int
            } else {
                13int
            })
            &&& es[0] == EffectView::Write("/var/lib/edgenode/mode_switch.txt"@, mode)
            &&& es.subrange(1, 4) == key_updated(state_file, "hw_mode"@, mode)
            &&& es.subrange(4, 11) == quadlets_written(StateView { hw_mode: mode, ..state }, site)
        }),
{
    let es = mode_applied(state, mode, site, state_file);
    let kept = key_updated(state_file, "hw_mode"@, mode);
    let units = quadlets_written(StateView { hw_mode: mode, ..state }, site);
    assert(kept.len() == 3 && units.len() == 7);
    assert(es.subrange(1, 4) =~= kept);
    assert(es.subrange(4, 11) =~= units);
}

} // verus!
