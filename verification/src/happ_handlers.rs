//! What the requests that manage applications lead to.
use vstd::prelude::*;
use vstd::utf8::encode_utf8;

use crate::calendar::{deployed_duration, duration_text, iso_is_readable, iso_readable};
use crate::deployment_laws::{
    field_names, field_values, has_no_names, has_plain_strings,
    law_plain_deployments_are_recordable, law_taken_object, law_upsert_survives, no_braces,
    recordable,
};
use crate::deployments::{
    deployments, deployments_json, deployments_kept, deployments_of, find_deployment,
    generate_deployment_id, lemma_position_of, position_of, read_deployments, remove_deployment,
    upsert_deployment, upserted, without_id, Deployment, DeploymentView,
};
use crate::effects::{effects, no_effects, Effect, EffectView};
use crate::escape::{escaped, json_escape, Escape};
use crate::handlers::{push_truth, truth, STATUS_OK};
use crate::happs::{
    container_script, disable_happ, enable_happ, happ_outcome, happs_listed, happs_prereq_error,
    has_agreement, install_log_path, list_installed_happs, listing_error, live, log_path,
    manifest_app_name, manifest_app_version, manifest_has_economics_agreement, manifest_verdict,
    manifest_written, prereq_error, printed, read_happ_install_log, reconcile_deployment_status,
    status_shown, tail_container_log, tail_shown, tail_text, uninstall_happ, validate_happ_manifest,
    write_happ_manifest, CommandOutput, LiveHapp,
};
use crate::http::{error, json, reply_opt, Plan, PlanView, Reply, ReplyView};
use crate::json::{
    after, json_raw_value, json_str, keyed, lemma_string_field_plain, member, nested_field,
    object_field, push_member, raw_field, string_field,
};
use crate::number::{dec, hex, is_lower_hex, lemma_hex};
use crate::split::{split, trim, trim_start, trimmed};
use crate::state::{AppState, StateView, WIND_TUNNEL};
use crate::text::{chars_of, is_blank, opt_str, string_of};
use crate::url::{get_query_param, param_from};

verus! {

/// The text without white space at its ends.
fn trimmed_text(s: &str) -> (r: String)
    ensures
        r@ == trim(s@),
{
    let c = chars_of(s);
    string_of(trimmed(c.as_slice()))
}

// ---------------------------------------------------------------------------
// The list
// ---------------------------------------------------------------------------

/// What the container knows; nothing where it cannot be asked.
pub open spec fn known(out: Option<CommandOutput>) -> Seq<(Seq<char>, bool)> {
    match out {
        Some(o) if listing_error(Some(o)) is None => happs_listed(printed(o)),
        _ => Seq::empty(),
    }
}

/// A deployment in the list.
pub open spec fn item_json(d: DeploymentView, l: Seq<(Seq<char>, bool)>, now: nat) -> Seq<char> {
    "{"@ + member("id"@, d.id) + ","@ + member("app_name"@, d.app_name) + ","@ + member(
        "app_version"@,
        d.app_version,
    ) + ","@ + member("app_id"@, d.app_id) + ","@ + member("status"@, status_shown(d, l)) + ","@
        + member("deployed_at"@, d.deployed_at) + ","@ + member(
        "deployed_duration"@,
        duration_text(d.deployed_at, now),
    ) + ","@ + member("last_error"@, d.last_error) + "}"@
}

/// The deployments in the list, with commas between them.
pub open spec fn items_json(ds: Seq<DeploymentView>, l: Seq<(Seq<char>, bool)>, now: nat) -> Seq<
    char,
>
    decreases ds.len(),
{
    if ds.len() == 0 {
        seq![]
    } else if ds.len() == 1 {
        item_json(ds[0], l, now)
    } else {
        items_json(ds.drop_last(), l, now) + ","@ + item_json(ds.last(), l, now)
    }
}

/// The list of deployments and what hosting them needs.
pub open spec fn list_json(
    state: StateView,
    ds: Seq<DeploymentView>,
    l: Seq<(Seq<char>, bool)>,
    running: bool,
    now: nat,
) -> Seq<char> {
    let agent = state.unyt_agent_id.len() > 0;
    let endpoint = state.log_sender_endpoint.len() > 0;
    "{\"happs\":["@ + items_json(ds, l, now) + "],"@ + member("hw_mode"@, state.hw_mode)
        + ",\"edgenode_running\":"@ + truth(running) + ",\"accounting_ready\":"@ + truth(
        agent && endpoint,
    ) + ",\"unyt_configured\":"@ + truth(agent) + ",\"log_sender_configured\":"@ + truth(endpoint)
        + "}"@
}

/// The times of all deployments can be read.
pub open spec fn times_readable(ds: Seq<DeploymentView>) -> bool {
    forall|i: int| 0 <= i < ds.len() ==> iso_readable(encode_utf8((#[trigger] ds[i]).deployed_at))
}

/// Whether the times of all deployments in a file can be read.
pub fn times_are_readable(deployments_file: &str) -> (r: bool)
    ensures
        r == times_readable(deployments_of(deployments_file@)),
{
    let list = read_deployments(deployments_file);
    let mut i: usize = 0;
    while i < list.len()
        invariant
            i <= list@.len(),
            deployments(list@) == deployments_of(deployments_file@),
            forall|j: int|
                0 <= j < i ==> iso_readable(
                    encode_utf8((#[trigger] deployments(list@)[j]).deployed_at),
                ),
        decreases list@.len() - i,
    {
        assert(deployments(list@)[i as int] == list@[i as int]@);
        if !iso_is_readable(list[i].deployed_at.as_str()) {
            assert(!iso_readable(
                encode_utf8(deployments_of(deployments_file@)[i as int].deployed_at),
            ));
            return false;
        }
        i += 1;
    }
    assert(list@.len() == deployments(list@).len());
    true
}

fn push_item(out: &mut String, d: &Deployment, list: &Vec<LiveHapp>, now: u64)
    requires
        iso_readable(encode_utf8(d@.deployed_at)),
    ensures
        final(out)@ == old(out)@ + item_json(d@, live(list@), now as nat),
{
    let mut item = "{".to_owned();
    push_member(&mut item, "id", d.id.as_str());
    item.append(",");
    push_member(&mut item, "app_name", d.app_name.as_str());
    item.append(",");
    push_member(&mut item, "app_version", d.app_version.as_str());
    item.append(",");
    push_member(&mut item, "app_id", d.app_id.as_str());
    item.append(",");
    push_member(&mut item, "status", reconcile_deployment_status(d, list).as_str());
    item.append(",");
    push_member(&mut item, "deployed_at", d.deployed_at.as_str());
    item.append(",");
    push_member(
        &mut item,
        "deployed_duration",
        deployed_duration(d.deployed_at.as_str(), now).as_str(),
    );
    item.append(",");
    push_member(&mut item, "last_error", d.last_error.as_str());
    item.append("}");
    out.append(item.as_str());
}

fn push_items(out: &mut String, ds: &Vec<Deployment>, list: &Vec<LiveHapp>, now: u64)
    requires
        times_readable(deployments(ds@)),
    ensures
        final(out)@ == old(out)@ + items_json(deployments(ds@), live(list@), now as nat),
{
    let ghost all = deployments(ds@);
    let ghost l = live(list@);
    let ghost start = out@;
    let mut i: usize = 0;
    assert(all.take(0) =~= Seq::<DeploymentView>::empty());
    assert(out@ =~= start + items_json(all.take(0), l, now as nat));
    while i < ds.len()
        invariant
            i <= ds@.len(),
            all == deployments(ds@),
            l == live(list@),
            times_readable(all),
            out@ == start + items_json(all.take(i as int), l, now as nat),
        decreases ds@.len() - i,
    {
        assert(all.take(i + 1).drop_last() =~= all.take(i as int));
        assert(all[i as int] == ds@[i as int]@);
        assert(all.take(i + 1).last() == ds@[i as int]@);
        if i > 0 {
            out.append(",");
        }
        push_item(out, &ds[i], list, now);
        assert(out@ =~= start + items_json(all.take(i + 1), l, now as nat));
        i += 1;
    }
    assert(all.take(all.len() as int) =~= all);
}

/// The list of deployments, given the content of the file that remembers them,
/// what the listing left behind, or nothing where the container was not running
/// then, whether it runs now, and the time in seconds.
pub fn handle_happs_list(
    state: &AppState,
    deployments_file: &str,
    listing: Option<&CommandOutput>,
    running: bool,
    now: u64,
) -> (r: Reply)
    requires
        times_readable(deployments_of(deployments_file@)),
    ensures
        r@ == ReplyView::Json(
            list_json(
                state@,
                deployments_of(deployments_file@),
                known(
                    match listing {
                        Some(o) => Some(*o),
                        None => None,
                    },
                ),
                running,
                now as nat,
            ),
        ),
{
    let ds = read_deployments(deployments_file);
    let known_happs: Vec<LiveHapp> = match list_installed_happs(listing) {
        Ok(v) => v,
        Err(_) => Vec::new(),
    };
    assert(live(known_happs@) =~= known(
        match listing {
            Some(o) => Some(*o),
            None => None,
        },
    ));
    let agent = !is_blank(state.unyt_agent_id.as_str());
    let endpoint = !is_blank(state.log_sender_endpoint.as_str());
    let mut out = "{\"happs\":[".to_owned();
    push_items(&mut out, &ds, &known_happs, now);
    out.append("],");
    push_member(&mut out, "hw_mode", state.hw_mode.as_str());
    out.append(",\"edgenode_running\":");
    push_truth(&mut out, running);
    out.append(",\"accounting_ready\":");
    push_truth(&mut out, agent && endpoint);
    out.append(",\"unyt_configured\":");
    push_truth(&mut out, agent);
    out.append(",\"log_sender_configured\":");
    push_truth(&mut out, endpoint);
    out.append("}");
    Reply::Json(out)
}

// ---------------------------------------------------------------------------
// Manifests
// ---------------------------------------------------------------------------

/// The manifest of a request.
pub open spec fn manifest_in_body(body: Seq<char>) -> Seq<char> {
    raw_field(body, "manifest"@)
}

/// Why a manifest is refused.
pub open spec fn manifest_refusal(body: Seq<char>) -> Option<Seq<char>> {
    let manifest = manifest_in_body(body);
    if manifest.len() == 0 {
        Some("manifest is required"@)
    } else if nested_field(manifest, "app"@, "name"@).len() == 0 || nested_field(
        manifest,
        "app"@,
        "version"@,
    ).len() == 0 {
        Some("manifest must include app.name and app.version"@)
    } else {
        None
    }
}

/// Writing a manifest and checking it.
pub open spec fn manifest_plan(body: Seq<char>) -> PlanView {
    let manifest = manifest_in_body(body);
    match manifest_written(
        nested_field(manifest, "app"@, "name"@),
        nested_field(manifest, "app"@, "version"@),
        manifest,
    ) {
        None => PlanView::Answer(
            ReplyView::Error(500, "Invalid app name or version for manifest file"@),
        ),
        Some((file, path)) => PlanView::WriteThenRun(
            file,
            container_script("happ_config_file validate --input "@ + path),
        ),
    }
}

/// What a request to check a manifest leads to.
pub open spec fn validate_plan(state: StateView, running: bool, body: Seq<char>) -> PlanView {
    match prereq_error(state, running) {
        Some(msg) => PlanView::Answer(ReplyView::Error(400, msg)),
        None => match manifest_refusal(body) {
            Some(msg) => PlanView::Answer(ReplyView::Error(400, msg)),
            None => manifest_plan(body),
        },
    }
}

/// The manifest of a request, or why it is refused.
fn read_manifest(body: &str) -> (r: Result<(String, String, String), &'static str>)
    ensures
        (match r {
            Ok((manifest, name, version)) => {
                &&& manifest_refusal(body@) is None
                &&& manifest@ == manifest_in_body(body@)
                &&& name@ == nested_field(manifest@, "app"@, "name"@)
                &&& version@ == nested_field(manifest@, "app"@, "version"@)
            },
            Err(msg) => manifest_refusal(body@) == Some(msg@),
        }),
{
    let manifest = json_raw_value(body, "manifest");
    if is_blank(manifest.as_str()) {
        return Err("manifest is required");
    }
    let name = manifest_app_name(manifest.as_str());
    let version = manifest_app_version(manifest.as_str());
    if is_blank(name.as_str()) || is_blank(version.as_str()) {
        return Err("manifest must include app.name and app.version");
    }
    Ok((manifest, name, version))
}

/// Writing a manifest and checking it.
fn plan_manifest(manifest: &str, name: &str, version: &str, Ghost(body): Ghost<Seq<char>>) -> (r:
    Plan)
    requires
        manifest@ == manifest_in_body(body),
        name@ == nested_field(manifest@, "app"@, "name"@),
        version@ == nested_field(manifest@, "app"@, "version"@),
    ensures
        r@ == manifest_plan(body),
{
    match write_happ_manifest(name, version, manifest) {
        Ok((file, path)) => Plan::WriteThenRun(file, validate_happ_manifest(path.as_str())),
        Err(msg) => Plan::Answer(Reply::Error(500, msg)),
    }
}

/// What a request to check a manifest leads to, given whether the container runs.
pub fn handle_happs_validate(state: &AppState, running: bool, body: &str) -> (r: Plan)
    ensures
        r@ == validate_plan(state@, running, body@),
{
    match happs_prereq_error(state, running) {
        Some(msg) => {
            return Plan::Answer(error(400, msg.as_str()));
        },
        None => {},
    }
    match read_manifest(body) {
        Err(msg) => Plan::Answer(error(400, msg)),
        Ok((manifest, name, version)) => plan_manifest(
            manifest.as_str(),
            name.as_str(),
            version.as_str(),
            Ghost(body@),
        ),
    }
}

/// The answer where a manifest could not be written.
pub fn manifest_write_failed(msg: &str) -> (r: Reply)
    ensures
        r@ == ReplyView::Error(500, msg@),
{
    error(500, msg)
}

/// The verdict on a manifest.
pub open spec fn verdict_json(out: CommandOutput) -> Seq<char> {
    (if out.code == 0 {
        "{\"valid\":true,\"output\":\""@
    } else {
        "{\"valid\":false,\"output\":\""@
    }) + escaped(trim(out.stdout@ + out.stderr@), Escape::Json) + "\"}"@
}

/// The answer to a request to check a manifest, given what the check left behind.
pub fn finish_validate(out: &CommandOutput) -> (r: Reply)
    ensures
        r@ == ReplyView::Json(verdict_json(*out)),
{
    let (ok, text) = manifest_verdict(out);
    let mut json_text = if ok {
        "{\"valid\":true,\"output\":\"".to_owned()
    } else {
        "{\"valid\":false,\"output\":\"".to_owned()
    };
    json_text.append(json_escape(trimmed_text(text.as_str()).as_str()).as_str());
    json_text.append("\"}");
    Reply::Json(json_text)
}

// ---------------------------------------------------------------------------
// Deploying
// ---------------------------------------------------------------------------

/// The answer where payment is agreed on and the node is not set up for it.
pub const PAYMENT_NOT_SET_UP: &'static str =
    "Manifest includes economics.agreementHash but Unyt Agent ID and Log Collector URL must be configured in HoloFuel first.";

/// What a request to deploy an application leads to.
pub open spec fn deploy_plan(state: StateView, running: bool, body: Seq<char>) -> PlanView {
    match prereq_error(state, running) {
        Some(msg) => PlanView::Answer(ReplyView::Error(400, msg)),
        None => match manifest_refusal(body) {
            Some(msg) => PlanView::Answer(ReplyView::Error(400, msg)),
            None => if has_agreement(manifest_in_body(body)) && (state.unyt_agent_id.len() == 0
                || state.log_sender_endpoint.len() == 0) {
                PlanView::Answer(ReplyView::Error(400, PAYMENT_NOT_SET_UP@))
            } else {
                manifest_plan(body)
            },
        },
    }
}

/// What a request to deploy an application leads to, given whether the container
/// runs.
pub fn handle_happs_deploy(state: &AppState, running: bool, body: &str) -> (r: Plan)
    ensures
        r@ == deploy_plan(state@, running, body@),
{
    match happs_prereq_error(state, running) {
        Some(msg) => {
            return Plan::Answer(error(400, msg.as_str()));
        },
        None => {},
    }
    match read_manifest(body) {
        Err(msg) => Plan::Answer(error(400, msg)),
        Ok((manifest, name, version)) => {
            if manifest_has_economics_agreement(manifest.as_str()) {
                if is_blank(state.unyt_agent_id.as_str()) || is_blank(
                    state.log_sender_endpoint.as_str(),
                ) {
                    return Plan::Answer(error(400, PAYMENT_NOT_SET_UP));
                }
            }
            plan_manifest(manifest.as_str(), name.as_str(), version.as_str(), Ghost(body@))
        },
    }
}

/// The answer where the check of a manifest failed.
pub open spec fn check_refusal(out: CommandOutput) -> Option<ReplyView> {
    if out.code == 0 {
        None
    } else {
        Some(
            ReplyView::Error(
                400,
                "Manifest validation failed: "@ + trim(out.stdout@ + out.stderr@),
            ),
        )
    }
}

/// The answer where the check of a manifest failed.
pub fn deploy_refusal(out: &CommandOutput) -> (r: Option<Reply>)
    ensures
        reply_opt(r) == check_refusal(*out),
        reply_opt(r) == (if out.code == 0 {
            None
        } else {
            Some(
                ReplyView::Error(
                    400,
                    "Manifest validation failed: "@ + trim(out.stdout@ + out.stderr@),
                ),
            )
        }),
{
    let (ok, text) = manifest_verdict(out);
    if ok {
        return None;
    }
    let mut msg = "Manifest validation failed: ".to_owned();
    msg.append(trimmed_text(text.as_str()).as_str());
    Some(Reply::Error(400, msg))
}

/// A deployment that is being installed.
pub open spec fn new_deployment(body: Seq<char>, bytes: Seq<u8>) -> DeploymentView {
    let manifest = manifest_in_body(body);
    DeploymentView {
        id: hex(bytes),
        app_name: nested_field(manifest, "app"@, "name"@),
        app_version: nested_field(manifest, "app"@, "version"@),
        app_id: Seq::empty(),
        status: "installing"@,
        deployed_at: Seq::empty(),
        last_error: Seq::empty(),
        manifest,
    }
}

/// How a deployment begins, with its texts as sequences of characters.
pub struct BegunView {
    pub id: Seq<char>,
    pub container_path: Seq<char>,
    pub done: Seq<EffectView>,
    pub reply: ReplyView,
}

/// How a deployment begins, given random bytes for its id and the content of the file
/// that remembers deployments; `None` where its manifest is refused.
pub open spec fn deploy_begun(body: Seq<char>, bytes: Seq<u8>, content: Seq<char>) -> Option<
    BegunView,
> {
    let d = new_deployment(body, bytes);
    match (manifest_refusal(body), manifest_written(d.app_name, d.app_version, d.manifest)) {
        (None, Some((_, path))) => Some(
            BegunView {
                id: hex(bytes),
                container_path: path,
                done: deployments_kept(upserted(deployments_of(content), d)),
                reply: ReplyView::Json(
                    "{\"status\":\"installing\","@ + member("deployment_id"@, hex(bytes)) + "}"@,
                ),
            },
        ),
        _ => None,
    }
}

impl View for Begun {
    type V = BegunView;

    open spec fn view(&self) -> BegunView {
        BegunView {
            id: self.id@,
            container_path: self.container_path@,
            done: effects(self.done@),
            reply: self.reply@,
        }
    }
}

/// A deployment that has begun.
pub struct Begun {
    /// The id of the deployment.
    pub id: String,
    /// The path of its manifest in the container.
    pub container_path: String,
    pub done: Vec<Effect>,
    pub reply: Reply,
}

/// Remembers a deployment once its manifest was checked, given random bytes for
/// its id and the content of the file that remembers deployments. The
/// installation goes on behind the answer.
pub fn begin_deploy(body: &str, bytes: &[u8], deployments_file: &str) -> (r: Option<Begun>)
    ensures
        (match r {
            Some(b) => Some(b@),
            None => None,
        }) == deploy_begun(body@, bytes@, deployments_file@),
        (match r {
            Some(b) => {
                let d = new_deployment(body@, bytes@);
                &&& manifest_refusal(body@) is None
                &&& b.id@ == hex(bytes@)
                &&& manifest_written(d.app_name, d.app_version, d.manifest) matches Some((_, path))
                    && b.container_path@ == path
                &&& effects(b.done@) == deployments_kept(
                    upserted(deployments_of(deployments_file@), d),
                )
                &&& b.reply@ == ReplyView::Json(
                    "{\"status\":\"installing\","@ + member("deployment_id"@, hex(bytes@)) + "}"@,
                )
            },
            None => manifest_refusal(body@) is Some || manifest_written(
                new_deployment(body@, bytes@).app_name,
                new_deployment(body@, bytes@).app_version,
                new_deployment(body@, bytes@).manifest,
            ) is None,
        }),
{
    match read_manifest(body) {
        Err(_) => None,
        Ok((manifest, name, version)) => {
            match write_happ_manifest(name.as_str(), version.as_str(), manifest.as_str()) {
                Err(_) => None,
                Ok((_, container_path)) => {
                    let id = generate_deployment_id(bytes);
                    let d = Deployment {
                        id: id.as_str().to_owned(),
                        app_name: name,
                        app_version: version,
                        app_id: String::new(),
                        status: "installing".to_owned(),
                        deployed_at: String::new(),
                        last_error: String::new(),
                        manifest,
                    };
                    assert(d@ =~= new_deployment(body@, bytes@));
                    let mut list = read_deployments(deployments_file);
                    let done = upsert_deployment(&mut list, d);
                    let mut out = "{\"status\":\"installing\",".to_owned();
                    push_member(&mut out, "deployment_id", id.as_str());
                    out.append("}");
                    Some(Begun { id, container_path, done, reply: Reply::Json(out) })
                },
            }
        },
    }
}

// ---------------------------------------------------------------------------
// Pausing, resuming and removing
// ---------------------------------------------------------------------------

/// What a request about one application leads to: a command with its id.
pub open spec fn app_plan(
    state: StateView,
    running: bool,
    body: Seq<char>,
    command: Seq<char>,
) -> PlanView {
    match prereq_error(state, running) {
        Some(msg) => PlanView::Answer(ReplyView::Error(400, msg)),
        None => if string_field(body, "appId"@).len() == 0 {
            PlanView::Answer(ReplyView::Error(400, "appId is required"@))
        } else {
            PlanView::Run(container_script(command + string_field(body, "appId"@)))
        },
    }
}

/// What a request to resume an application leads to, given whether the container
/// runs.
pub fn handle_happs_enable(state: &AppState, running: bool, body: &str) -> (r: Plan)
    ensures
        r@ == app_plan(state@, running, body@, "enable_happ "@),
{
    match happs_prereq_error(state, running) {
        Some(msg) => {
            return Plan::Answer(error(400, msg.as_str()));
        },
        None => {},
    }
    let app_id = json_str(body, "appId");
    if is_blank(app_id.as_str()) {
        return Plan::Answer(error(400, "appId is required"));
    }
    Plan::Run(enable_happ(app_id.as_str()))
}

/// What a request to pause an application leads to, given whether the container
/// runs.
pub fn handle_happs_disable(state: &AppState, running: bool, body: &str) -> (r: Plan)
    ensures
        r@ == app_plan(state@, running, body@, "disable_happ "@),
{
    match happs_prereq_error(state, running) {
        Some(msg) => {
            return Plan::Answer(error(400, msg.as_str()));
        },
        None => {},
    }
    let app_id = json_str(body, "appId");
    if is_blank(app_id.as_str()) {
        return Plan::Answer(error(400, "appId is required"));
    }
    Plan::Run(disable_happ(app_id.as_str()))
}

/// The answer to a request to pause or resume an application, given what the
/// command left behind.
pub open spec fn app_answer(out: CommandOutput) -> ReplyView {
    if out.code == 0 {
        ReplyView::Json("{\"status\":\"ok\","@ + member("output"@, trim(printed(out))) + "}"@)
    } else {
        ReplyView::Error(500, printed(out))
    }
}

/// The answer to a request to pause or resume an application, given what the
/// command left behind.
pub fn finish_app(out: &CommandOutput) -> (r: Reply)
    ensures
        r@ == app_answer(*out),
        r@ == (if out.code == 0 {
            ReplyView::Json(
                "{\"status\":\"ok\","@ + member("output"@, trim(printed(*out))) + "}"@,
            )
        } else {
            ReplyView::Error(500, printed(*out))
        }),
{
    match happ_outcome(out) {
        Ok(text) => {
            let mut json_text = "{\"status\":\"ok\",".to_owned();
            push_member(&mut json_text, "output", trimmed_text(text.as_str()).as_str());
            json_text.append("}");
            Reply::Json(json_text)
        },
        Err(text) => Reply::Error(500, text),
    }
}

/// The id of the application that a request to remove a deployment names, or else
/// the one that is remembered with the deployment.
pub open spec fn uninstall_target(body: Seq<char>, ds: Seq<DeploymentView>) -> Seq<char> {
    if string_field(body, "appId"@).len() > 0 {
        string_field(body, "appId"@)
    } else {
        match position_of(ds, string_field(body, "deploymentId"@)) {
            Some(p) => ds[p].app_id,
            None => Seq::empty(),
        }
    }
}

/// What a request to remove a deployment leads to: where an application is
/// installed, it is removed first.
pub open spec fn uninstall_plan(
    state: StateView,
    running: bool,
    body: Seq<char>,
    ds: Seq<DeploymentView>,
) -> PlanView {
    match prereq_error(state, running) {
        Some(msg) => PlanView::Answer(ReplyView::Error(400, msg)),
        None => if string_field(body, "deploymentId"@).len() == 0 {
            PlanView::Answer(ReplyView::Error(400, "deploymentId is required"@))
        } else if uninstall_target(body, ds).len() == 0 {
            PlanView::Go
        } else {
            PlanView::Run(container_script("uninstall_happ "@ + uninstall_target(body, ds)))
        },
    }
}

/// What a request to remove a deployment leads to, given whether the container
/// runs and the content of the file that remembers deployments.
pub fn handle_happs_uninstall(
    state: &AppState,
    running: bool,
    body: &str,
    deployments_file: &str,
) -> (r: Plan)
    ensures
        r@ == uninstall_plan(state@, running, body@, deployments_of(deployments_file@)),
{
    match happs_prereq_error(state, running) {
        Some(msg) => {
            return Plan::Answer(error(400, msg.as_str()));
        },
        None => {},
    }
    let deployment_id = json_str(body, "deploymentId");
    let app_id = json_str(body, "appId");
    if is_blank(deployment_id.as_str()) {
        return Plan::Answer(error(400, "deploymentId is required"));
    }
    let list = read_deployments(deployments_file);
    proof {
        lemma_position_of(deployments(list@), deployment_id@);
    }
    let target = if !is_blank(app_id.as_str()) {
        app_id
    } else {
        match find_deployment(&list, deployment_id.as_str()) {
            Some(p) => {
                assert(deployments(list@)[p as int] == list@[p as int]@);
                list[p].app_id.as_str().to_owned()
            },
            None => String::new(),
        }
    };
    if is_blank(target.as_str()) {
        assert(target@ =~= uninstall_target(body@, deployments_of(deployments_file@)));
        return Plan::Go;
    }
    Plan::Run(uninstall_happ(target.as_str()))
}

/// The effects and the answer at the end of a request to remove a deployment, given
/// what the command left behind, where there was one.
pub open spec fn uninstall_end(
    body: Seq<char>,
    content: Seq<char>,
    out: Option<CommandOutput>,
) -> (Seq<EffectView>, ReplyView) {
    match out {
        Some(o) if o.code != 0 => (Seq::empty(), ReplyView::Error(500, printed(o))),
        _ => (
            deployments_kept(
                without_id(deployments_of(content), string_field(body, "deploymentId"@)),
            ),
            ReplyView::Json(STATUS_OK@),
        ),
    }
}

/// The end of a request to remove a deployment, given what the command left
/// behind, where there was one: the deployment is forgotten unless that failed.
pub fn finish_uninstall(body: &str, deployments_file: &str, out: Option<&CommandOutput>) -> (r: (
    Vec<Effect>,
    Reply,
))
    ensures
        (match out {
            Some(o) if o.code != 0 => effects(r.0@) == Seq::<EffectView>::empty() && r.1@
                == ReplyView::Error(500, printed(*o)),
            _ => effects(r.0@) == deployments_kept(
                without_id(
                    deployments_of(deployments_file@),
                    string_field(body@, "deploymentId"@),
                ),
            ) && r.1@ == ReplyView::Json(STATUS_OK@),
        }),
        (effects(r.0@), r.1@) == uninstall_end(
            body@,
            deployments_file@,
            match out {
                Some(o) => Some(*o),
                None => None,
            },
        ),
{
    match out {
        Some(o) => match happ_outcome(o) {
            Ok(_) => {},
            Err(text) => {
                return (no_effects(), Reply::Error(500, text));
            },
        },
        None => {},
    }
    let deployment_id = json_str(body, "deploymentId");
    let mut list = read_deployments(deployments_file);
    let done = remove_deployment(&mut list, deployment_id.as_str());
    (done, json(STATUS_OK))
}

// ---------------------------------------------------------------------------
// Logs
// ---------------------------------------------------------------------------

/// What a request for logs leads to.
#[derive(Debug, PartialEq, Eq)]
pub enum LogsPlan {
    /// Answer it.
    Answer(Reply),
    /// Collect the logs; the output of an installation, where one is named, is
    /// kept at a path.
    Collect(Option<String>),
}

/// The deployment that a query names.
pub open spec fn id_in_query(query: Seq<char>) -> Seq<char> {
    param_from(split(query, "&"@), "id"@, 0)
}

/// What a request for logs leads to.
pub fn handle_happs_logs(state: &AppState, query: &str) -> (r: LogsPlan)
    ensures
        (match r {
            LogsPlan::Answer(reply) => state@.hw_mode == WIND_TUNNEL@ && reply@ == ReplyView::Error(
                400,
                "hApp logs unavailable in Wind Tunnel mode"@,
            ),
            LogsPlan::Collect(None) => state@.hw_mode != WIND_TUNNEL@ && id_in_query(query@).len()
                == 0,
            LogsPlan::Collect(Some(path)) => state@.hw_mode != WIND_TUNNEL@ && id_in_query(
                query@,
            ).len() > 0 && path@ == log_path(id_in_query(query@)),
        }),
{
    if state.in_wind_tunnel() {
        return LogsPlan::Answer(error(400, "hApp logs unavailable in Wind Tunnel mode"));
    }
    let id = get_query_param(query, "id");
    if is_blank(id.as_str()) {
        LogsPlan::Collect(None)
    } else {
        LogsPlan::Collect(Some(install_log_path(id.as_str())))
    }
}

/// The lines that show the ends of the two logs in the container.
pub fn log_scripts() -> (r: (String, String))
    ensures
        r.0@ == container_script("tail -n "@ + dec(80) + " "@ + "/data/logs/holochain.log"@),
        r.1@ == container_script("tail -n "@ + dec(40) + " "@ + "/data/logs/log-sender.log"@),
{
    (
        tail_container_log("/data/logs/holochain.log", 80),
        tail_container_log("/data/logs/log-sender.log", 40),
    )
}

/// The output of an installation as it is shown.
pub open spec fn install_log_shown(named: bool, content: Option<Seq<char>>) -> Seq<char> {
    if !named {
        "(no deployment id specified)"@
    } else {
        match content {
            Some(text) => text,
            None => "(no install log available)"@,
        }
    }
}

/// The answer with the logs.
pub open spec fn logs_json(
    named: bool,
    install_log: Option<Seq<char>>,
    holochain: CommandOutput,
    log_sender: CommandOutput,
) -> Seq<char> {
    "{"@ + member("install_log"@, install_log_shown(named, install_log)) + ","@ + member(
        "holochain_log"@,
        tail_shown(holochain),
    ) + ","@ + member("log_sender_log"@, tail_shown(log_sender)) + "}"@
}

/// The logs, given whether an installation was named, the content of the file of
/// its output, and what the two commands left behind.
pub fn finish_logs(
    named: bool,
    install_log: Option<&str>,
    holochain: &CommandOutput,
    log_sender: &CommandOutput,
) -> (r: Reply)
    ensures
        r@ == ReplyView::Json(
            "{"@ + member("install_log"@, install_log_shown(named, opt_str(install_log))) + ","@
                + member("holochain_log"@, tail_shown(*holochain)) + ","@ + member(
                "log_sender_log"@,
                tail_shown(*log_sender),
            ) + "}"@,
        ),
        r@ == ReplyView::Json(
            logs_json(named, opt_str(install_log), *holochain, *log_sender),
        ),
{
    let log = if named {
        read_happ_install_log(install_log)
    } else {
        "(no deployment id specified)".to_owned()
    };
    let mut out = "{".to_owned();
    push_member(&mut out, "install_log", log.as_str());
    out.append(",");
    push_member(&mut out, "holochain_log", tail_text(holochain).as_str());
    out.append(",");
    push_member(&mut out, "log_sender_log", tail_text(log_sender).as_str());
    out.append("}");
    Reply::Json(out)
}

// ---------------------------------------------------------------------------
// What holds of all requests
// ---------------------------------------------------------------------------

/// Applications are managed only in the ordinary mode and while the container
/// runs: every other request is refused with the reason, and nothing is written
/// or run for it.
pub proof fn law_happs_need_the_container(
    state: StateView,
    running: bool,
    body: Seq<char>,
    ds: Seq<DeploymentView>,
)
    requires
        state.hw_mode == WIND_TUNNEL@ || !running,
    ensures
        ({
            let refused = PlanView::Answer(
                ReplyView::Error(
                    400,
                    if state.hw_mode == WIND_TUNNEL@ {
                        "Switch to Standard EdgeNode mode in Mode before managing hApps."@
                    } else {
                        "EdgeNode is not running. Start Standard EdgeNode mode first."@
                    },
                ),
            );
            &&& validate_plan(state, running, body) == refused
            &&& deploy_plan(state, running, body) == refused
            &&& app_plan(state, running, body, "enable_happ "@) == refused
            &&& app_plan(state, running, body, "disable_happ "@) == refused
            &&& uninstall_plan(state, running, body, ds) == refused
        }),
{
}

/// An application with an agreement on payment is deployed only where the node
/// has an Agent ID and a log collector.
pub proof fn law_payment_is_set_up(state: StateView, running: bool, body: Seq<char>)
    requires
        has_agreement(manifest_in_body(body)),
        deploy_plan(state, running, body) is WriteThenRun,
    ensures
        state.unyt_agent_id.len() > 0,
        state.log_sender_endpoint.len() > 0,
{
}

/// A name or a version that the file of deployments can hold.
pub open spec fn simple_text(s: Seq<char>) -> bool {
    !s.contains('\\') && no_braces(s)
}

proof fn lemma_hex_is_simple(bytes: Seq<u8>)
    ensures
        simple_text(hex(bytes)),
        !hex(bytes).contains('"'),
        !hex(bytes).contains('_'),
        !hex(bytes).contains('s'),
{
    lemma_hex(bytes);
    let h = hex(bytes);
    assert forall|i: int| 0 <= i < h.len() implies h[i] != '\\' && h[i] != '{' && h[i] != '}'
        && h[i] != '"' && h[i] != '_' && h[i] != 's' by {
        assert(is_lower_hex(h[i]));
    }
}

/// A deployment that begins is remembered: where its manifest is an object, its
/// name and version are simple and are not names of fields further on, the file
/// that is written gives back the list with the deployment in it.
pub proof fn law_begun_deployment_is_remembered(
    body: Seq<char>,
    bytes: Seq<u8>,
    ds: Seq<DeploymentView>,
)
    requires
        object_field(body, "manifest"@).len() > 0,
        simple_text(new_deployment(body, bytes).app_name),
        simple_text(new_deployment(body, bytes).app_version),
        forall|j: int|
            3 <= j < 7 ==> new_deployment(body, bytes).app_name != #[trigger] field_names()[j],
        forall|j: int|
            4 <= j < 7 ==> new_deployment(body, bytes).app_version != #[trigger] field_names()[j],
        forall|i: int| 0 <= i < ds.len() ==> recordable(#[trigger] ds[i]),
    ensures
        deployments_of(deployments_json(upserted(ds, new_deployment(body, bytes)))) == upserted(
            ds,
            new_deployment(body, bytes),
        ),
{
    let d = new_deployment(body, bytes);
    let v = field_values(d);
    let n = field_names();
    let none = Seq::<char>::empty();
    reveal_strlit("installing");
    reveal_strlit("app_version");
    reveal_strlit("app_id");
    reveal_strlit("status");
    reveal_strlit("deployed_at");
    reveal_strlit("last_error");
    lemma_hex_is_simple(bytes);
    assert(d.manifest == object_field(body, "manifest"@));
    match after(body, keyed("manifest"@)) {
        Some(rest) => {
            law_taken_object(trim_start(rest));
        },
        None => {},
    }
    lemma_string_field_plain(object_field(d.manifest, "app"@), "name"@);
    lemma_string_field_plain(object_field(d.manifest, "app"@), "version"@);
    assert(v[0] == hex(bytes) && v[1] == d.app_name && v[2] == d.app_version && v[3] == none && v[4]
        == "installing"@ && v[5] == none && v[6] == none);
    assert(simple_text("installing"@) && !"installing"@.contains('"'));
    assert(has_plain_strings(d));
    assert forall|i: int| 0 <= i < 7 implies no_braces(#[trigger] field_values(d)[i]) by {}
    assert(n[2] == "app_version"@ && n[3] == "app_id"@ && n[4] == "status"@ && n[5]
        == "deployed_at"@ && n[6] == "last_error"@);
    assert(n[2][3] == '_' && n[3][3] == '_' && n[4][0] == 's' && n[5][8] == '_' && n[6][4] == '_');
    assert(n[2].contains('_') && n[3].contains('_') && n[4].contains('s') && n[5].contains('_')
        && n[6].contains('_'));
    assert(n[5].len() == 11 && n[6].len() == 10 && n[6][0] == 'l');
    assert(v[4][0] == 'i');
    assert(has_no_names(d));
    law_plain_deployments_are_recordable(d);
    law_upsert_survives(ds, d);
}

} // verus!
