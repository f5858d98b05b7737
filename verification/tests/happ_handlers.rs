use node_manager::deployments::read_deployments;
use node_manager::effects::Effect;
use node_manager::happ_handlers::{
    begin_deploy, deploy_refusal, finish_app, finish_logs, finish_uninstall, finish_validate,
    handle_happs_deploy, handle_happs_disable, handle_happs_enable, handle_happs_list,
    handle_happs_logs, handle_happs_uninstall, handle_happs_validate, log_scripts,
    manifest_write_failed, times_are_readable, LogsPlan,
};
use node_manager::happs::CommandOutput;
use node_manager::http::{Plan, Reply};
use node_manager::state::AppState;
use node_manager::store::read_state_file;

const BODY: &str = r#"{"manifest":{"app":{"name":"my_app","version":"0.1.0"}}}"#;
const PAID: &str =
    r#"{"manifest":{"app":{"name":"a","version":"1"},"economics":{"agreementHash":"h"}}}"#;
const LIST: &str = r#"[{"id":"01","app_name":"n","app_version":"1","app_id":"a::b::c","status":"running","deployed_at":"1970-01-01T00:00:00Z","last_error":"","manifest":{}}]"#;

fn state(content: &str) -> AppState {
    AppState::new(false, &read_state_file(content))
}

fn out(code: i32, stdout: &str, stderr: &str) -> CommandOutput {
    CommandOutput { code, stdout: stdout.to_string(), stderr: stderr.to_string() }
}

fn refused(status: u16, msg: &str) -> Plan {
    Plan::Answer(Reply::Error(status, msg.to_string()))
}

fn script(cmd: &str) -> String {
    format!("podman exec edgenode su - nonroot -c '{}'", cmd)
}

#[test]
fn the_list_of_deployments() {
    let s = state("unyt_agent_id=u\nlog_sender_endpoint=http://c\n");
    assert!(times_are_readable(LIST));
    assert_eq!(
        handle_happs_list(&s, LIST, Some(&out(0, "Installed: a::b::c disabled", "")), true, 3660),
        Reply::Json(
            r#"{"happs":[{"id":"01","app_name":"n","app_version":"1","app_id":"a::b::c","status":"paused","deployed_at":"1970-01-01T00:00:00Z","deployed_duration":"1h 1m","last_error":""}],"hw_mode":"STANDARD","edgenode_running":true,"accounting_ready":true,"unyt_configured":true,"log_sender_configured":true}"#
                .to_string()
        )
    );
    assert_eq!(
        handle_happs_list(&state(""), "[]", None, false, 0),
        Reply::Json(
            r#"{"happs":[],"hw_mode":"STANDARD","edgenode_running":false,"accounting_ready":false,"unyt_configured":false,"log_sender_configured":false}"#
                .to_string()
        )
    );
    assert!(!times_are_readable(r#"[{"deployed_at":"2024-00-01T00:00:00Z"}]"#));
}

#[test]
fn checking_a_manifest() {
    let s = state("");
    match handle_happs_validate(&s, true, BODY) {
        Plan::WriteThenRun(file, line) => {
            assert_eq!(file.path, "/var/lib/edgenode/manifests/my_app-0.1.0.json");
            assert_eq!(file.content, r#"{"app":{"name":"my_app","version":"0.1.0"}}"#);
            assert_eq!(
                line,
                script("happ_config_file validate --input /data/manifests/my_app-0.1.0.json")
            );
        }
        _ => panic!("the manifest is not written"),
    }
    assert_eq!(
        handle_happs_validate(&s, false, BODY),
        refused(400, "EdgeNode is not running. Start Standard EdgeNode mode first.")
    );
    assert_eq!(handle_happs_validate(&s, true, "{}"), refused(400, "manifest is required"));
    assert_eq!(
        handle_happs_validate(&s, true, r#"{"manifest":{"app":{"name":"x"}}}"#),
        refused(400, "manifest must include app.name and app.version")
    );
    assert_eq!(
        handle_happs_validate(&s, true, r#"{"manifest":{"app":{"name":"/","version":"1"}}}"#),
        refused(500, "Invalid app name or version for manifest file")
    );
    assert_eq!(manifest_write_failed("full"), Reply::Error(500, "full".to_string()));
    assert_eq!(
        finish_validate(&out(0, " fine\n", "")),
        Reply::Json(r#"{"valid":true,"output":"fine"}"#.to_string())
    );
    assert_eq!(
        finish_validate(&out(1, "", "bad \"x\"")),
        Reply::Json(r#"{"valid":false,"output":"bad \"x\""}"#.to_string())
    );
}

#[test]
fn deploying() {
    let s = state("");
    assert!(matches!(handle_happs_deploy(&s, true, BODY), Plan::WriteThenRun(_, _)));
    assert_eq!(
        handle_happs_deploy(&s, true, PAID),
        refused(400, "Manifest includes economics.agreementHash but Unyt Agent ID and Log Collector URL must be configured in HoloFuel first.")
    );
    let ready = state("unyt_agent_id=u\nlog_sender_endpoint=http://c\n");
    assert!(matches!(handle_happs_deploy(&ready, true, PAID), Plan::WriteThenRun(_, _)));
    assert_eq!(
        handle_happs_deploy(&state("hw_mode=WIND_TUNNEL\n"), true, BODY),
        refused(400, "Switch to Standard EdgeNode mode in Mode before managing hApps.")
    );
    assert_eq!(deploy_refusal(&out(0, "ok", "")), None);
    assert_eq!(
        deploy_refusal(&out(1, "no\n", "")),
        Some(Reply::Error(400, "Manifest validation failed: no".to_string()))
    );
}

#[test]
fn a_deployment_begins() {
    let begun = begin_deploy(BODY, &[0xcd; 16], LIST).unwrap();
    assert_eq!(begun.id, "cd".repeat(16));
    assert_eq!(begun.container_path, "/data/manifests/my_app-0.1.0.json");
    assert_eq!(
        begun.reply,
        Reply::Json(format!(r#"{{"status":"installing","deployment_id":"{}"}}"#, begun.id))
    );
    let text = match &begun.done[1] {
        Effect::Write(_, text) => text.clone(),
        _ => panic!("nothing is written"),
    };
    let list = read_deployments(&text);
    assert_eq!(list.len(), 2);
    assert_eq!(list[1].id, begun.id);
    assert_eq!(list[1].app_name, "my_app");
    assert_eq!(list[1].status, "installing");
    assert_eq!(list[1].manifest, r#"{"app":{"name":"my_app","version":"0.1.0"}}"#);
    assert!(begin_deploy("{}", &[0; 16], LIST).is_none());
}

#[test]
fn pausing_and_resuming() {
    let s = state("");
    let body = r#"{"appId":"a::b::c"}"#;
    assert_eq!(handle_happs_enable(&s, true, body), Plan::Run(script("enable_happ a::b::c")));
    assert_eq!(handle_happs_disable(&s, true, body), Plan::Run(script("disable_happ a::b::c")));
    assert_eq!(handle_happs_enable(&s, true, "{}"), refused(400, "appId is required"));
    assert_eq!(handle_happs_disable(&s, true, "{}"), refused(400, "appId is required"));
    assert!(matches!(handle_happs_enable(&s, false, body), Plan::Answer(_)));
    assert_eq!(
        finish_app(&out(0, "done", "")),
        Reply::Json(r#"{"status":"ok","output":"done"}"#.to_string())
    );
    assert_eq!(finish_app(&out(1, "", "no")), Reply::Error(500, "\nno".to_string()));
}

#[test]
fn removing_a_deployment() {
    let s = state("");
    assert_eq!(
        handle_happs_uninstall(&s, true, r#"{"deploymentId":"01"}"#, LIST),
        Plan::Run(script("uninstall_happ a::b::c"))
    );
    assert_eq!(
        handle_happs_uninstall(&s, true, r#"{"deploymentId":"01","appId":"x::y::z"}"#, LIST),
        Plan::Run(script("uninstall_happ x::y::z"))
    );
    assert_eq!(handle_happs_uninstall(&s, true, r#"{"deploymentId":"02"}"#, LIST), Plan::Go);
    assert_eq!(
        handle_happs_uninstall(&s, true, "{}", LIST),
        refused(400, "deploymentId is required")
    );
    let (done, reply) = finish_uninstall(r#"{"deploymentId":"01"}"#, LIST, Some(&out(0, "", "")));
    assert_eq!(reply, Reply::Json(r#"{"status":"ok"}"#.to_string()));
    assert_eq!(
        done[1],
        Effect::Write("/etc/node-manager/deployments.json".to_string(), "[]".to_string())
    );
    let (done, reply) = finish_uninstall(r#"{"deploymentId":"01"}"#, LIST, Some(&out(2, "", "e")));
    assert!(done.is_empty());
    assert_eq!(reply, Reply::Error(500, "\ne".to_string()));
    let (done, _) = finish_uninstall(r#"{"deploymentId":"02"}"#, LIST, None);
    assert_eq!(done.len(), 3);
}

#[test]
fn logs() {
    assert_eq!(
        handle_happs_logs(&state("hw_mode=WIND_TUNNEL\n"), "id=01"),
        LogsPlan::Answer(Reply::Error(400, "hApp logs unavailable in Wind Tunnel mode".to_string()))
    );
    assert_eq!(
        handle_happs_logs(&state(""), "id=01"),
        LogsPlan::Collect(Some("/etc/node-manager/happ-logs/01.log".to_string()))
    );
    assert_eq!(handle_happs_logs(&state(""), ""), LogsPlan::Collect(None));
    let (holochain, log_sender) = log_scripts();
    assert_eq!(holochain, script("tail -n 80 /data/logs/holochain.log"));
    assert_eq!(log_sender, script("tail -n 40 /data/logs/log-sender.log"));
    assert_eq!(
        finish_logs(true, Some("in"), &out(0, "h", ""), &out(0, "", "")),
        Reply::Json(
            r#"{"install_log":"in","holochain_log":"h","log_sender_log":"(log empty or unavailable)"}"#
                .to_string()
        )
    );
    assert_eq!(
        finish_logs(true, None, &out(0, "h", ""), &out(0, "l", "")),
        Reply::Json(
            r#"{"install_log":"(no install log available)","holochain_log":"h","log_sender_log":"l"}"#
                .to_string()
        )
    );
    assert!(matches!(
        finish_logs(false, None, &out(0, "", ""), &out(0, "", "")),
        Reply::Json(text) if text.contains("(no deployment id specified)")
    ));
}
