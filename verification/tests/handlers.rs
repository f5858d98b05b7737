use node_manager::config::PathKind;
use node_manager::effects::{Effect, FileWrite};
use node_manager::handlers::{
    begin_submit, confirm_password, finish_password, finish_submit, finish_unyt, handle_hardware,
    handle_log_sender, handle_manage_status, handle_nodename, handle_password, handle_submit,
    handle_unyt, handle_update, handle_wind_tunnel, refuse_hardware, refuse_submit_again,
    refuse_unyt, set_wind_tunnel_entrypoint, set_wind_tunnel_image, submit_key_failed, wind_tunnel_path, PasswordStep,
};
use node_manager::http::{Plan, Reply};
use node_manager::quadlet::Site;
use node_manager::state::AppState;
use node_manager::store::read_state_file;

fn site() -> Site {
    Site {
        image_env: None,
        entrypoint_env: None,
        wind_tunnel_image: "wt:latest".to_string(),
        edgenode_image: "edge:latest".to_string(),
    }
}

fn state(content: &str) -> AppState {
    AppState::new(false, &read_state_file(content))
}

fn ok() -> Reply {
    Reply::Json(r#"{"status":"ok"}"#.to_string())
}

fn bad(msg: &str) -> Reply {
    Reply::Error(400, msg.to_string())
}

fn written(effect: &Effect) -> (String, String) {
    match effect {
        Effect::Write(path, text) => (path.clone(), text.clone()),
        _ => panic!("nothing is written"),
    }
}

#[test]
fn setting_up_refused() {
    assert_eq!(
        handle_submit(r#"{"nodeName":""}"#, &state("")),
        (Vec::new(), Plan::Answer(bad("nodeName is required")))
    );
    assert_eq!(
        handle_submit(r#"{"nodeName":"a","unytAgentId":"-"}"#, &state("")).1,
        Plan::Answer(bad("Unyt Agent ID cannot start or end with a hyphen."))
    );
    let long = |mode: &str| {
        format!(
            r#"{{"nodeName":"{}","unytAgentId":"abc","hwMode":"{}","password":"12345678"}}"#,
            "a".repeat(51),
            mode
        )
    };
    assert_eq!(
        handle_submit(&long("WIND_TUNNEL"), &state("")).1,
        Plan::Answer(bad("Wind Tunnel hostname would exceed 63 characters. Shorten node name to at most 50 characters."))
    );
    assert_eq!(handle_submit(&long("STANDARD"), &state("")).1, Plan::Go);
    let short = Plan::Answer(bad("Password must be at least 8 characters"));
    assert_eq!(handle_submit(r#"{"nodeName":"a"}"#, &state("")), (Vec::new(), short));
    let (done, plan) =
        handle_submit(r#"{"nodeName":"a","sshKey":"nonsense","password":"12345678"}"#, &state(""));
    assert_eq!(done.len(), 4);
    assert_eq!(plan, Plan::Answer(bad("Invalid SSH public key format")));
    assert_eq!(
        submit_key_failed("disk full"),
        Reply::Error(500, "Failed to write SSH key: disk full".to_string())
    );
}

#[test]
fn setting_up_begins() {
    let (done, plan) = handle_submit(
        r#"{"nodeName":"a","wifiSsid":"net","wifiPass":"key","password":"12345678"}"#,
        &state(""),
    );
    assert_eq!(plan, Plan::Go);
    assert_eq!(
        done[0],
        Effect::Run(
            ["nmcli", "device", "wifi", "connect", "net", "password", "key"].map(String::from).to_vec()
        )
    );
    assert_eq!(done[1], Effect::Pause(4));
    assert_eq!(done[2], Effect::MakeDir("/etc/node-manager".to_string()));
    assert_eq!(done.len(), 6);
    assert_eq!(
        handle_submit(r#"{"nodeName":"a","wifiSsid":"net","password":"12345678"}"#, &state("")).0.len(),
        4
    );
    assert_eq!(
        handle_submit(r#"{"nodeName":"a","sshKey":"ssh-rsa A","password":"12345678"}"#, &state("")).1,
        Plan::Write(FileWrite {
            dir: "/home/holo/.ssh".to_string(),
            path: "/home/holo/.ssh/authorized_keys".to_string(),
            content: "ssh-rsa A\n".to_string(),
        })
    );
}

#[test]
fn choosing_a_password() {
    let salt = [1, 2, 3, 4];
    assert_eq!(
        begin_submit(r#"{"nodeName":"a","password":"pass-word"}"#, &state(""), &salt),
        PasswordStep::Digest("01020304:pass-word".to_string())
    );
    assert_eq!(
        begin_submit(r#"{"nodeName":"a","password":"ääääääää"}"#, &state(""), &salt),
        PasswordStep::Digest("01020304:ääääääää".to_string())
    );
    let short = PasswordStep::Answer(bad("Password must be at least 8 characters"));
    assert_eq!(begin_submit(r#"{"nodeName":"a","password":"1234567"}"#, &state(""), &salt), short);
    assert_eq!(begin_submit(r#"{"nodeName":"a","password":"ääää"}"#, &state(""), &salt), short);
    assert_eq!(begin_submit(r#"{"nodeName":"a"}"#, &state(""), &salt), short);
    assert_eq!(
        begin_submit("{}", &state(""), &salt),
        PasswordStep::Answer(bad("nodeName is required"))
    );
}

#[test]
fn setting_up_ends() {
    let mut s = state("log_sender_endpoint=http://c\n");
    let body = r#"{"nodeName":"a","hwMode":"WIND_TUNNEL","unytAgentId":"uhC","sshKey":"ssh-rsa A","password":"12345678"}"#;
    let phrase = "legal winner thank year wave sausage worth useful legal winner thank yellow";
    let (done, reply, auth) = finish_submit(
        body,
        &mut s,
        &[1; 8],
        &site(),
        &[1, 2, 3, 4],
        "abcd",
        phrase,
        &[5, 6, 7, 8],
        "ef01",
    );
    assert_eq!(
        reply,
        Reply::Json(format!(r#"{{"status":"ok","seed_phrase":"{}"}}"#, phrase))
    );
    let auth = auth.unwrap();
    assert_eq!(auth, "sha256:01020304:abcd");
    assert!(s.onboarded);
    assert_eq!(s.node_name, "a");
    assert_eq!(s.hw_mode, "WIND_TUNNEL");
    assert_eq!(s.unyt_agent_id, "uhC");
    assert_eq!(s.wt_suffix, "0101010101010101");
    assert_eq!(s.seed_hash, "sha256:05060708:ef01");
    assert_eq!(s.log_sender_endpoint, "http://c");
    assert_eq!(done.len(), 3 + 2 + 3 + 7 + 1 + 2);
    assert_eq!(written(&done[3]), ("/etc/node-manager/auth".to_string(), auth.clone()));
    assert_eq!(
        done[4],
        Effect::Run(["chmod", "600", "/etc/node-manager/auth"].map(String::from).to_vec())
    );
    let (path, text) = written(&done[6]);
    assert_eq!(path, "/etc/node-manager/state");
    assert_eq!(
        text,
        "onboarded=true\nnode_name=a\nhw_mode=WIND_TUNNEL\nunyt_agent_id=uhC\nwt_suffix=0101010101010101\nseed_hash=sha256:05060708:ef01\n"
    );
    for effect in &done {
        if let Effect::Write(_, content) = effect {
            assert!(!content.contains(phrase));
        }
    }
    let again = state(&text);
    assert_eq!(
        (again.onboarded, again.node_name, again.hw_mode, again.unyt_agent_id, again.wt_suffix),
        (true, s.node_name, s.hw_mode, s.unyt_agent_id, s.wt_suffix)
    );
    assert_eq!(again.seed_hash, s.seed_hash);
    let mut plain = state("");
    let (done, _, _) = finish_submit(
        r#"{"nodeName":"b"}"#,
        &mut plain,
        &[1; 8],
        &site(),
        &[0; 4],
        "a",
        phrase,
        &[0; 4],
        "b",
    );
    assert_eq!(plain.hw_mode, "STANDARD");
    assert_eq!(done.len(), 2 + 3 + 7 + 1 + 2);
}

#[test]
fn a_node_is_set_up_once() {
    let content = "onboarded=true\nnode_name=a\nseed_hash=sha256:00000000:ab\n";
    let mut s = state(content);
    let body = r#"{"nodeName":"b","password":"12345678","sshKey":"ssh-rsa A"}"#;
    let again = || Reply::Error(409, "Node is already set up".to_string());
    assert_eq!(refuse_submit_again(&s), Some(again()));
    assert_eq!(refuse_submit_again(&state("node_name=a\n")), None);
    assert_eq!(begin_submit(body, &s, &[0; 4]), PasswordStep::Answer(again()));
    assert_eq!(handle_submit(body, &s), (Vec::new(), Plan::Answer(again())));
    let end =
        finish_submit(body, &mut s, &[1; 8], &site(), &[0; 4], "cd", "x", &[0; 4], "ef");
    assert_eq!(end, (Vec::new(), again(), None));
    assert_eq!(s, state(content));
}

#[test]
fn names_in_the_wind_tunnel() {
    let body = |name: &str, agent: &str| {
        format!(
            r#"{{"nodeName":"{}","hwMode":"WIND_TUNNEL","unytAgentId":"{}","password":"12345678"}}"#,
            name, agent
        )
    };
    let accepted =
        |name: &str, agent: &str| handle_submit(&body(name, agent), &state("")).1 == Plan::Go;
    for n in [1, 46, 47, 50] {
        assert!(accepted(&"a".repeat(n), ""));
        assert!(accepted(&"a".repeat(n), &"b".repeat(200)));
    }
    assert!(accepted("home-node-01", &"b".repeat(53)));
    assert!(!accepted(&"a".repeat(51), ""));
    assert!(!accepted("a", "-b"));
    let tunnel = "node_name=home-node-01\nhw_mode=WIND_TUNNEL\n";
    let agent = format!(r#"{{"unytAgentId":"{}"}}"#, "b".repeat(53));
    assert_eq!(refuse_unyt(&agent, &state(tunnel)), None);
    let mut s = state(tunnel);
    assert_eq!(handle_unyt(&agent, &mut s, "", &site()).1, None);
    assert_eq!(s.unyt_agent_id, "b".repeat(53));
    assert!(refuse_unyt(&agent, &state("node_name=home-node-01\n")).is_some());
    let name = format!(r#"{{"nodeName":"{}"}}"#, "c".repeat(50));
    let (done, _) = handle_nodename(&name, &mut s, "", &site());
    assert!(!done.is_empty());
    assert_eq!(s.node_name, "c".repeat(50));
}

#[test]
fn the_status() {
    let mut s = state("node_name=a\nunyt_agent_id=\nlog_sender_endpoint=http://c\n");
    let (done, reply) = handle_manage_status(
        &mut s,
        &[0xab; 8],
        "node_name=a\n",
        "ssh-rsa \"A\"\nssh-rsa B\n",
        r#"[{"id":"1"},{"id":"2"}]"#,
        true,
        42,
    );
    assert_eq!(
        reply,
        Reply::Json(
            r#"{"version":"6.2.1","node_name":"a","hw_mode":"STANDARD","unyt_agent_id":"","log_sender_endpoint":"http://c","edgenode_running":true,"happs_count":2,"wt_client_name":"a-abababababababab","wt_hostname":"nomad-client-a","ssh_key_count":2,"ssh_keys":["ssh-rsa \"A\"","ssh-rsa B"],"uptime_secs":42,"has_seed_phrase":false}"#
                .replace(r#"ssh-rsa "A""#, r#"ssh-rsa \"A\""#)
        )
    );
    assert_eq!(written(&done[1]).1, "node_name=a\nwt_suffix=abababababababab\n");
    s.seed_hash = "sha256:00000000:ab".to_string();
    let (done, reply) = handle_manage_status(&mut s, &[0; 8], "", "", "", false, 0);
    assert!(done.is_empty());
    assert!(matches!(reply, Reply::Json(text) if text.ends_with(r#","has_seed_phrase":true}"#)));
}

#[test]
fn changing_the_name() {
    let mut s = state("node_name=a\nhw_mode=WIND_TUNNEL\n");
    let (done, reply) = handle_nodename(r#"{"nodeName":"b-2"}"#, &mut s, "node_name=a\n", &site());
    assert_eq!(
        reply,
        Reply::Json(r#"{"status":"ok","node_name":"b-2","wt_hostname":"nomad-client-b-2"}"#.to_string())
    );
    assert_eq!(s.node_name, "b-2");
    assert_eq!(written(&done[1]).1, "node_name=b-2\n");
    assert_eq!(done.len(), 3 + 1 + 7 + 1);
    assert_eq!(
        done[3],
        Effect::Run(["hostnamectl", "set-hostname", "b-2"].map(String::from).to_vec())
    );
    assert_eq!(done[11], Effect::RestartIfActive("wind-tunnel.service".to_string()));
}

#[test]
fn a_long_name_outside_the_wind_tunnel() {
    let mut s = state("node_name=a\nunyt_agent_id=abc\n");
    let body = format!(r#"{{"nodeName":"{}"}}"#, "b".repeat(55));
    let (done, _) = handle_nodename(&body, &mut s, "", &site());
    assert!(!done.is_empty());
    assert_eq!(s.node_name, "b".repeat(55));
    let too_long = bad("Wind Tunnel hostname would exceed 63 characters. Shorten node name to at most 50 characters.");
    let before = state(&format!("node_name={}\nunyt_agent_id=abc\n", "b".repeat(55)));
    let (done, reply) = handle_hardware(r#"{"mode":"WIND_TUNNEL"}"#, &mut s, "", &site());
    assert!(done.is_empty());
    assert_eq!(reply, too_long);
    assert_eq!(s, before);
    assert_eq!(refuse_hardware(r#"{"mode":"WIND_TUNNEL"}"#, &s), Some(too_long));
    assert_eq!(refuse_hardware(r#"{"mode":"STANDARD"}"#, &s), None);
}

#[test]
fn changing_the_name_refused() {
    let mut s = state("node_name=a\nunyt_agent_id=abc\nhw_mode=WIND_TUNNEL\n");
    let mut refused = |body: &str| {
        let (done, reply) = handle_nodename(body, &mut s, "", &site());
        assert!(done.is_empty());
        assert_eq!(s.node_name, "a");
        reply
    };
    assert_eq!(refused("{}"), bad("Node name is required."));
    assert_eq!(
        refused(r#"{"nodeName":"B"}"#),
        bad("Node name must be lowercase letters, numbers and hyphens only.")
    );
    assert_eq!(refused(r#"{"nodeName":"a"}"#), bad("Node name unchanged"));
    assert_eq!(
        refused(&format!(r#"{{"nodeName":"{}"}}"#, "b".repeat(51))),
        bad("Wind Tunnel hostname would exceed 63 characters. Shorten node name to at most 50 characters.")
    );
    let mut s = state("node_name=a\nunyt_agent_id=abc\n");
    let body = format!(r#"{{"nodeName":"{}"}}"#, "b".repeat(60));
    let (done, reply) = handle_nodename(&body, &mut s, "", &site());
    assert!(done.is_empty());
    assert_eq!(
        reply,
        bad("Wind Tunnel client name would exceed 63 characters (node name + full Agent ID). Shorten node name to at most 59 characters.")
    );
}

#[test]
fn saving_an_agent_id() {
    let mut s = state("node_name=a\nwt_suffix=00\n");
    let (done, answered) = handle_unyt(r#"{"unytAgentId":"uhC"}"#, &mut s, "", &site());
    assert_eq!(answered, None);
    assert_eq!(s.unyt_agent_id, "uhC");
    assert_eq!(done.len(), 3 + 7 + 7 + 1);
    assert_eq!(written(&done[1]).1, "unyt_agent_id=uhC\n");
    let (done, reply) = finish_unyt(&mut s, &[0; 8], "");
    assert!(done.is_empty());
    assert_eq!(reply, Reply::Json(r#"{"status":"ok","wt_client_name":"a-uhC"}"#.to_string()));
    let (done, answered) = handle_unyt(r#"{"unytAgentId":"a b"}"#, &mut s, "", &site());
    assert!(done.is_empty());
    assert_eq!(
        answered,
        Some(bad("Unyt Agent ID may only contain letters, numbers, and hyphens."))
    );
    assert_eq!(s.unyt_agent_id, "uhC");
}

#[test]
fn switching_hardware() {
    let mut s = state("node_name=a\n");
    let (done, reply) = handle_hardware(r#"{"mode":"WIND_TUNNEL"}"#, &mut s, "", &site());
    assert_eq!(reply, ok());
    assert_eq!(s.hw_mode, "WIND_TUNNEL");
    assert_eq!(done.len(), 13);
    let (done, _) = handle_hardware(r#"{"mode":"anything"}"#, &mut s, "", &site());
    assert_eq!(s.hw_mode, "STANDARD");
    assert_eq!(
        done[11],
        Effect::Run(
            ["systemctl", "disable", "--now", "wind-tunnel.service"].map(String::from).to_vec()
        )
    );
}

#[test]
fn wind_tunnel_settings() {
    let mut s = state("node_name=a\n");
    let body = r#"{"wtImageOverride":" x:y ","wtEntrypointBind":"/home/holo/e","apply":true}"#;
    let (done, refused) = set_wind_tunnel_image(body, &mut s, "");
    assert_eq!(refused, None);
    assert_eq!(s.wt_image_override, "x:y");
    assert_eq!(written(&done[1]).1, "wt_image_override=x:y\n");
    assert_eq!(wind_tunnel_path(body), Some("/home/holo/e".to_string()));
    let (done, refused) = set_wind_tunnel_entrypoint(body, &mut s, PathKind::File, "a=b\n");
    assert_eq!(refused, None);
    assert_eq!(written(&done[1]).1, "a=b\nwt_entrypoint_bind=/home/holo/e\n");
    let (done, reply) = handle_wind_tunnel(body, &s, &site());
    assert_eq!(done.len(), 7);
    assert_eq!(
        reply,
        Reply::Json(
            r#"{"status":"ok","image":"x:y","hostname":"nomad-client-a","entrypoint_bind":"/home/holo/e"}"#
                .to_string()
        )
    );
    let (done, _) = handle_wind_tunnel(r#"{"apply":"false"}"#, &s, &site());
    assert!(done.is_empty());
}

#[test]
fn wind_tunnel_settings_refused() {
    let mut s = state("node_name=a\n");
    let (done, refused) = set_wind_tunnel_image(r#"{"wtImageOverride":"none"}"#, &mut s, "");
    assert!(done.is_empty());
    assert_eq!(
        refused,
        Some(bad("Image override must include a tag (e.g. registry/image:tag)."))
    );
    let (_, refused) = set_wind_tunnel_entrypoint(
        r#"{"wtEntrypointBind":"/etc/x"}"#,
        &mut s,
        PathKind::File,
        "",
    );
    assert_eq!(refused, Some(bad("Entrypoint bind must be under /home/holo/.")));
    let (done, refused) = set_wind_tunnel_image("{}", &mut s, "");
    assert!(done.is_empty() && refused.is_none());
    assert_eq!(wind_tunnel_path("{}"), None);
    let (done, reply) = handle_wind_tunnel("{}", &s, &site());
    assert_eq!(done.len(), 7);
    assert_eq!(
        reply,
        Reply::Json(
            r#"{"status":"ok","image":"wt:latest","hostname":"nomad-client-a","entrypoint_bind":""}"#
                .to_string()
        )
    );
}

#[test]
fn saving_a_log_collector() {
    let mut s = state("node_name=a\n");
    let (done, reply) =
        handle_log_sender(r#"{"logSenderEndpoint":"https://c"}"#, &mut s, "", &site());
    assert_eq!(reply, ok());
    assert_eq!(s.log_sender_endpoint, "https://c");
    assert_eq!(done.len(), 3 + 7 + 1);
    let (done, reply) = handle_log_sender(r#"{"logSenderEndpoint":"c"}"#, &mut s, "", &site());
    assert!(done.is_empty());
    assert_eq!(reply, bad("Log Collector URL must start with http:// or https://"));
    assert_eq!(s.log_sender_endpoint, "https://c");
}

#[test]
fn changing_the_password() {
    let stored = "sha256:00ff:abcd";
    let body = r#"{"current":"old","newPassword":"new-pass"}"#;
    assert_eq!(handle_password(body, stored), PasswordStep::Digest("00ff:old".to_string()));
    assert_eq!(
        confirm_password(body, stored, "abcd", &[0x0a, 0x0b, 0x0c, 0x0d]),
        PasswordStep::Digest("0a0b0c0d:new-pass".to_string())
    );
    let (hash, done, reply) = finish_password(&[0x0a, 0x0b, 0x0c, 0x0d], "ef01");
    assert_eq!(hash, "sha256:0a0b0c0d:ef01");
    assert_eq!(
        done,
        vec![
            Effect::Write("/etc/node-manager/auth".to_string(), hash),
            Effect::Run(["chmod", "600", "/etc/node-manager/auth"].map(String::from).to_vec()),
        ]
    );
    assert_eq!(reply, ok());
}

#[test]
fn changing_the_password_refused() {
    let stored = "sha256:00ff:abcd";
    let wrong = PasswordStep::Answer(Reply::Error(401, "Incorrect current password".to_string()));
    assert_eq!(
        handle_password(r#"{"current":"","newPassword":"12345678"}"#, stored),
        PasswordStep::Answer(bad("current and newPassword are required"))
    );
    assert_eq!(
        handle_password(r#"{"current":"x","newPassword":"1234567"}"#, stored),
        PasswordStep::Answer(bad("Password must be at least 8 characters"))
    );
    assert_eq!(
        handle_password(r#"{"current":"x","newPassword":"ääää"}"#, stored),
        PasswordStep::Answer(bad("Password must be at least 8 characters"))
    );
    let body = r#"{"current":"x","newPassword":"12345678"}"#;
    assert_eq!(handle_password(body, "broken"), wrong);
    assert_eq!(confirm_password(body, stored, "abce", &[0; 4]), wrong);
}

#[test]
fn settings_in_memory_and_on_disk_agree() {
    let mut disk = "node_name=a\nhw_mode=STANDARD\nwt_suffix=00\n".to_string();
    let mut s = state(&disk);
    let (done, _) = handle_nodename(r#"{"nodeName":"b"}"#, &mut s, &disk, &site());
    disk = written(&done[1]).1;
    assert_eq!(state(&disk), s);
    let (done, _) = handle_hardware(r#"{"mode":"WIND_TUNNEL"}"#, &mut s, &disk, &site());
    disk = written(&done[2]).1;
    assert_eq!(state(&disk), s);
    let (done, _) = handle_unyt(r#"{"unytAgentId":"uhC"}"#, &mut s, &disk, &site());
    disk = written(&done[1]).1;
    assert_eq!(state(&disk), s);
    let (done, _) = handle_log_sender(r#"{"logSenderEndpoint":"http://c"}"#, &mut s, &disk, &site());
    disk = written(&done[1]).1;
    assert_eq!(state(&disk), s);
    let (done, _) = set_wind_tunnel_image(r#"{"wtImageOverride":"x:y"}"#, &mut s, &disk);
    disk = written(&done[1]).1;
    assert_eq!(state(&disk), s);
}

#[test]
fn asking_for_an_update() {
    let (repo, reply) = handle_update(None);
    assert_eq!(repo, "holo-host/node-manager");
    assert_eq!(reply, Reply::Json(r#"{"status":"update_triggered"}"#.to_string()));
}
