use node_manager::deployments::{deployments_text, read_deployments, Deployment};
use node_manager::effects::Effect;
use node_manager::happs::{
    all_printed, disable_happ, enable_happ, extract_app_id_from_install_output, finish_install,
    happ_outcome, happs_prereq_error, keep_install_log, list_happs_script, list_installed_happs,
    live_happs_in_line, manifest_app_name, manifest_app_version,
    manifest_has_economics_agreement, manifest_verdict, parse_list_happs_output,
    podman_exec_nonroot, prepare_install, read_happ_install_log, reconcile_deployment_status,
    result_is_keepable, run_install_happ, tail_container_log, tail_text, uninstall_happ, validate_happ_manifest,
    write_happ_manifest, CommandOutput, LiveHapp,
};
use node_manager::state::AppState;
use node_manager::store::read_state_file;

const MANIFEST: &str = r#"{"app":{"name":"my_app","version":"0.1.0"},"economics":{"agreementHash":"uhC"}}"#;

fn out(code: i32, stdout: &str, stderr: &str) -> CommandOutput {
    CommandOutput { code, stdout: stdout.to_string(), stderr: stderr.to_string() }
}

fn happ(id: &str, enabled: bool) -> LiveHapp {
    LiveHapp { app_id: id.to_string(), enabled }
}

fn deployment(app_id: &str, status: &str) -> Deployment {
    Deployment {
        id: "01".to_string(),
        app_name: "n".to_string(),
        app_version: "1".to_string(),
        app_id: app_id.to_string(),
        status: status.to_string(),
        deployed_at: String::new(),
        last_error: String::new(),
        manifest: "{}".to_string(),
    }
}

#[test]
fn manifest_fields() {
    assert_eq!(manifest_app_name(MANIFEST), "my_app");
    assert_eq!(manifest_app_version(MANIFEST), "0.1.0");
    assert!(manifest_has_economics_agreement(MANIFEST));
    assert!(!manifest_has_economics_agreement(r#"{"economics":{"agreementHash":""}}"#));
    assert!(!manifest_has_economics_agreement("{}"));
}

#[test]
fn manifest_files() {
    let (file, path) = write_happ_manifest("../my_app", "0.1.0/..", MANIFEST).unwrap();
    assert_eq!(file.dir, "/var/lib/edgenode/manifests");
    assert_eq!(file.path, "/var/lib/edgenode/manifests/my_app-0.1.0...json");
    assert_eq!(file.content, MANIFEST);
    assert_eq!(path, "/data/manifests/my_app-0.1.0...json");
    assert_eq!(
        write_happ_manifest("//", "1", "{}"),
        Err("Invalid app name or version for manifest file".to_string())
    );
    assert!(write_happ_manifest("a", "é", "{}").is_err());
}

#[test]
fn command_lines() {
    assert_eq!(podman_exec_nonroot("a'b"), r"podman exec edgenode su - nonroot -c 'a'\''b'");
    assert_eq!(list_happs_script(), "podman exec edgenode su - nonroot -c 'list_happs'");
    assert_eq!(
        validate_happ_manifest("/p"),
        "podman exec edgenode su - nonroot -c 'happ_config_file validate --input /p'"
    );
    assert_eq!(run_install_happ("/p", ""), "podman exec edgenode su - nonroot -c 'install_happ /p'");
    assert_eq!(run_install_happ("/p", "n"), "podman exec edgenode su - nonroot -c 'install_happ /p n'");
    assert_eq!(enable_happ("x"), "podman exec edgenode su - nonroot -c 'enable_happ x'");
    assert_eq!(disable_happ("x"), "podman exec edgenode su - nonroot -c 'disable_happ x'");
    assert_eq!(uninstall_happ("x"), "podman exec edgenode su - nonroot -c 'uninstall_happ x'");
    assert_eq!(tail_container_log("/l", 80), "podman exec edgenode su - nonroot -c 'tail -n 80 /l'");
}

#[test]
fn command_results() {
    assert_eq!(manifest_verdict(&out(0, "a", "b")), (true, "ab".to_string()));
    assert_eq!(manifest_verdict(&out(2, "", "b")), (false, "b".to_string()));
    assert_eq!(all_printed(&out(0, "a", "b")), "a\nb");
    assert_eq!(happ_outcome(&out(0, "a", "")), Ok("a\n".to_string()));
    assert_eq!(happ_outcome(&out(1, "", "e")), Err("\ne".to_string()));
    assert_eq!(tail_text(&out(0, "line\n", "")), "line\n");
    assert_eq!(tail_text(&out(1, " ", "\n")), "(log empty or unavailable)");
    assert_eq!(read_happ_install_log(Some("x")), "x");
    assert_eq!(read_happ_install_log(None), "(no install log available)");
}

#[test]
fn ids_of_installations() {
    assert_eq!(
        extract_app_id_from_install_output("start\nInstalled app (my_app::0.1::node) done\n"),
        "my_app::0.1::node"
    );
    assert_eq!(extract_app_id_from_install_output("(uhCAk::x)"), "uhCAk::x");
    assert_eq!(extract_app_id_from_install_output("(none) (a::b)\nid longname::v1::n!"), "longname::v1::n");
    assert_eq!(extract_app_id_from_install_output("short a::b::c"), "");
    assert_eq!(extract_app_id_from_install_output("(a::b"), "");
    assert_eq!(extract_app_id_from_install_output(""), "");
}

#[test]
fn listings_by_line() {
    assert_eq!(
        parse_list_happs_output("INSTALLED apps:\n  app::1::a, ENABLED\n  'app::2::b' Disabled\n"),
        vec![happ("app::1::a", true), happ("app::2::b", false)]
    );
    assert_eq!(parse_list_happs_output("installed: a::b::c"), vec![happ("a::b::c", true)]);
    assert_eq!(
        live_happs_in_line("x::y::z (u::v::w)", "disabled"),
        vec![happ("x::y::z", false), happ("u::v::w", false)]
    );
}

#[test]
fn bare_listings() {
    assert_eq!(
        parse_list_happs_output(r#"["app::1::a","app::2::b", "x"]"#),
        vec![happ("app::1::a", true), happ("app::2::b", true)]
    );
    assert_eq!(parse_list_happs_output("a::::"), Vec::new());
    assert_eq!(parse_list_happs_output("enabled nothing"), Vec::new());
}

#[test]
fn listing_the_container() {
    assert_eq!(list_installed_happs(None), Err("EdgeNode is not running".to_string()));
    assert_eq!(
        list_installed_happs(Some(&out(-3, "", ""))),
        Err("list_happs failed (exit -3)".to_string())
    );
    assert_eq!(
        list_installed_happs(Some(&out(125, "", ""))),
        Err("list_happs failed (exit 125)".to_string())
    );
    assert_eq!(list_installed_happs(Some(&out(1, "", "boom"))), Err("boom".to_string()));
    assert_eq!(
        list_installed_happs(Some(&out(1, "[\"a::b::cc\"]", ""))),
        Ok(vec![happ("a::b::cc", true)])
    );
}

#[test]
fn status_of_deployments() {
    let live = vec![happ("a::b::c", true), happ("d::e::f", false)];
    assert_eq!(reconcile_deployment_status(&deployment("a::b::c", "error"), &live), "running");
    assert_eq!(reconcile_deployment_status(&deployment("d::e::f", "running"), &live), "paused");
    assert_eq!(reconcile_deployment_status(&deployment("x::y::z", "running"), &live), "error");
    assert_eq!(reconcile_deployment_status(&deployment("a::b::c", "installing"), &live), "installing");
    assert_eq!(reconcile_deployment_status(&deployment("", "error"), &live), "error");
    assert_eq!(reconcile_deployment_status(&deployment("", "new"), &live), "new");
}

#[test]
fn when_applications_can_be_managed() {
    let tunnel = AppState::new(false, &read_state_file("hw_mode=WIND_TUNNEL\n"));
    let standard = AppState::new(false, &read_state_file(""));
    assert_eq!(
        happs_prereq_error(&tunnel, true),
        Some("Switch to Standard EdgeNode mode in Mode before managing hApps.".to_string())
    );
    assert_eq!(
        happs_prereq_error(&standard, false),
        Some("EdgeNode is not running. Start Standard EdgeNode mode first.".to_string())
    );
    assert_eq!(happs_prereq_error(&standard, true), None);
}

#[test]
fn an_installation_that_goes_well() {
    let file = deployments_text(&vec![deployment("", "installing")]);
    assert_eq!(prepare_install(), vec![Effect::MakeDir("/etc/node-manager/happ-logs".to_string())]);
    assert_eq!(
        keep_install_log("01", "ok (a::b::c)"),
        vec![Effect::Write(
            "/etc/node-manager/happ-logs/01.log".to_string(),
            "ok (a::b::c)".to_string()
        )]
    );
    let done = finish_install("01", 0, "ok (a::b::c)", &file, 1704067200);
    let text = match &done[1] {
        Effect::Write(_, text) => text.clone(),
        _ => panic!("nothing is written"),
    };
    let now = &read_deployments(&text)[0];
    assert_eq!(now.status, "running");
    assert_eq!(now.app_id, "a::b::c");
    assert_eq!(now.deployed_at, "2024-01-01T00:00:00Z");
    assert_eq!(now.last_error, "");
}

#[test]
fn an_installation_that_fails() {
    let file = deployments_text(&vec![deployment("old::id::x", "installing")]);
    let long = "x".repeat(2500);
    assert!(result_is_keepable("01", 1, &long, &file));
    let done = finish_install("01", 1, &long, &file, 0);
    let text = match &done[1] {
        Effect::Write(_, text) => text.clone(),
        _ => panic!("nothing is written"),
    };
    let now = &read_deployments(&text)[0];
    assert_eq!(now.status, "error");
    assert_eq!(now.app_id, "old::id::x");
    assert_eq!(now.last_error, "x".repeat(2000));
    assert!(finish_install("gone", 1, "no", &file, 0).is_empty());
    let uncut = format!("{}é{}", "x".repeat(1999), "x".repeat(10));
    assert!(!result_is_keepable("01", 1, &uncut, &file));
    assert!(result_is_keepable("gone", 1, &uncut, &file));
    assert!(result_is_keepable("01", 0, &format!("{} (a::b::c)", uncut), &file));
    assert!(result_is_keepable("01", 1, "é", &file));
}
