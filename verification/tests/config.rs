use node_manager::config::{
    build_wt_client_name, build_wt_hostname, entrypoint_to_look_at, resolve_wind_tunnel_config,
    resolve_wt_entrypoint_bind, resolve_wt_image_override, validate_log_sender_endpoint,
    validate_node_name, validate_unyt_agent_id, validate_wt_entrypoint_bind,
    validate_wt_image_override, wt_client_name_error, wt_hostname_error, PathKind,
};
use node_manager::state::AppState;
use node_manager::store::read_state_file;

fn some(s: &str) -> Option<String> {
    Some(s.to_string())
}

#[test]
fn agent_ids() {
    assert_eq!(validate_unyt_agent_id(""), None);
    assert_eq!(validate_unyt_agent_id("  uhCAk-9 "), None);
    assert_eq!(
        validate_unyt_agent_id("-a"),
        some("Unyt Agent ID cannot start or end with a hyphen.")
    );
    assert_eq!(
        validate_unyt_agent_id("a-"),
        some("Unyt Agent ID cannot start or end with a hyphen.")
    );
    assert_eq!(
        validate_unyt_agent_id("a_b"),
        some("Unyt Agent ID may only contain letters, numbers, and hyphens.")
    );
    assert_eq!(
        validate_unyt_agent_id("aé"),
        some("Unyt Agent ID may only contain letters, numbers, and hyphens.")
    );
}

#[test]
fn node_names() {
    assert_eq!(validate_node_name("home-node-01"), None);
    assert_eq!(validate_node_name(""), some("Node name is required."));
    assert_eq!(
        validate_node_name("Home"),
        some("Node name must be lowercase letters, numbers and hyphens only.")
    );
    assert_eq!(
        validate_node_name("a b"),
        some("Node name must be lowercase letters, numbers and hyphens only.")
    );
}

#[test]
fn client_names() {
    assert_eq!(build_wt_hostname("alice"), "nomad-client-alice");
    assert_eq!(build_wt_client_name("alice", " ", "00ff"), "alice-00ff");
    assert_eq!(build_wt_client_name("alice", " uhC ", "00ff"), "alice-uhC");
    assert_eq!(wt_client_name_error(&"a".repeat(46), ""), None);
    assert_eq!(build_wt_client_name(&"a".repeat(46), "", "0123456789abcdef").len(), 63);
    assert_eq!(
        wt_client_name_error(&"a".repeat(47), ""),
        some("Wind Tunnel client name would exceed 63 characters (node name + random tracking suffix). Shorten node name to at most 46 characters.")
    );
    assert_eq!(wt_client_name_error(&"a".repeat(10), &"b".repeat(52)), None);
    assert_eq!(
        wt_client_name_error(&"a".repeat(11), &"b".repeat(52)),
        some("Wind Tunnel client name would exceed 63 characters (node name + full Agent ID). Shorten node name to at most 10 characters.")
    );
    assert_eq!(
        wt_client_name_error("a", &"b".repeat(80)),
        some("Wind Tunnel client name would exceed 63 characters (node name + full Agent ID). Shorten node name to at most 0 characters.")
    );
    assert_eq!(
        wt_client_name_error("a", "-"),
        some("Unyt Agent ID cannot start or end with a hyphen.")
    );
}

#[test]
fn host_names() {
    assert_eq!(wt_hostname_error(&"a".repeat(50)), None);
    assert_eq!(build_wt_hostname(&"a".repeat(50)).len(), 63);
    assert_eq!(
        wt_hostname_error(&"a".repeat(51)),
        some("Wind Tunnel hostname would exceed 63 characters. Shorten node name to at most 50 characters.")
    );
}

#[test]
fn images() {
    assert_eq!(validate_wt_image_override(" "), None);
    assert_eq!(validate_wt_image_override("ghcr.io/a/b_c-d:latest@x"), None);
    assert_eq!(
        validate_wt_image_override("a:b;c"),
        some("Image override contains invalid characters.")
    );
    assert_eq!(
        validate_wt_image_override("a b:c"),
        some("Image override contains invalid characters.")
    );
    assert_eq!(
        validate_wt_image_override("ghcr.io/a/b"),
        some("Image override must include a tag (e.g. registry/image:tag).")
    );
    assert_eq!(
        validate_wt_image_override("a:b&c"),
        some("Image override has invalid characters.")
    );
}

#[test]
fn entrypoints() {
    assert_eq!(validate_wt_entrypoint_bind("  ", PathKind::Missing), None);
    assert_eq!(validate_wt_entrypoint_bind("/home/holo/e.sh", PathKind::File), None);
    assert_eq!(
        validate_wt_entrypoint_bind("/etc/passwd", PathKind::File),
        some("Entrypoint bind must be under /home/holo/.")
    );
    assert_eq!(
        validate_wt_entrypoint_bind(" /home/holo/x ", PathKind::Missing),
        some("Entrypoint file not found: /home/holo/x")
    );
    assert_eq!(
        validate_wt_entrypoint_bind("/home/holo/dir", PathKind::Other),
        some("Entrypoint bind must point to a regular file.")
    );
    assert_eq!(entrypoint_to_look_at(" /home/holo/x "), some("/home/holo/x"));
    assert_eq!(entrypoint_to_look_at("/etc/passwd"), None);
    assert_eq!(entrypoint_to_look_at(""), None);
}

#[test]
fn log_collectors() {
    assert_eq!(validate_log_sender_endpoint(""), None);
    assert_eq!(validate_log_sender_endpoint("https://x.example"), None);
    assert_eq!(validate_log_sender_endpoint(" http://x "), None);
    assert_eq!(
        validate_log_sender_endpoint("ftp://x"),
        some("Log Collector URL must start with http:// or https://")
    );
    assert_eq!(
        validate_log_sender_endpoint("http://a b"),
        some("Log Collector URL contains invalid characters.")
    );
    assert_eq!(
        validate_log_sender_endpoint("http://a'"),
        some("Log Collector URL contains invalid characters.")
    );
}

#[test]
fn overrides() {
    let plain = AppState::new(false, &read_state_file("node_name=n\n"));
    let set = AppState::new(
        false,
        &read_state_file("node_name=n\nwt_image_override= a:b \nwt_entrypoint_bind=/home/holo/e\n"),
    );
    assert_eq!(resolve_wt_image_override(&plain, None), None);
    assert_eq!(resolve_wt_image_override(&plain, Some("  ")), None);
    assert_eq!(resolve_wt_image_override(&plain, Some(" x:y ")), some("x:y"));
    assert_eq!(resolve_wt_image_override(&set, Some("x:y")), some("a:b"));
    assert_eq!(resolve_wt_entrypoint_bind(&plain, Some("/e")), some("/e"));
    assert_eq!(resolve_wt_entrypoint_bind(&set, None), some("/home/holo/e"));
    let cfg = resolve_wind_tunnel_config(&plain, None, Some("/e"), "default:latest");
    assert_eq!(cfg.hostname, "nomad-client-n");
    assert_eq!(cfg.image, "default:latest");
    assert_eq!(cfg.entrypoint_bind, some("/e"));
    assert_eq!(resolve_wind_tunnel_config(&set, None, None, "d").image, "a:b");
}
