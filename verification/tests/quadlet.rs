use node_manager::effects::{restart_if_running, Effect};
use node_manager::quadlet::{
    apply_edgenode_config, apply_hardware_mode, apply_wind_tunnel_config, asked_mode,
    build_edgenode_quadlet, build_wind_tunnel_quadlet, container_services_for_mode,
    ensure_wt_suffix, generate_wt_suffix, start_services, sync_container_services,
    write_quadlets_from_state, write_wind_tunnel_client_meta, Site,
};
use node_manager::state::AppState;
use node_manager::store::read_state_file;

fn site() -> Site {
    Site {
        image_env: None,
        entrypoint_env: None,
        wind_tunnel_image: "wt:latest".to_string(),
        edgenode_image: "edge:latest".to_string(),
    }
}

fn state(content: &str) -> AppState {
    AppState::new(false, &read_state_file(content))
}

fn run(args: &[&str]) -> Effect {
    Effect::Run(args.iter().map(|a| a.to_string()).collect())
}

#[test]
fn the_ordinary_unit_file() {
    assert_eq!(
        build_edgenode_quadlet("img:1", " https://c ", ""),
        "[Unit]\nDescription=Holo EdgeNode\nAfter=network-online.target\nConflicts=wind-tunnel.service\n\n[Container]\nImage=img:1\nContainerName=edgenode\nVolume=/var/lib/edgenode:/data:Z\nEnvironment=LOG_SENDER_ENDPOINT=https://c\nLabel=io.containers.autoupdate=registry\n\n[Service]\nRestart=always\nRestartSec=5\n\n[Install]\nWantedBy=multi-user.target\n"
    );
    let both = build_edgenode_quadlet("i", "e", " a ");
    assert!(both.contains("\nEnvironment=LOG_SENDER_ENDPOINT=e\nEnvironment=LOG_SENDER_UNYT_PUB_KEY=a\nLabel="));
}

#[test]
fn the_wind_tunnel_unit_file() {
    assert_eq!(
        build_wind_tunnel_quadlet("nomad-client-a", "img:1", Some("/home/holo/e.sh")),
        "[Unit]\nDescription=Holochain Wind Tunnel Runner\nAfter=network-online.target\nConflicts=edgenode.service\n\n[Container]\nImage=img:1\nContainerName=wind-tunnel\nHostName=nomad-client-a\nNetwork=host\nVolume=/etc/node-manager/client-meta.json:/etc/nomad.d/client-meta.json:ro,Z\nVolume=/home/holo/e.sh:/entrypoint.sh:ro,Z\nPodmanArgs=--cgroupns=host --privileged\nLabel=io.containers.autoupdate=registry\n\n[Service]\nRestart=always\nRestartSec=5\n\n[Install]\nWantedBy=multi-user.target\n"
    );
    assert!(!build_wind_tunnel_quadlet("h", "i", None).contains("entrypoint.sh"));
}

#[test]
fn the_client_description() {
    let done = write_wind_tunnel_client_meta(" a\"b ");
    assert_eq!(
        done,
        vec![
            Effect::MakeDir("/etc/node-manager".to_string()),
            Effect::Write(
                "/etc/node-manager/client-meta.json".to_string(),
                "{\n  \"client\": {\n    \"meta\": {\n      \"unyt_agent_id\": \"a\\\"b\"\n    }\n  }\n}\n"
                    .to_string()
            ),
            run(&["chmod", "600", "/etc/node-manager/client-meta.json"]),
            Effect::Remove("/etc/node-manager/wind-tunnel.env".to_string()),
        ]
    );
}

#[test]
fn writing_both_unit_files() {
    let s = state("node_name=n\nunyt_agent_id=a\nlog_sender_endpoint=http://c\n");
    let done = write_quadlets_from_state(&s, &site());
    assert_eq!(done.len(), 7);
    assert_eq!(
        done[4],
        Effect::Write(
            "/etc/containers/systemd/edgenode.container".to_string(),
            build_edgenode_quadlet("edge:latest", "http://c", "a")
        )
    );
    assert_eq!(
        done[5],
        Effect::Write(
            "/etc/containers/systemd/wind-tunnel.container".to_string(),
            build_wind_tunnel_quadlet("nomad-client-n", "wt:latest", None)
        )
    );
    assert_eq!(done[6], run(&["systemctl", "daemon-reload"]));
}

#[test]
fn only_the_running_container_restarts() {
    let standard = state("hw_mode=STANDARD\n");
    let tunnel = state("hw_mode=WIND_TUNNEL\n");
    assert_eq!(apply_wind_tunnel_config(&standard, &site()).len(), 7);
    assert_eq!(
        apply_wind_tunnel_config(&tunnel, &site())[7],
        Effect::RestartIfActive("wind-tunnel.service".to_string())
    );
    assert_eq!(
        apply_edgenode_config(&standard, &site())[7],
        Effect::RestartIfActive("edgenode.service".to_string())
    );
    assert_eq!(apply_edgenode_config(&tunnel, &site()).len(), 7);
    assert_eq!(
        restart_if_running("edgenode.service", true),
        vec![run(&["systemctl", "restart", "edgenode.service"])]
    );
    assert!(restart_if_running("edgenode.service", false).is_empty());
}

#[test]
fn one_service_per_mode() {
    assert_eq!(
        container_services_for_mode("WIND_TUNNEL"),
        ("wind-tunnel.service", "edgenode.service")
    );
    assert_eq!(
        container_services_for_mode("STANDARD"),
        ("edgenode.service", "wind-tunnel.service")
    );
    assert_eq!(container_services_for_mode("?").0, "edgenode.service");
    assert_eq!(asked_mode("WIND_TUNNEL"), "WIND_TUNNEL");
    assert_eq!(asked_mode("wind_tunnel"), "STANDARD");
    assert_eq!(
        sync_container_services("WIND_TUNNEL"),
        vec![
            run(&["systemctl", "disable", "--now", "edgenode.service"]),
            run(&["systemctl", "enable", "--now", "wind-tunnel.service"]),
        ]
    );
}

#[test]
fn switching_the_mode() {
    let mut s = state("node_name=n\nhw_mode=STANDARD\n");
    let done = apply_hardware_mode("WIND_TUNNEL", &mut s, &site(), "hw_mode=STANDARD\n");
    assert_eq!(s.hw_mode, "WIND_TUNNEL");
    assert_eq!(done.len(), 1 + 3 + 7 + 2);
    assert_eq!(
        done[0],
        Effect::Write("/var/lib/edgenode/mode_switch.txt".to_string(), "WIND_TUNNEL".to_string())
    );
    assert_eq!(
        done[2],
        Effect::Write("/etc/node-manager/state".to_string(), "hw_mode=WIND_TUNNEL\n".to_string())
    );
    let again = apply_hardware_mode("WIND_TUNNEL", &mut s, &site(), "hw_mode=WIND_TUNNEL\n");
    assert_eq!(again.len(), 1 + 3 + 7);
    assert_eq!(start_services(&s, &site()).len(), 9);
}

#[test]
fn the_suffix_is_made_once() {
    assert_eq!(generate_wt_suffix(&[1, 2, 3, 4, 5, 6, 7, 8]), "0102030405060708");
    let mut s = state("");
    let (suffix, done) = ensure_wt_suffix(&mut s, &[0xab; 8], "node_name=n\n");
    assert_eq!(suffix, "abababababababab");
    assert_eq!(s.wt_suffix, suffix);
    assert_eq!(
        done[1],
        Effect::Write(
            "/etc/node-manager/state".to_string(),
            "node_name=n\nwt_suffix=abababababababab\n".to_string()
        )
    );
    let (same, done) = ensure_wt_suffix(&mut s, &[0; 8], "");
    assert_eq!(same, suffix);
    assert!(done.is_empty());
}
