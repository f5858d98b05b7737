use node_manager::images::{
    detect_arch, pick_arm64_tag, resolve_edgenode_image, resolve_image,
    resolve_wind_tunnel_image, strip_copies, tags_are_readable, ImageEvent, ImageStep,
};

fn tags(s: &str) -> ImageEvent {
    ImageEvent::Tags(s.to_string())
}

fn args(list: &[&str]) -> Vec<String> {
    list.iter().map(|a| a.to_string()).collect()
}

#[test]
fn the_hardware() {
    assert_eq!(detect_arch(Some("aarch64\n")), "aarch64");
    assert_eq!(detect_arch(Some("")), "");
    assert_eq!(detect_arch(None), "x86_64");
}

#[test]
fn choosing_a_tag() {
    let list = r#"{"name":"x","tags":["latest","latest-hc0.3","latest-hc0.5","other","latest-hc0.4"]}"#;
    assert_eq!(pick_arm64_tag(list, "latest-hc"), Some("latest-hc0.5".to_string()));
    assert_eq!(pick_arm64_tag(list, "none"), None);
    assert_eq!(pick_arm64_tag(r#"["latest"]"#, "latest"), None);
    assert_eq!(pick_arm64_tag(r#"["latest-a","latest-aa]"#, "latest-"), Some("latest-a".to_string()));
    assert_eq!(pick_arm64_tag("", "latest-"), None);
    assert_eq!(pick_arm64_tag("[\"latest-x\"", "latest-"), None);
    assert!(tags_are_readable(list));
    assert!(tags_are_readable(""));
    assert!(!tags_are_readable("]["));
}

#[test]
fn steps_to_an_image() {
    assert_eq!(
        resolve_edgenode_image(&ImageEvent::Arch("x86_64".to_string())),
        ImageStep::Chosen("ghcr.io/holo-host/edgenode:latest".to_string())
    );
    assert_eq!(
        resolve_wind_tunnel_image(&ImageEvent::Arch("aarch64".to_string())),
        ImageStep::Inspect(args(&[
            "skopeo",
            "inspect",
            "--raw",
            "docker://ghcr.io/holochain/wind-tunnel-runner:latest",
        ]))
    );
    assert_eq!(
        resolve_wind_tunnel_image(&ImageEvent::Manifest("... \"arm64\" ...".to_string())),
        ImageStep::Chosen("ghcr.io/holochain/wind-tunnel-runner:latest".to_string())
    );
    assert_eq!(
        resolve_edgenode_image(&ImageEvent::Manifest(String::new())),
        ImageStep::FetchToken(args(&[
            "curl",
            "-sf",
            "https://ghcr.io/token?scope=repository:holo-host/edgenode:pull&service=ghcr.io",
        ]))
    );
    assert_eq!(
        resolve_edgenode_image(&ImageEvent::Token(r#"{"token":"t0"}"#.to_string())),
        ImageStep::FetchTags(args(&[
            "curl",
            "-sf",
            "-H",
            "Authorization: Bearer t0",
            "https://ghcr.io/v2/holo-host/edgenode/tags/list",
        ]))
    );
    assert_eq!(
        resolve_edgenode_image(&ImageEvent::Token(String::new())),
        ImageStep::Chosen("ghcr.io/holo-host/edgenode:latest".to_string())
    );
    assert_eq!(
        resolve_edgenode_image(&tags(r#"{"tags":["latest-hc1"]}"#)),
        ImageStep::Chosen("ghcr.io/holo-host/edgenode:latest-hc1".to_string())
    );
    assert_eq!(
        resolve_image("r/i", "p-", &tags("[]")),
        ImageStep::Chosen("r/i:latest".to_string())
    );
}

#[test]
fn copies_in_front() {
    assert_eq!(strip_copies("ghcr.io/ghcr.io/a", "ghcr.io/"), "a");
    assert_eq!(strip_copies("a/ghcr.io/", "ghcr.io/"), "a/ghcr.io/");
    assert_eq!(strip_copies("a", ""), "a");
}
