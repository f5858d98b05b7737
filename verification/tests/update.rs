use node_manager::update::{
    check_and_apply_update, find_asset_download_url, is_newer_version, update_repo, UpdateEvent,
    UpdateStep, VERSION,
};

const RELEASE: &str = r#"{"tag_name":"v9.0.0","assets":[{"name":"node-manager-x86_64","browser_download_url":"https://x/64"},{"name":"node-manager-aarch64","browser_download_url":"https://x/arm"}]}"#;

fn args(list: &[&str]) -> Vec<String> {
    list.iter().map(|a| a.to_string()).collect()
}

fn release(tag: &str) -> UpdateStep {
    check_and_apply_update(&UpdateEvent::Release(Some(format!(r#"{{"tag_name": "{}"}}"#, tag))))
}

#[test]
fn newer_versions() {
    assert!(is_newer_version("6.2.2", "6.2.1"));
    assert!(is_newer_version("6.10.0", "6.9.9"));
    assert!(is_newer_version("6.2.1.1", "6.2.1"));
    assert!(!is_newer_version("6.2.1", "6.2.1"));
    assert!(!is_newer_version("6.2.0", "6.2.1"));
    assert!(!is_newer_version("6.2", "6.2.1"));
    assert!(!is_newer_version("6.02.1", "6.2.1"));
    assert!(is_newer_version("nightly", "6.2.1"));
    assert!(is_newer_version("6.2.1-rc1", "6.2.1"));
}

#[test]
fn assets() {
    assert_eq!(find_asset_download_url(RELEASE, "node-manager-x86_64"), "https://x/64");
    assert_eq!(find_asset_download_url(RELEASE, "node-manager-aarch64"), "https://x/arm");
    assert_eq!(find_asset_download_url(RELEASE, "node-manager"), "");
    assert_eq!(find_asset_download_url(r#""name":"a""#, "a"), "");
    assert_eq!(find_asset_download_url(r#""name":"a","browser_download_url":"x"#, "a"), "");
}

#[test]
fn steps_of_an_update() {
    assert_eq!(update_repo(None), "holo-host/node-manager");
    assert_eq!(update_repo(Some("a/b")), "a/b");
    assert_eq!(
        check_and_apply_update(&UpdateEvent::Begin("a/b".to_string())),
        UpdateStep::Query(args(&[
            "curl",
            "-sf",
            "-H",
            "Accept: application/vnd.github+json",
            "-H",
            "User-Agent: holo-node-manager",
            "https://api.github.com/repos/a/b/releases/latest",
        ]))
    );
    assert_eq!(check_and_apply_update(&UpdateEvent::Release(None)), UpdateStep::Stop);
    assert_eq!(release("v9.0.0"), UpdateStep::AskArch);
    assert_eq!(
        check_and_apply_update(&UpdateEvent::Arch(RELEASE.to_string(), "aarch64".to_string())),
        UpdateStep::Download(args(&[
            "curl",
            "-sfL",
            "-o",
            "/usr/local/bin/node-manager-update",
            "https://x/arm",
        ]))
    );
    assert_eq!(
        check_and_apply_update(&UpdateEvent::Arch(RELEASE.to_string(), "riscv".to_string())),
        UpdateStep::Stop
    );
    assert_eq!(
        check_and_apply_update(&UpdateEvent::Downloaded(true)),
        UpdateStep::Replace(args(&["chmod", "+x", "/usr/local/bin/node-manager-update"]))
    );
    assert_eq!(check_and_apply_update(&UpdateEvent::Downloaded(false)), UpdateStep::Stop);
    assert_eq!(
        check_and_apply_update(&UpdateEvent::Replaced(true)),
        UpdateStep::Restart(args(&["systemctl", "restart", "node-manager.service"]))
    );
    assert_eq!(check_and_apply_update(&UpdateEvent::Replaced(false)), UpdateStep::Stop);
}

#[test]
fn no_update_without_a_newer_release() {
    assert_eq!(release(VERSION), UpdateStep::Stop);
    assert_eq!(release(&format!("vv{}", VERSION)), UpdateStep::Stop);
    assert_eq!(release("v6.1.0"), UpdateStep::Stop);
    assert_eq!(release(""), UpdateStep::Stop);
    assert_eq!(
        check_and_apply_update(&UpdateEvent::Release(Some("{}".to_string()))),
        UpdateStep::Stop
    );
}
