use node_manager::manage_page::{build_manage_html, keys_are_showable};
use node_manager::pages::{build_login_html, build_onboarding_html};
use node_manager::quadlet::Site;
use node_manager::state::AppState;
use node_manager::store::read_state_file;

fn site() -> Site {
    Site {
        image_env: None,
        entrypoint_env: None,
        wind_tunnel_image: "wt:latest".to_string(),
        edgenode_image: String::new(),
    }
}

fn page(content: &str, keys: &str, running: bool) -> String {
    let state = AppState::new(false, &read_state_file(content));
    build_manage_html(&state, keys, 3700, "10.0.0.2", &site(), running)
}

#[test]
fn the_login_page() {
    let plain = build_login_html(false);
    assert!(plain.starts_with("<!DOCTYPE html><html lang=\"en\"><head>\n<meta charset=\"UTF-8\">"));
    assert!(plain.contains("<div class=\"body\">\n    <form method=\"POST\" action=\"/login\">"));
    assert!(plain.contains("body{align-items:center}.card{max-width:400px}"));
    assert!(plain.contains(">Forgot Password?</a>"));
    assert!(plain.contains("fetch('/manage/auth/recover'"));
    assert!(plain.ends_with("</script>\n</body></html>"));
    let wrong = build_login_html(true);
    assert!(wrong.contains("<div class=\"body\"><div class=\"err-box\">Incorrect password. Try again.</div>\n"));
}

#[test]
fn the_setup_page() {
    let wired = build_onboarding_html(false);
    assert!(wired.contains("✓ Ethernet connected — you're online."));
    assert!(!wired.contains("id=\"wifiSsid\""));
    let wireless = build_onboarding_html(true);
    assert!(wireless.contains("<label>Wi-Fi SSID</label><input type=\"text\" id=\"wifiSsid\""));
    assert!(wireless.contains("function v(id){const e=document.getElementById(id);return e?e.value.trim():'';}"));
    assert!(wireless.contains("HoloFuel compensation requires a Unyt Agent ID."));
    assert!(wireless.contains("<input type=\"password\" id=\"password\""));
    assert!(wireless.contains("password:raw('password'),"));
    assert!(wireless.contains("if(v('hw')==='WIND_TUNNEL')return 50;"));
    assert!(wireless.contains("I have saved my recovery seed phrase"));
    assert!(wireless.ends_with("</script>\n</body></html>"));
}

#[test]
fn the_management_page() {
    let html = page("node_name=al<i>ce'\nhw_mode=STANDARD\nunyt_agent_id=\n", "", true);
    assert!(html.contains("<title>Holo Node — al&lt;i&gt;ce'</title>"));
    assert!(html.contains("<p>Node Manager v6.2.1 &nbsp;·&nbsp; 10.0.0.2 &nbsp;·&nbsp; up 1h 1m</p>"));
    assert!(html.contains("Mode <span id=\"info-hw\">EdgeNode</span>"));
    assert!(html.contains("Unyt <span id=\"info-unyt\">not set</span>"));
    assert!(html.contains("<strong style=\"color:#e2e8f0\">(not set — compensation unavailable)</strong>"));
    assert!(html.contains("<div class=\"hw-opt sel\" onclick=\"selHw('STANDARD',this)\">"));
    assert!(html.contains("<div class=\"hw-opt\" onclick=\"selHw('WIND_TUNNEL',this)\">"));
    assert!(html.contains("0 keys</span>"));
    assert!(html.contains("<div id=\"key-list\"><div class=\"no-keys\">No SSH keys configured."));
    assert!(html.contains("Nomad hostname: <code>nomad-client-al&lt;i&gt;ce'</code><br>"));
    assert!(html.contains("Effective image: <code>wt:latest</code><br>"));
    assert!(html.contains("Entrypoint bind: <code>(none)</code><br>"));
    assert!(html.contains("status?hostname=nomad-client-al%3Ci%3Ece%27\""));
    assert!(html.contains("let curHw='STANDARD';"));
    assert!(html.contains("const ORIGINAL_NODE_NAME='al<i>ce\\'';"));
    assert!(!html.contains("EdgeNode is not running."));
    assert!(html.ends_with("</script>\n</body></html>"));
}

#[test]
fn the_notice_about_the_seed_phrase() {
    let title = "Upgrade Security: Generate Recovery Seed Phrase";
    assert!(page("node_name=n\n", "", true).contains(title));
    assert!(!page("node_name=n\nseed_hash=sha256:00000000:ab\n", "", true).contains(title));
}

#[test]
fn the_management_page_in_other_states() {
    let html = page("node_name=n\nhw_mode=WIND_TUNNEL\nunyt_agent_id=uhC\n", "", false);
    assert!(html.contains("Mode <span id=\"info-hw\">Wind Tunnel</span>"));
    assert!(html.contains("<span class=\"section-badge badge-green\" id=\"unyt-badge\">set</span>"));
    assert!(html.contains("hApp hosting is only available in Standard EdgeNode mode."));
    assert!(html.contains("<div class=\"hw-opt sel\" onclick=\"selHw('WIND_TUNNEL',this)\">"));
    let stopped = page("node_name=n\n", "", false);
    assert!(stopped.contains("EdgeNode is not running. Switch to Standard EdgeNode mode"));
}

#[test]
fn keys_on_the_management_page() {
    let long = format!("ssh-rsa {}", "A".repeat(80));
    let html = page("node_name=n\n", &format!("ssh-ed25519 <k>\n{}\n", long), true);
    assert!(html.contains("2 keys</span>"));
    assert!(html.contains("<span class=\"key-type\">ssh-ed25519</span><span class=\"key-val\">ssh-ed25519 &lt;k&gt;</span><button class=\"btn btn-danger btn-sm\" onclick=\"removeKey(0)\">Remove</button>"));
    assert!(html.contains(&format!("<span class=\"key-val\">ssh-rsa {}…</span>", "A".repeat(64))));
    assert!(html.contains("removeKey(1)"));
    assert!(page("", "ssh-rsa A\n", true).contains("1 key</span>"));
    assert!(keys_are_showable(&long));
    assert!(!keys_are_showable(&format!("{}é{}", "A".repeat(71), "A".repeat(9))));
}
