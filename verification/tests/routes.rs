use node_manager::effects::Effect;
use node_manager::http::Reply;
use node_manager::pages::{build_login_html, build_onboarding_html};
use node_manager::routes::{
    home, is_for_members, login, login_challenge, login_form, logout, refuse, route, Route,
};
use node_manager::state::{is_authenticated, AppState};
use node_manager::store::read_state_file;

fn state(content: &str) -> AppState {
    AppState::new(false, &read_state_file(content))
}

#[test]
fn what_is_asked_for() {
    assert_eq!(route("GET", "/"), Route::Home);
    assert_eq!(route("GET", "/login"), Route::LoginPage);
    assert_eq!(route("POST", "/login"), Route::Login);
    assert_eq!(route("POST", "/logout"), Route::Logout);
    assert_eq!(route("POST", "/submit"), Route::Submit);
    assert_eq!(route("GET", "/manage"), Route::Manage);
    assert_eq!(route("GET", "/manage/status"), Route::Status);
    assert_eq!(route("POST", "/manage/ssh/add"), Route::SshAdd);
    assert_eq!(route("POST", "/manage/ssh/remove"), Route::SshRemove);
    assert_eq!(route("POST", "/manage/unyt"), Route::Unyt);
    assert_eq!(route("POST", "/manage/log-sender"), Route::LogSender);
    assert_eq!(route("GET", "/manage/happs"), Route::HappsList);
    assert_eq!(route("GET", "/manage/happs/logs"), Route::HappsLogs);
    assert_eq!(route("POST", "/manage/happs/validate"), Route::HappsValidate);
    assert_eq!(route("POST", "/manage/happs/deploy"), Route::HappsDeploy);
    assert_eq!(route("POST", "/manage/happs/enable"), Route::HappsEnable);
    assert_eq!(route("POST", "/manage/happs/disable"), Route::HappsDisable);
    assert_eq!(route("POST", "/manage/happs/uninstall"), Route::HappsUninstall);
    assert_eq!(route("POST", "/manage/nodename"), Route::NodeName);
    assert_eq!(route("POST", "/manage/hardware"), Route::Hardware);
    assert_eq!(route("POST", "/manage/wind-tunnel"), Route::WindTunnel);
    assert_eq!(route("POST", "/manage/password"), Route::Password);
    assert_eq!(route("POST", "/manage/update"), Route::Update);
    assert_eq!(route("POST", "/manage/auth/recover"), Route::Recover);
    assert_eq!(route("POST", "/manage/auth/generate_seed"), Route::GenerateSeed);
    assert_eq!(route("GET", "/manage/"), Route::Unknown);
    assert_eq!(route("PUT", "/"), Route::Unknown);
    assert_eq!(route("get", "/"), Route::Unknown);
}

#[test]
fn who_may_ask() {
    let refused = Reply::Error(401, "Not authenticated".to_string());
    assert_eq!(refuse(Route::Status, false), Some(refused));
    assert_eq!(refuse(Route::Manage, false), Some(Reply::Redirect("/login".to_string())));
    assert_eq!(refuse(Route::Logout, false), Some(Reply::Redirect("/login".to_string())));
    assert_eq!(refuse(Route::Status, true), None);
    assert_eq!(refuse(Route::Submit, false), None);
    assert_eq!(refuse(Route::Recover, false), None);
    assert_eq!(
        refuse(Route::GenerateSeed, false),
        Some(Reply::Error(401, "Not authenticated".to_string()))
    );
    assert!(!is_for_members(Route::Home));
    assert!(!is_for_members(Route::Unknown));
    assert!(is_for_members(Route::Update));
}

#[test]
fn first_pages() {
    assert_eq!(home(&state("onboarded=true\n")), Reply::Redirect("/manage".to_string()));
    assert_eq!(home(&state("")), Reply::Html(build_onboarding_html(false)));
    assert_eq!(login_form(true), Reply::Redirect("/manage".to_string()));
    assert_eq!(login_form(false), Reply::Html(build_login_html(false)));
}

#[test]
fn logging_in_and_out() {
    let stored = "sha256:00ff:abcd";
    assert_eq!(
        login_challenge("password=p%26q", stored),
        Some("00ff:p&q".to_string())
    );
    assert_eq!(login_challenge("user=x", stored), Some("00ff:".to_string()));
    assert_eq!(login_challenge("password=x", "broken"), None);
    let mut s = state("");
    let (done, reply) = login(&mut s, stored, Some("abcd"), &[0x11; 32], 5);
    let token = "11".repeat(32);
    assert_eq!(
        reply,
        Reply::RedirectWithCookie(
            "/manage".to_string(),
            format!("session={}; HttpOnly; SameSite=Strict; Path=/", token)
        )
    );
    assert!(matches!(&done[1], Effect::Write(path, _) if path == "/etc/node-manager/sessions"));
    let (good, _) = is_authenticated(&format!("Cookie: session={}\r\n", token), &mut s, 6);
    assert!(good);
    assert_eq!(
        logout(),
        Reply::RedirectWithCookie(
            "/login".to_string(),
            "session=; HttpOnly; SameSite=Strict; Path=/; Max-Age=0".to_string()
        )
    );
}

#[test]
fn a_wrong_password() {
    let mut s = state("");
    let (done, reply) = login(&mut s, "sha256:00ff:abcd", Some("abce"), &[0; 32], 5);
    assert!(done.is_empty());
    assert_eq!(reply, Reply::Html(build_login_html(true)));
    let (_, reply) = login(&mut s, "broken", None, &[0; 32], 5);
    assert_eq!(reply, Reply::Html(build_login_html(true)));
    assert!(s.sessions.is_empty());
}
