//! Which request is answered how, and who may make it.
use vstd::prelude::*;

use crate::auth::{challenge, digest_accepted, password_challenge, verify_password};
use crate::effects::{effects, no_effects, Effect, EffectView};
use crate::http::{reply_opt, Reply, ReplyView};
use crate::number::{hex, is_lower_hex, lemma_hex};
use crate::pages::{build_login_html, build_onboarding_html, login_page, setup_page};
use crate::request::{cookie_in_header, law_cookie_found};
use crate::sessions::{
    begun, law_session_lifetime, sessions_kept, SessionSeq, NANOS, SESSION_TTL_SECS,
};
use crate::split::{lemma_trim_id, split, trim};
use crate::state::{
    clear_cookie, cookie_text, create_session, session_cookie, token_good, AppState, StateView,
};
use crate::store::{distinct, lookup_or};
use crate::text::{lemma_find_any_is, opt, opt_str, same, starts_with};
use crate::url::{form_pairs, parse_form};

verus! {

/// What a request asks for.
#[derive(Clone, Copy, Debug, PartialEq, Eq)]
pub enum Route {
    Home,
    LoginPage,
    Login,
    Logout,
    Submit,
    Recover,
    Manage,
    Status,
    SshAdd,
    SshRemove,
    Unyt,
    LogSender,
    HappsList,
    HappsLogs,
    HappsValidate,
    HappsDeploy,
    HappsEnable,
    HappsDisable,
    HappsUninstall,
    NodeName,
    Hardware,
    WindTunnel,
    Password,
    GenerateSeed,
    Update,
    Unknown,
}

/// What a method and a path ask for.
pub open spec fn route_of(method: Seq<char>, path: Seq<char>) -> Route {
    if method == "GET"@ {
        if path == "/"@ {
            Route::Home
        } else if path == "/login"@ {
            Route::LoginPage
        } else if path == "/manage"@ {
            Route::Manage
        } else if path == "/manage/status"@ {
            Route::Status
        } else if path == "/manage/happs"@ {
            Route::HappsList
        } else if path == "/manage/happs/logs"@ {
            Route::HappsLogs
        } else {
            Route::Unknown
        }
    } else if method == "POST"@ {
        if path == "/login"@ {
            Route::Login
        } else if path == "/logout"@ {
            Route::Logout
        } else if path == "/submit"@ {
            Route::Submit
        } else if path == "/manage/auth/recover"@ {
            Route::Recover
        } else if path == "/manage/auth/generate_seed"@ {
            Route::GenerateSeed
        } else if path == "/manage/ssh/add"@ {
            Route::SshAdd
        } else if path == "/manage/ssh/remove"@ {
            Route::SshRemove
        } else if path == "/manage/unyt"@ {
            Route::Unyt
        } else if path == "/manage/log-sender"@ {
            Route::LogSender
        } else if path == "/manage/happs/validate"@ {
            Route::HappsValidate
        } else if path == "/manage/happs/deploy"@ {
            Route::HappsDeploy
        } else if path == "/manage/happs/enable"@ {
            Route::HappsEnable
        } else if path == "/manage/happs/disable"@ {
            Route::HappsDisable
        } else if path == "/manage/happs/uninstall"@ {
            Route::HappsUninstall
        } else if path == "/manage/nodename"@ {
            Route::NodeName
        } else if path == "/manage/hardware"@ {
            Route::Hardware
        } else if path == "/manage/wind-tunnel"@ {
            Route::WindTunnel
        } else if path == "/manage/password"@ {
            Route::Password
        } else if path == "/manage/update"@ {
            Route::Update
        } else {
            Route::Unknown
        }
    } else {
        Route::Unknown
    }
}

/// What a method and a path ask for.
pub fn route(method: &str, path: &str) -> (r: Route)
    ensures
        r == route_of(method@, path@),
{
    if same(method, "GET") {
        if same(path, "/") {
            Route::Home
        } else if same(path, "/login") {
            Route::LoginPage
        } else if same(path, "/manage") {
            Route::Manage
        } else if same(path, "/manage/status") {
            Route::Status
        } else if same(path, "/manage/happs") {
            Route::HappsList
        } else if same(path, "/manage/happs/logs") {
            Route::HappsLogs
        } else {
            Route::Unknown
        }
    } else if same(method, "POST") {
        if same(path, "/login") {
            Route::Login
        } else if same(path, "/logout") {
            Route::Logout
        } else if same(path, "/submit") {
            Route::Submit
        } else if same(path, "/manage/auth/recover") {
            Route::Recover
        } else if same(path, "/manage/auth/generate_seed") {
            Route::GenerateSeed
        } else if same(path, "/manage/ssh/add") {
            Route::SshAdd
        } else if same(path, "/manage/ssh/remove") {
            Route::SshRemove
        } else if same(path, "/manage/unyt") {
            Route::Unyt
        } else if same(path, "/manage/log-sender") {
            Route::LogSender
        } else if same(path, "/manage/happs/validate") {
            Route::HappsValidate
        } else if same(path, "/manage/happs/deploy") {
            Route::HappsDeploy
        } else if same(path, "/manage/happs/enable") {
            Route::HappsEnable
        } else if same(path, "/manage/happs/disable") {
            Route::HappsDisable
        } else if same(path, "/manage/happs/uninstall") {
            Route::HappsUninstall
        } else if same(path, "/manage/nodename") {
            Route::NodeName
        } else if same(path, "/manage/hardware") {
            Route::Hardware
        } else if same(path, "/manage/wind-tunnel") {
            Route::WindTunnel
        } else if same(path, "/manage/password") {
            Route::Password
        } else if same(path, "/manage/update") {
            Route::Update
        } else {
            Route::Unknown
        }
    } else {
        Route::Unknown
    }
}

// ---------------------------------------------------------------------------
// Who may make a request
// ---------------------------------------------------------------------------

/// The request is only for those who have logged in.
pub open spec fn needs_session(r: Route) -> bool {
    match r {
        Route::Home | Route::LoginPage | Route::Login | Route::Submit | Route::Recover
        | Route::Unknown => false,
        _ => true,
    }
}

/// The answer to a request of someone who has not logged in: pages lead to the
/// login page, everything else is an error.
pub open spec fn refusal(r: Route) -> ReplyView {
    match r {
        Route::Manage | Route::Logout => ReplyView::Redirect("/login"@),
        _ => ReplyView::Error(401, "Not authenticated"@),
    }
}

/// The answer to a request that may not be made.
pub open spec fn gate(r: Route, authenticated: bool) -> Option<ReplyView> {
    if needs_session(r) && !authenticated {
        Some(refusal(r))
    } else {
        None
    }
}

/// Whether a request is only for those who have logged in.
pub fn is_for_members(r: Route) -> (b: bool)
    ensures
        b == needs_session(r),
{
    match r {
        Route::Home | Route::LoginPage | Route::Login | Route::Submit | Route::Recover
        | Route::Unknown => false,
        _ => true,
    }
}

/// The answer to a request that may not be made; `None` where it may.
pub fn refuse(r: Route, authenticated: bool) -> (a: Option<Reply>)
    ensures
        reply_opt(a) == gate(r, authenticated),
{
    if authenticated || !is_for_members(r) {
        return None;
    }
    match r {
        Route::Manage | Route::Logout => Some(Reply::Redirect("/login".to_owned())),
        _ => Some(Reply::Error(401, "Not authenticated".to_owned())),
    }
}

// ---------------------------------------------------------------------------
// Logging in and out
// ---------------------------------------------------------------------------

/// The answer to a request for the first page.
pub fn home(state: &AppState) -> (r: Reply)
    ensures
        r@ == (if state@.onboarded {
            ReplyView::Redirect("/manage"@)
        } else {
            ReplyView::Html(setup_page(state@.ap_mode))
        }),
{
    if state.onboarded {
        Reply::Redirect("/manage".to_owned())
    } else {
        Reply::Html(build_onboarding_html(state.ap_mode))
    }
}

/// The answer to a request for the login page.
pub fn login_form(authenticated: bool) -> (r: Reply)
    ensures
        r@ == (if authenticated {
            ReplyView::Redirect("/manage"@)
        } else {
            ReplyView::Html(login_page(false))
        }),
{
    if authenticated {
        Reply::Redirect("/manage".to_owned())
    } else {
        Reply::Html(build_login_html(false))
    }
}

/// The password in a login form; empty where there is none.
pub open spec fn password_in(body: Seq<char>) -> Seq<char> {
    lookup_or(form_pairs(split(body, "&"@)), "password"@, Seq::empty())
}

/// The text whose digest decides whether a login form holds the password, given
/// what is kept of it.
pub fn login_challenge(body: &str, stored: &str) -> (r: Option<String>)
    ensures
        opt(r) == challenge(password_in(body@), stored@),
{
    let form = parse_form(body);
    let password = match form.get("password") {
        Some(p) => p,
        None => String::new(),
    };
    password_challenge(password.as_str(), stored)
}

/// A login succeeds: there is a digest, and it is the one that is kept.
pub open spec fn login_accepted(stored: Seq<char>, digest: Option<Seq<char>>) -> bool {
    match digest {
        Some(d) => digest_accepted(stored, d),
        None => false,
    }
}

/// The sessions, the effects and the answer after a login.
pub open spec fn login_end(
    ss: SessionSeq,
    stored: Seq<char>,
    digest: Option<Seq<char>>,
    token: Seq<char>,
    now: nat,
) -> (SessionSeq, Seq<EffectView>, ReplyView) {
    if login_accepted(stored, digest) {
        (
            begun(ss, token, now),
            sessions_kept(begun(ss, token, now)),
            ReplyView::RedirectWithCookie("/manage"@, cookie_text(token)),
        )
    } else {
        (ss, Seq::empty(), ReplyView::Html(login_page(true)))
    }
}

/// The answer to a login, given what is kept of the password, the digest of the
/// challenge where there is one, random bytes for a token, and the time. Where it
/// succeeds, a session begins.
pub fn login(
    state: &mut AppState,
    stored: &str,
    digest: Option<&str>,
    bytes: &[u8],
    now: u128,
) -> (r: (Vec<Effect>, Reply))
    requires
        old(state).wf(),
        now + SESSION_TTL_SECS * NANOS <= u128::MAX,
    ensures
        final(state).wf(),
        login_accepted(stored@, opt_str(digest)) ==> {
            &&& final(state)@ == (StateView {
                sessions: begun(old(state)@.sessions, hex(bytes@), now as nat),
                ..old(state)@
            })
            &&& effects(r.0@) == sessions_kept(final(state)@.sessions)
            &&& r.1@ == ReplyView::RedirectWithCookie("/manage"@, cookie_text(hex(bytes@)))
        },
        !login_accepted(stored@, opt_str(digest)) ==> {
            &&& final(state)@ == old(state)@
            &&& effects(r.0@) == Seq::<EffectView>::empty()
            &&& r.1@ == ReplyView::Html(login_page(true))
        },
        (final(state)@.sessions, effects(r.0@), r.1@) == login_end(
            old(state)@.sessions,
            stored@,
            opt_str(digest),
            hex(bytes@),
            now as nat,
        ),
{
    let accepted = match digest {
        Some(d) => verify_password(stored, d),
        None => false,
    };
    if accepted {
        let (token, v) = create_session(state, bytes, now);
        (v, Reply::RedirectWithCookie("/manage".to_owned(), session_cookie(token.as_str())))
    } else {
        (no_effects(), Reply::Html(build_login_html(true)))
    }
}

/// The answer to logging out.
pub fn logout() -> (r: Reply)
    ensures
        r@ == ReplyView::RedirectWithCookie(
            "/login"@,
            "session=; HttpOnly; SameSite=Strict; Path=/; Max-Age=0"@,
        ),
{
    Reply::RedirectWithCookie("/login".to_owned(), clear_cookie())
}

// ---------------------------------------------------------------------------
// What holds of all requests
// ---------------------------------------------------------------------------

/// Every request for a path of the management interface needs a session or is
/// unknown, but for the one that resets a forgotten password. Without a session it
/// is refused: the page leads to the login page, everything else is answered with
/// the status of the missing authentication.
pub proof fn law_management_needs_session(method: Seq<char>, path: Seq<char>)
    requires
        starts_with(path, "/manage"@),
        path != "/manage/auth/recover"@,
    ensures
        route_of(method, path) == Route::Unknown || gate(route_of(method, path), false) == Some(
            if path == "/manage"@ {
                ReplyView::Redirect("/login"@)
            } else {
                ReplyView::Error(401, "Not authenticated"@)
            },
        ),
        gate(route_of(method, path), true) is None,
{
    reveal_strlit("/manage");
    reveal_strlit("/");
    reveal_strlit("/login");
    reveal_strlit("/logout");
    reveal_strlit("/submit");
    assert(path.subrange(0, 0 + "/manage"@.len() as int) == "/manage"@);
    assert(path[1] == "/manage"@[1]);
    assert(path[1] == 'm');
    assert("/login"@[1] == 'l');
    assert("/logout"@[1] == 'l');
    assert("/submit"@[1] == 's');
    assert("/"@.len() == 1);
    if method == "GET"@ {
        reveal_strlit("/manage/status");
        reveal_strlit("/manage/happs");
        reveal_strlit("/manage/happs/logs");
        assert("/manage/status"@.len() == 14);
        assert("/manage/happs"@.len() == 13);
        assert("/manage/happs/logs"@.len() == 18);
    } else if path == "/manage"@ {
        lemma_posted_paths();
    }
}

proof fn lemma_posted_paths()
    ensures
        route_of("POST"@, "/manage"@) == Route::Unknown,
{
    reveal_strlit("GET");
    reveal_strlit("POST");
    reveal_strlit("/manage");
    reveal_strlit("/login");
    reveal_strlit("/logout");
    reveal_strlit("/submit");
    reveal_strlit("/manage/auth/recover");
    reveal_strlit("/manage/auth/generate_seed");
    reveal_strlit("/manage/ssh/add");
    reveal_strlit("/manage/ssh/remove");
    reveal_strlit("/manage/unyt");
    reveal_strlit("/manage/log-sender");
    reveal_strlit("/manage/happs/validate");
    reveal_strlit("/manage/happs/deploy");
    reveal_strlit("/manage/happs/enable");
    reveal_strlit("/manage/happs/disable");
    reveal_strlit("/manage/happs/uninstall");
    reveal_strlit("/manage/nodename");
    reveal_strlit("/manage/hardware");
    reveal_strlit("/manage/wind-tunnel");
    reveal_strlit("/manage/password");
    reveal_strlit("/manage/update");
    assert("/manage"@.len() == 7);
    assert("/manage/auth/recover"@.len() == 20);
    assert("/manage/auth/generate_seed"@.len() == 26);
    assert("/manage/ssh/add"@.len() == 15);
    assert("/manage/ssh/remove"@.len() == 18);
    assert("/manage/unyt"@.len() == 12);
    assert("/manage/log-sender"@.len() == 18);
    assert("/manage/happs/validate"@.len() == 22);
    assert("/manage/happs/deploy"@.len() == 20);
    assert("/manage/happs/enable"@.len() == 20);
    assert("/manage/happs/disable"@.len() == 21);
    assert("/manage/happs/uninstall"@.len() == 23);
    assert("/manage/nodename"@.len() == 16);
    assert("/manage/hardware"@.len() == 16);
    assert("/manage/wind-tunnel"@.len() == 19);
    assert("/manage/password"@.len() == 16);
    assert("/manage/update"@.len() == 14);
    assert("GET"@.len() == 3);
    assert("POST"@.len() == 4);
    assert("/manage"@[1] == 'm');
    assert("/login"@[1] == 'l');
    assert("/logout"@[1] == 'l');
    assert("/submit"@[1] == 's');
}

/// The token of a login comes back: the browser returns the part of the cookie
/// before the first semicolon in a header of its own, and the token is found
/// there.
pub proof fn law_cookie_comes_back(bytes: Seq<u8>, lower: Seq<char>)
    requires
        starts_with(lower, "cookie:"@),
    ensures
        cookie_in_header(
            "Cookie: "@ + split(cookie_text(hex(bytes)), ";"@)[0],
            lower,
            "session"@,
        ) == Some(hex(bytes)),
{
    let token = hex(bytes);
    let cookie = cookie_text(token);
    lemma_hex(bytes);
    reveal_strlit("session=");
    reveal_strlit("session");
    reveal_strlit("=");
    reveal_strlit(";");
    reveal_strlit("; HttpOnly; SameSite=Strict; Path=/");
    assert(";"@ =~= seq![';']);
    assert(";"@[0] == ';');
    let pair = "session="@ + token;
    assert(cookie[pair.len() as int] == "; HttpOnly; SameSite=Strict; Path=/"@[0]);
    assert forall|i: int| 0 <= i < pair.len() implies !";"@.contains(cookie[i]) by {
        assert(cookie[i] == pair[i]);
        if i >= 8 {
            assert(pair[i] == token[i - 8]);
            assert(is_lower_hex(token[i - 8]));
        }
    }
    lemma_find_any_is(cookie, ";"@, 0, pair.len() as int);
    assert(cookie.take(pair.len() as int) =~= pair);
    assert(split(cookie, ";"@)[0] == pair);
    assert("Cookie: "@ + pair =~= "Cookie: "@ + "session"@ + "="@ + token);
    assert(trim("session"@) == "session"@) by {
        lemma_trim_id("session"@);
    }
    assert forall|i: int| 0 <= i < token.len() implies is_lower_hex(#[trigger] token[i]) by {}
    lemma_trim_id(token);
    law_cookie_found("session"@, token, lower);
}

/// What a login hands out lets its bearer in: a request with the cookie in a
/// header of its own is let in for a day after the login, and not longer.
pub proof fn law_login_lets_in(
    state: StateView,
    bytes: Seq<u8>,
    lower: Seq<char>,
    now: nat,
    later: nat,
)
    requires
        distinct(state.sessions),
        starts_with(lower, "cookie:"@),
        now <= later,
    ensures
        token_good(
            begun(state.sessions, hex(bytes), now),
            cookie_in_header(
                "Cookie: "@ + split(cookie_text(hex(bytes)), ";"@)[0],
                lower,
                "session"@,
            ),
            later,
        ) <==> later < now + SESSION_TTL_SECS * NANOS,
{
    law_cookie_comes_back(bytes, lower);
    law_session_lifetime(state.sessions, hex(bytes), hex(bytes), now, later);
}

} // verus!
