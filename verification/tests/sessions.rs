use node_manager::effects::Effect;
use node_manager::sessions::{load_sessions, save_sessions, Session, NANOS, SESSION_TTL_SECS};
use node_manager::state::{
    clear_cookie, create_session, is_authenticated, session_cookie, AppState,
};
use node_manager::store::Pairs;

const DAY: u128 = SESSION_TTL_SECS as u128 * NANOS;

fn fresh() -> AppState {
    AppState::new(false, &Pairs::new())
}

#[test]
fn a_session_is_good_for_a_day() {
    let mut state = fresh();
    let start = 1000 * NANOS;
    let (token, kept) = create_session(&mut state, &[0xab; 32], start);
    assert_eq!(token, "ab".repeat(32));
    assert_eq!(
        kept[1],
        Effect::Write("/etc/node-manager/sessions".to_string(), format!("{}=87400\n", token))
    );
    let headers = format!("Host: holo.local\r\nCookie: session={}\r\n", token);
    let (good, done) = is_authenticated(&headers, &mut state, start + DAY - 1);
    assert!(good);
    assert!(done.is_empty());
    let (good, done) = is_authenticated(&headers, &mut state, start + DAY);
    assert!(!good);
    assert_eq!(
        done[1],
        Effect::Write("/etc/node-manager/sessions".to_string(), String::new())
    );
    assert!(state.sessions.is_empty());
}

#[test]
fn an_unknown_token_is_not_good() {
    let mut state = fresh();
    let (_, _) = create_session(&mut state, &[1; 32], 0);
    let (good, done) = is_authenticated("Cookie: session=00\r\n", &mut state, 1);
    assert!(!good);
    assert_eq!(done.len(), 3);
    let (good, done) = is_authenticated("Accept: text/html\r\n", &mut state, 1);
    assert!(!good);
    assert!(done.is_empty());
    assert_eq!(state.sessions.len(), 1);
}

#[test]
fn a_new_session_drops_expired_ones() {
    let mut state = fresh();
    let (old, _) = create_session(&mut state, &[1; 32], 0);
    let (new, _) = create_session(&mut state, &[2; 32], DAY);
    assert_ne!(old, new);
    assert_eq!(state.sessions.len(), 1);
    assert_eq!(state.sessions[0].token, new);
}

#[test]
fn a_restart_clears_all_sessions() {
    let mut state = fresh();
    let (token, _) = create_session(&mut state, &[1; 32], 0);
    assert_eq!(state.sessions.len(), 1);
    let mut again = fresh();
    assert!(again.sessions.is_empty());
    let (good, _) =
        is_authenticated(&format!("Cookie: session={}\r\n", token), &mut again, 1);
    assert!(!good);
}

#[test]
fn the_sessions_file() {
    let sessions = vec![
        Session { token: "aa".to_string(), expires: 100 * NANOS },
        Session { token: "bb".to_string(), expires: 50 * NANOS + 7 },
    ];
    let text = match &save_sessions(&sessions)[1] {
        Effect::Write(_, text) => text.clone(),
        _ => panic!("nothing is written"),
    };
    assert_eq!(text, "aa=100\nbb=50\n");
    let back = load_sessions(&text, 0);
    assert_eq!(back[0], Session { token: "aa".to_string(), expires: 100 * NANOS });
    assert_eq!(back[1], Session { token: "bb".to_string(), expires: 50 * NANOS });
    assert_eq!(load_sessions(&text, 60 * NANOS).len(), 1);
    assert_eq!(load_sessions("x=soon\nno line\ny=-1\n", 0).len(), 0);
}

#[test]
fn cookies_for_sessions() {
    assert_eq!(session_cookie("ab"), "session=ab; HttpOnly; SameSite=Strict; Path=/");
    assert_eq!(clear_cookie(), "session=; HttpOnly; SameSite=Strict; Path=/; Max-Age=0");
}
