use node_manager::effects::Effect;
use node_manager::handlers::{
    begin_recovery, confirm_recovery, finish_password, handle_generate_seed, handle_recover,
    new_seed_phrase, refuse_generate_seed, PasswordStep,
};
use node_manager::http::Reply;
use node_manager::seed::{keep_twelve_words, make_seed_phrase, read_seed_phrase};
use node_manager::state::AppState;
use node_manager::store::read_state_file;

const ZEROS: &str = "abandon abandon abandon abandon abandon abandon abandon abandon abandon abandon abandon about";
const SEVENS: &str = "legal winner thank year wave sausage worth useful legal winner thank yellow";

fn state(content: &str) -> AppState {
    AppState::new(false, &read_state_file(content))
}

fn answer(status: u16, msg: &str) -> PasswordStep {
    PasswordStep::Answer(Reply::Error(status, msg.to_string()))
}

#[test]
fn phrases_of_random_bytes() {
    assert_eq!(make_seed_phrase(&[0; 16]), ZEROS);
    assert_eq!(make_seed_phrase(&[0x7f; 16]), SEVENS);
    for byte in 0..=255u8 {
        let phrase = make_seed_phrase(&[byte; 16]);
        assert_eq!(phrase.split(' ').count(), 12);
        assert!(phrase.chars().all(|c| c.is_ascii_lowercase() || c == ' '));
        assert_eq!(read_seed_phrase(&phrase), Some(phrase));
    }
}

#[test]
fn what_is_kept_of_a_phrase() {
    assert_eq!(
        new_seed_phrase(&[0x7f; 16], &[1, 2, 3, 4]),
        (SEVENS.to_string(), format!("01020304:{}", SEVENS))
    );
}

#[test]
fn reading_a_phrase() {
    assert_eq!(read_seed_phrase(SEVENS), Some(SEVENS.to_string()));
    assert_eq!(read_seed_phrase(&SEVENS.to_uppercase()), Some(SEVENS.to_string()));
    let loose = format!("  {}\n", SEVENS.replace(' ', "  \t"));
    assert_eq!(read_seed_phrase(&loose), Some(SEVENS.to_string()));
    assert_eq!(read_seed_phrase(""), None);
    assert_eq!(read_seed_phrase("legal winner thank"), None);
    assert_eq!(read_seed_phrase(&SEVENS.replace("yellow", "year")), None);
    assert_eq!(read_seed_phrase(&SEVENS.replace("yellow", "yelow")), None);
}

#[test]
fn a_phrase_has_twelve_words() {
    let longer = "legal winner thank year wave sausage worth useful legal winner thank year wave sausage worth useful legal will";
    assert_eq!(read_seed_phrase(longer), None);
    assert_eq!(keep_twelve_words(Some(longer.to_string())), None);
    assert_eq!(keep_twelve_words(Some(ZEROS.to_string())), Some(ZEROS.to_string()));
    assert_eq!(keep_twelve_words(None), None);
}

#[test]
fn a_phrase_resets_the_password() {
    let s = state("seed_hash=sha256:0a0b0c0d:abcd\n");
    let body = format!(r#"{{"seedPhrase":"{}","newPassword":"new-pass"}}"#, SEVENS);
    assert_eq!(
        handle_recover(&body, &s),
        PasswordStep::Digest(format!("0a0b0c0d:{}", SEVENS))
    );
    assert_eq!(
        begin_recovery(&body, Some(ZEROS), &s.seed_hash),
        PasswordStep::Digest(format!("0a0b0c0d:{}", ZEROS))
    );
    assert_eq!(
        confirm_recovery(&body, &s, "abcd", &[1, 2, 3, 4]),
        PasswordStep::Digest("01020304:new-pass".to_string())
    );
    assert_eq!(
        confirm_recovery(&body, &s, "abce", &[1, 2, 3, 4]),
        answer(401, "Incorrect seed phrase")
    );
    assert_eq!(finish_password(&[1, 2, 3, 4], "ef").0, "sha256:01020304:ef");
}

#[test]
fn resetting_the_password_refused() {
    let s = state("seed_hash=sha256:0a0b0c0d:abcd\n");
    assert_eq!(
        handle_recover(r#"{"seedPhrase":"","newPassword":"12345678"}"#, &s),
        answer(400, "seedPhrase and newPassword are required")
    );
    assert_eq!(
        handle_recover(&format!(r#"{{"seedPhrase":"{}"}}"#, SEVENS), &s),
        answer(400, "seedPhrase and newPassword are required")
    );
    assert_eq!(
        handle_recover(&format!(r#"{{"seedPhrase":"{}","newPassword":"ääää"}}"#, SEVENS), &s),
        answer(400, "Password must be at least 8 characters")
    );
    assert_eq!(
        handle_recover(r#"{"seedPhrase":"twelve words","newPassword":"12345678"}"#, &s),
        answer(400, "Invalid seed phrase")
    );
    let body = format!(r#"{{"seedPhrase":"{}","newPassword":"12345678"}}"#, SEVENS);
    assert_eq!(handle_recover(&body, &state("")), answer(401, "Incorrect seed phrase"));
}

#[test]
fn a_seed_phrase_is_made_once() {
    let mut s = state("node_name=a\n");
    assert_eq!(refuse_generate_seed(&s), None);
    let (done, reply) =
        handle_generate_seed(&mut s, SEVENS, &[1, 2, 3, 4], "abcd", "node_name=a\n");
    assert_eq!(
        reply,
        Reply::Json(format!(r#"{{"status":"ok","seed_phrase":"{}"}}"#, SEVENS))
    );
    assert_eq!(s.seed_hash, "sha256:01020304:abcd");
    assert_eq!(
        done[1],
        Effect::Write(
            "/etc/node-manager/state".to_string(),
            "node_name=a\nseed_hash=sha256:01020304:abcd\n".to_string()
        )
    );
    let refused =
        Reply::Error(400, "A recovery seed phrase has already been generated".to_string());
    assert_eq!(refuse_generate_seed(&s), Some(refused));
    let (done, reply) = handle_generate_seed(&mut s, ZEROS, &[0; 4], "ef", "");
    assert!(done.is_empty());
    assert!(matches!(reply, Reply::Error(400, _)));
    assert_eq!(s.seed_hash, "sha256:01020304:abcd");
}
