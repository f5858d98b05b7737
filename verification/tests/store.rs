use node_manager::effects::Effect;
use node_manager::state::{update_state_key, AppState};
use node_manager::store::{read_state_file, state_file_text, Pairs};

fn run(args: &[&str]) -> Effect {
    Effect::Run(args.iter().map(|a| a.to_string()).collect())
}

#[test]
fn reading_pairs() {
    let kv = read_state_file(" a =1\nno sign\nb=2=3\na=4\r\n");
    assert_eq!(kv.get("a"), Some("4".to_string()));
    assert_eq!(kv.get("b"), Some("2=3".to_string()));
    assert_eq!(kv.get("no sign"), None);
    assert_eq!(kv.get_or("c", "d"), "d");
    assert_eq!(state_file_text(&kv), "a=4\nb=2=3\n");
}

#[test]
fn what_is_written_is_read() {
    let mut kv = Pairs::new();
    kv.insert("node_name".to_string(), " spaced ".to_string());
    kv.insert("hw_mode".to_string(), "STANDARD".to_string());
    kv.insert("empty".to_string(), String::new());
    let back = read_state_file(&state_file_text(&kv));
    assert_eq!(back, kv);
}

#[test]
fn changing_one_key_keeps_the_others() {
    let done = update_state_key("onboarded=true\nnode_name=a\n", "node_name", "b");
    assert_eq!(
        done,
        vec![
            Effect::MakeDir("/etc/node-manager".to_string()),
            Effect::Write(
                "/etc/node-manager/state".to_string(),
                "onboarded=true\nnode_name=b\n".to_string()
            ),
            run(&["chmod", "600", "/etc/node-manager/state"]),
        ]
    );
    let added = update_state_key("", "wt_suffix", "00ff");
    assert_eq!(
        added[1],
        Effect::Write("/etc/node-manager/state".to_string(), "wt_suffix=00ff\n".to_string())
    );
}

#[test]
fn the_state_of_a_file() {
    let kv = read_state_file("onboarded=true\nnode_name=a\nunyt_agent_id=x\n");
    let state = AppState::new(true, &kv);
    assert!(state.ap_mode);
    assert!(state.onboarded);
    assert_eq!(state.node_name, "a");
    assert_eq!(state.hw_mode, "STANDARD");
    assert_eq!(state.unyt_agent_id, "x");
    assert_eq!(state.log_sender_endpoint, "");
    assert_eq!(state.seed_hash, "");
    assert!(state.sessions.is_empty());
    let fresh = AppState::new(false, &read_state_file("onboarded=yes\n"));
    assert!(!fresh.onboarded);
}
