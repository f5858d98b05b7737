use node_manager::effects::{Effect, FileWrite};
use node_manager::http::{Plan, Reply};
use node_manager::ssh::{
    finish_ssh_add, finish_ssh_remove, handle_ssh_add, handle_ssh_remove, is_valid_ssh_pubkey, read_ssh_keys, ssh_keys_text,
};

const ED: &str = "ssh-ed25519 AAAA alice@home";
const RSA: &str = "ssh-rsa BBBB";

fn refused(status: u16, msg: &str) -> Plan {
    Plan::Answer(Reply::Error(status, msg.to_string()))
}

fn file(content: &str) -> Plan {
    Plan::Write(FileWrite {
        dir: "/home/holo/.ssh".to_string(),
        path: "/home/holo/.ssh/authorized_keys".to_string(),
        content: content.to_string(),
    })
}

#[test]
fn reading_keys() {
    let content = format!("# comment\n\n  {}  \r\n{}", ED, RSA);
    assert_eq!(read_ssh_keys(&content), vec![ED, RSA]);
    assert!(read_ssh_keys("").is_empty());
}

#[test]
fn keys_there_and_back() {
    let keys = vec![ED.to_string(), RSA.to_string()];
    assert_eq!(ssh_keys_text(&keys), format!("{}\n{}\n", ED, RSA));
    assert_eq!(read_ssh_keys(&ssh_keys_text(&keys)), keys);
    assert_eq!(ssh_keys_text(&Vec::new()), "\n");
    assert!(read_ssh_keys("\n").is_empty());
}

#[test]
fn public_keys() {
    assert!(is_valid_ssh_pubkey(ED));
    assert!(is_valid_ssh_pubkey(" ssh-rsa A"));
    assert!(is_valid_ssh_pubkey("ecdsa-sha2-nistp256 A"));
    assert!(is_valid_ssh_pubkey("sk-ssh-ed25519@openssh.com A"));
    assert!(!is_valid_ssh_pubkey("ssh-ed25519"));
    assert!(!is_valid_ssh_pubkey("ssh-dss A"));
    assert!(!is_valid_ssh_pubkey(""));
}

#[test]
fn adding_a_key() {
    let body = format!(r#"{{"key":"{}"}}"#, RSA);
    assert_eq!(handle_ssh_add(&body, &format!("{}\n", ED)), file(&format!("{}\n{}\n", ED, RSA)));
    assert_eq!(handle_ssh_add(&body, ""), file(&format!("{}\n", RSA)));
    assert_eq!(handle_ssh_add(&body, RSA), refused(409, "Key already present"));
    assert_eq!(handle_ssh_add("{}", ""), refused(400, "key is required"));
    assert_eq!(
        handle_ssh_add(r#"{"key":"nonsense"}"#, ""),
        refused(400, "Invalid SSH public key format")
    );
}

#[test]
fn removing_a_key() {
    let content = format!("{}\n{}\n", ED, RSA);
    assert_eq!(handle_ssh_remove(r#"{"index":0}"#, &content), file(&format!("{}\n", RSA)));
    assert_eq!(handle_ssh_remove(r#"{"index": 1}"#, &content), file(&format!("{}\n", ED)));
    assert_eq!(handle_ssh_remove(r#"{"index":0}"#, ED), file("\n"));
    assert_eq!(handle_ssh_remove(r#"{"index":2}"#, &content), refused(404, "index out of range"));
    assert_eq!(handle_ssh_remove(r#"{"index":"0"}"#, &content), refused(400, "invalid index"));
    assert_eq!(handle_ssh_remove(r#"{"index":-1}"#, &content), refused(400, "invalid index"));
    assert_eq!(
        handle_ssh_remove(r#"{"index":99999999999999999999}"#, &content),
        refused(400, "invalid index")
    );
    assert_eq!(handle_ssh_remove("{}", &content), refused(400, "index is required"));
}

#[test]
fn after_writing_keys() {
    let (done, reply) = finish_ssh_add(None);
    assert_eq!(reply, Reply::Json(r#"{"status":"added"}"#.to_string()));
    assert_eq!(done.len(), 3);
    assert_eq!(
        done[0],
        Effect::Run(["chown", "-R", "holo:holo", "/home/holo/.ssh"].map(String::from).to_vec())
    );
    assert_eq!(finish_ssh_remove(None).1, Reply::Json(r#"{"status":"removed"}"#.to_string()));
    let (done, reply) = finish_ssh_remove(Some("disk full"));
    assert!(done.is_empty());
    assert_eq!(reply, Reply::Error(500, "disk full".to_string()));
}
