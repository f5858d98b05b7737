use node_manager::auth::{
    get_local_ip, hash_password, load_or_create_auth, password_challenge, random_hex,
    salted_password, sha256_of, verify_password, SALT_BYTES,
};

#[test]
fn bytes_in_hexadecimal() {
    assert_eq!(random_hex(&[0, 15, 16, 255]), "000f10ff");
    assert_eq!(random_hex(&[]), "");
}

#[test]
fn digests_in_output() {
    assert_eq!(sha256_of("abc123  -\n"), "abc123");
    assert_eq!(sha256_of(""), "");
    assert_eq!(sha256_of(" \n"), "");
}

#[test]
fn keeping_and_checking_a_password() {
    assert_eq!(salted_password("00ff", "secret"), "00ff:secret");
    let stored = hash_password(&[0, 0xff, 0x12, 0x34], "abcd");
    assert_eq!(stored, "sha256:00ff1234:abcd");
    assert_eq!(password_challenge("guess", &stored), Some("00ff1234:guess".to_string()));
    assert!(verify_password(&stored, "abcd"));
    assert!(verify_password("  sha256:00ff: abcd \n", "abcd"));
    assert!(!verify_password(&stored, "abce"));
    assert!(!verify_password("sha256:00ff:", ""));
}

#[test]
fn what_is_no_password_record() {
    assert_eq!(password_challenge("x", "md5:00:aa"), None);
    assert_eq!(password_challenge("x", "sha256:00"), None);
    assert_eq!(password_challenge("x", ""), None);
    assert!(!verify_password("sha256:00", "00"));
    assert_eq!(password_challenge("x", "sha256:a:b:c"), Some("a:x".to_string()));
    assert!(verify_password("sha256:a:b:c", "b:c"));
}

#[test]
fn a_salt_has_eight_digits() {
    let stored = hash_password(&[7; SALT_BYTES], "abcd");
    let parts: Vec<&str> = stored.split(':').collect();
    assert_eq!(parts, ["sha256", "07070707", "abcd"]);
}

#[test]
fn the_kept_record() {
    assert_eq!(load_or_create_auth(Some(" sha256:a:b\n")), "sha256:a:b");
    assert_eq!(load_or_create_auth(Some(" \n")), "");
    assert_eq!(load_or_create_auth(None), "");
}

#[test]
fn no_password_is_accepted_before_one_is_chosen() {
    let stored = load_or_create_auth(None);
    assert_eq!(password_challenge("", &stored), None);
    assert_eq!(password_challenge("anything", &stored), None);
    assert!(!verify_password(&stored, ""));
    assert!(!verify_password(&stored, "abcd"));
}

#[test]
fn the_address() {
    assert_eq!(get_local_ip("192.168.1.7\n"), "192.168.1.7");
    assert_eq!(get_local_ip("\n"), "<node-ip>");
}
