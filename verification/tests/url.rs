use node_manager::url::{get_query_param, parse_form, url_decode, url_encode_query, wt_status_url};

#[test]
fn encoding() {
    assert_eq!(url_encode_query("aZ09-_.~"), "aZ09-_.~");
    assert_eq!(url_encode_query("a b&c=é"), "a%20b%26c%3D%C3%A9");
    assert_eq!(
        wt_status_url("nomad-client-a b"),
        "https://wind-tunnel-runner-status.holochain.org/status?hostname=nomad-client-a%20b"
    );
}

#[test]
fn decoding() {
    assert_eq!(url_decode("a+b%20c"), "a b c");
    assert_eq!(url_decode("%41%4a%4A"), "AJJ");
    assert_eq!(url_decode("%C3%A9"), "\u{c3}\u{a9}");
    assert_eq!(url_decode("x%zz%4"), "x@");
    assert_eq!(url_decode("%"), "\0");
}

#[test]
fn decoding_undoes_encoding() {
    let s = "key = 100% & more";
    assert_eq!(url_decode(&url_encode_query(s)), s);
    assert_eq!(get_query_param(&format!("id={}", url_encode_query(s)), "id"), s);
}

#[test]
fn query_parameters() {
    assert_eq!(get_query_param("a=1&id=x%20y&id=z", "id"), "x y");
    assert_eq!(get_query_param("a=1&id", "id"), "");
    assert_eq!(get_query_param("id&id=2", "id"), "");
    assert_eq!(get_query_param("", "id"), "");
}

#[test]
fn forms() {
    let form = parse_form("user=a+b&password=p%26q&plain&password=last");
    assert_eq!(form.get("user"), Some("a b".to_string()));
    assert_eq!(form.get("password"), Some("last".to_string()));
    assert_eq!(form.get("plain"), None);
}
