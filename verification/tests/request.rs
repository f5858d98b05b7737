use node_manager::http::{
    send_html, send_json_err, send_json_ok, send_redirect, send_redirect_with_cookie,
    send_response, Reply,
};
use node_manager::request::{begin_request, get_cookie, BODY_LIMIT};

#[test]
fn first_lines() {
    let head = begin_request("GET /manage/happs/logs?id=a?b HTTP/1.1\r\n").unwrap();
    assert_eq!(head.method, "GET");
    assert_eq!(head.path, "/manage/happs/logs");
    assert_eq!(head.query, "id=a?b");
    let bare = begin_request("GET /").unwrap();
    assert_eq!((bare.path.as_str(), bare.query.as_str()), ("/", ""));
    assert!(begin_request("GET\r\n").is_none());
    assert!(begin_request("").is_none());
}

#[test]
fn headers_and_body() {
    let mut head = begin_request("POST /login HTTP/1.1\r\n").unwrap();
    assert!(head.add_line("Host: holo.local\r\n"));
    assert_eq!(head.body_len(), 0);
    assert!(head.add_line("CONTENT-Length:  12 \r\n"));
    assert_eq!(head.body_len(), 12);
    assert!(head.add_line("Content-Length: many\r\n"));
    assert_eq!(head.body_len(), 0);
    assert!(head.add_line("content-length: 99999999\r\n"));
    assert_eq!(head.body_len(), BODY_LIMIT);
    assert!(!head.add_line("\r\n"));
    let req = head.with_body("password=x".to_string());
    assert_eq!(req.body, "password=x");
    assert!(req.headers.starts_with("Host: holo.local\r\nCONTENT-Length"));
}

#[test]
fn lowered_header_names() {
    let mut head = begin_request("POST / HTTP/1.1\r\n").unwrap();
    assert!(head.add_lowered_line("X\r\n", "content-length: 7\r\n"));
    assert_eq!(head.content_length, 7);
}

#[test]
fn cookies_in_headers() {
    assert_eq!(get_cookie("COOKIE: a=1; session = xyz ;b=2\r\n", "session"), Some("xyz".to_string()));
    assert_eq!(get_cookie("Cookie: sessions=1\r\nCookie: session=2\r\n", "session"), Some("2".to_string()));
    assert_eq!(get_cookie("Cookie: session\r\n", "session"), None);
    assert_eq!(get_cookie("X-Cookie: session=1\r\n", "session"), None);
    assert_eq!(get_cookie("Cookie: session=a=b\r\n", "session"), Some("a=b".to_string()));
}

#[test]
fn replies() {
    assert_eq!(
        send_response(404, "Not Found", "text/plain", "é"),
        "HTTP/1.1 404 Not Found\r\nContent-Type: text/plain\r\nContent-Length: 2\r\nConnection: close\r\n\r\né"
    );
    assert!(send_html("<p>").starts_with("HTTP/1.1 200 OK\r\nContent-Type: text/html; charset=utf-8\r\n"));
    assert!(send_json_ok("{}").ends_with("Content-Length: 2\r\nConnection: close\r\n\r\n{}"));
    assert_eq!(
        send_json_err(400, "bad \"x\""),
        "HTTP/1.1 400 Error\r\nContent-Type: application/json\r\nContent-Length: 21\r\nConnection: close\r\n\r\n{\"error\":\"bad \\\"x\\\"\"}"
    );
    assert_eq!(
        send_redirect("/login"),
        "HTTP/1.1 302 Found\r\nLocation: /login\r\nContent-Length: 0\r\nConnection: close\r\n\r\n"
    );
    assert_eq!(
        send_redirect_with_cookie("/manage", "session=1"),
        "HTTP/1.1 302 Found\r\nLocation: /manage\r\nSet-Cookie: session=1\r\nContent-Length: 0\r\nConnection: close\r\n\r\n"
    );
    assert_eq!(Reply::Error(400, "m".to_string()).text(), send_json_err(400, "m"));
    assert_eq!(Reply::NotFound.text(), send_response(404, "Not Found", "text/plain", "404 Not Found"));
    assert_eq!(Reply::Json("{}".to_string()).text(), send_json_ok("{}"));
    assert_eq!(Reply::Redirect("/".to_string()).text(), send_redirect("/"));
}
