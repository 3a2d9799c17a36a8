use gruct_server::request::{body_text, content_length_in, parse_request_line, HeaderState};
use gruct_server::response::send_back;
use gruct_server::routing::{authorize, route_request, Route};

fn pairs(v: &[(String, String)]) -> Vec<(&str, &str)> {
    v.iter().map(|(a, b)| (a.as_str(), b.as_str())).collect()
}

#[test]
fn request_line_with_query() {
    let r = parse_request_line("GET /pull/myrepo?where=x&flag&a=b=c&&=v HTTP/1.1\r\n");
    assert_eq!(r.method, "GET");
    assert_eq!(r.path, "/pull/myrepo?where=x&flag&a=b=c&&=v");
    assert_eq!(r.path_without_query, "/pull/myrepo");
    assert_eq!(r.query, "where=x&flag&a=b=c&&=v");
    assert_eq!(pairs(&r.params), vec![("where", "x"), ("a", "b=c"), ("", "v")]);
    assert_eq!(r.relative_path, "pull/myrepo");
}

#[test]
fn request_line_defaults() {
    let r = parse_request_line("\r\n");
    assert_eq!(r.method, "");
    assert_eq!(r.path, "/");
    assert_eq!(r.path_without_query, "/");
    assert_eq!(r.query, "");
    assert!(r.params.is_empty());
    assert_eq!(r.relative_path, "");
    let r = parse_request_line("  POST\t");
    assert_eq!(r.method, "POST");
    assert_eq!(r.path, "/");
}

#[test]
fn second_question_mark_stays_in_query() {
    let r = parse_request_line("PUT //update/f.txt?where=repo?x HTTP/1.1");
    assert_eq!(r.path_without_query, "//update/f.txt");
    assert_eq!(r.query, "where=repo?x");
    assert_eq!(pairs(&r.params), vec![("where", "repo?x")]);
    assert_eq!(r.relative_path, "update/f.txt");
}

#[test]
fn headers_give_length_and_password() {
    let mut h = HeaderState::new();
    assert!(h.feed("Content-Length: 12\r\n"));
    assert!(h.feed("PWD: secret\r\n"));
    assert!(h.feed("X-Other: value: more\r\n"));
    assert_eq!(h.body_length, 12);
    assert_eq!(h.password(), "secret");
    assert_eq!(h.header("x-other"), Some(String::from("value: more")));
    assert_eq!(h.header("content-length"), Some(String::from("12")));
    assert!(!h.feed("\r\n"));
    assert_eq!(h.body_length, 12);
}

#[test]
fn later_header_wins() {
    let mut h = HeaderState::new();
    h.feed("pwd: a\r\n");
    h.feed("Pwd: b\r\n");
    assert_eq!(h.password(), "b");
    assert_eq!(h.headers.len(), 2);
}

#[test]
fn bad_content_length_is_zero() {
    let mut h = HeaderState::new();
    h.feed("Content-Length: 9\r\n");
    h.feed("content-length: nine\r\n");
    assert_eq!(h.body_length, 0);
    h.feed("CONTENT-LENGTH:7");
    assert_eq!(h.body_length, 7);
    assert_eq!(h.header("content-length"), Some(String::from("nine")));
}

#[test]
fn missing_password_is_empty() {
    let mut h = HeaderState::new();
    h.feed("Host: example\r\n");
    assert_eq!(h.password(), "");
    assert_eq!(h.body_length, 0);
    assert!(!h.feed(""));
}

#[test]
fn written_content_length_is_read_back() {
    let wire = send_back("héllo", 200);
    let mut h = HeaderState::new();
    let mut lines = wire.split_inclusive("\r\n");
    lines.next();
    while h.feed(lines.next().unwrap()) {}
    assert_eq!(h.body_length, "héllo".len());
}

#[test]
fn body_bytes_are_decoded_lossily() {
    assert_eq!(body_text(b"aGk="), "aGk=");
    assert_eq!(body_text(&[0x68, 0xff, 0x69]), "h\u{fffd}i");
}

#[test]
fn get_routes() {
    let d = route_request("GET", "/pull/repo/sub?x=1", "");
    assert!(!d.authenticate());
    assert!(matches!(d.route(), Route::PullRepo(n) if n == "repo/sub?x=1"));
    let d = route_request("GET", "/pull", "");
    assert!(matches!(d.route(), Route::PullRepo(n) if n.is_empty()));
    let d = route_request("GET", "/keys/proj", "");
    assert!(d.authenticate());
    assert!(matches!(d.route(), Route::PullKey(n) if n == "proj"));
    let d = route_request("GET", "/getkeys", "");
    assert!(d.authenticate());
    assert!(matches!(d.route(), Route::AllKeys));
    let d = route_request("GET", "/getrepos", "");
    assert!(!d.authenticate());
    assert!(matches!(d.route(), Route::AllRepos));
    let d = route_request("GET", "/other", "");
    assert!(!d.authenticate());
    assert!(matches!(d.route(), Route::Unmatched));
}

#[test]
fn put_and_post_routes() {
    let d = route_request("PUT", "/update/f", "/update/f.txt");
    assert!(d.authenticate());
    assert!(matches!(d.route(), Route::UpdateFile(n) if n == "f.txt"));
    let d = route_request("PUT", "/key/t", "/key/tok");
    assert!(matches!(d.route(), Route::AddKey(n) if n == "tok"));
    let d = route_request("PUT", "/update/f", "/var/lib/gruct-repos/update/f");
    assert!(d.authenticate());
    assert!(matches!(d.route(), Route::Unmatched));
    let d = route_request("POST", "/repo/new", "/repo/new");
    assert!(d.authenticate());
    assert!(matches!(d.route(), Route::CreateDir));
    let d = route_request("POST", "/repo/new", "/var/lib/gruct-repos/repo/new");
    assert!(d.authenticate());
    assert!(matches!(d.route(), Route::Unmatched));
    let d = route_request("DELETE", "/pull/x", "/pull/x");
    assert!(!d.authenticate());
    assert!(matches!(d.route(), Route::Unmatched));
}

#[test]
fn failure_messages() {
    let r = Route::UpdateFile(String::from("f")).failure_response().unwrap();
    assert_eq!(r.status_code, 500);
    assert_eq!(r.message, "Failed to write to file");
    let r = Route::AllRepos.failure_response().unwrap();
    assert_eq!(r.message, "Failed to get all repo names");
    assert!(Route::Unmatched.failure_response().is_none());
}

#[test]
fn lowercased_length_lines() {
    assert_eq!(content_length_in("content-length: 42", 3), 42);
    assert_eq!(content_length_in("content-length:+7 ", 3), 7);
    assert_eq!(content_length_in("content-length: x", 3), 0);
    assert_eq!(content_length_in("Content-Length: 42", 3), 3);
    assert_eq!(content_length_in("host: a", 9), 9);
}

#[test]
fn protected_routes_need_the_password() {
    let d = route_request("GET", "/keys/proj", "");
    let e = authorize(d, "wrong", "right").unwrap_err();
    assert_eq!((e.status_code, e.message.as_str()), (401, "Authentication failed"));
    let d = route_request("GET", "/keys/proj", "");
    assert!(matches!(authorize(d, "right", "right"), Ok(Route::PullKey(n)) if n == "proj"));
    let d = route_request("GET", "/getrepos", "");
    assert!(matches!(authorize(d, "", "right"), Ok(Route::AllRepos)));
    let d = route_request("PUT", "/x", "/nowhere");
    assert!(authorize(d, "", "right").is_err());
    let d = route_request("HEAD", "/x", "/nowhere");
    assert!(matches!(authorize(d, "", "right"), Ok(Route::Unmatched)));
}
