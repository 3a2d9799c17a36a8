use gruct_server::response::{
    send_back, send_back_key, send_back_keys, send_back_repo, status_text, Reply, Response,
};

#[test]
fn status_texts() {
    assert_eq!(status_text(200), "OK");
    assert_eq!(status_text(201), "Created");
    assert_eq!(status_text(404), "Not Found");
    assert_eq!(status_text(500), "Internal Server Error");
    assert_eq!(status_text(401), "Unknown");
    assert_eq!(status_text(403), "Unknown");
}

#[test]
fn plain_message_format() {
    assert_eq!(
        send_back("Authentication failed", 401),
        "HTTP/1.1 401 Unknown\r\nContent-Length: 21\r\n\r\nAuthentication failed"
    );
}

#[test]
fn content_length_counts_bytes() {
    let text = send_back("é€", 200);
    assert_eq!(text, "HTTP/1.1 200 OK\r\nContent-Length: 5\r\n\r\né€");
}

#[test]
fn key_list_format() {
    assert_eq!(
        send_back_keys(200, "a\nb\n"),
        "HTTP/1.1 200 OK\r\nContent-Length: 4\r\nContent-Type: text/plain\r\n\r\na\nb\n"
    );
}

#[test]
fn key_is_sent_as_json_string() {
    assert_eq!(
        send_back_key(200, "tok"),
        "HTTP/1.1 200 OK\r\nContent-Length: 5\r\nContent-Type: application/json\r\n\r\n\"tok\""
    );
    assert_eq!(
        send_back_key(200, "a\"b\n"),
        "HTTP/1.1 200 OK\r\nContent-Length: 8\r\nContent-Type: application/json\r\n\r\n\"a\\\"b\\n\""
    );
}

#[test]
fn repo_is_sent_as_given_json() {
    assert_eq!(
        send_back_repo(200, "{}"),
        "HTTP/1.1 200 OK\r\nContent-Length: 2\r\nContent-Type: application/json\r\n\r\n{}"
    );
}

#[test]
fn render_dispatches_on_format() {
    let r = Response::new(200, Reply::KeyToken, String::from("t"));
    assert_eq!(r.render(), send_back_key(200, "t"));
    let r = Response::plain(404, "x");
    assert_eq!(r.render(), send_back("x", 404));
    let r = Response::new(201, Reply::KeyList, String::from("p\n"));
    assert_eq!(r.render(), send_back_keys(201, "p\n"));
    let r = Response::new(200, Reply::RepoTree, String::from("[]"));
    assert_eq!(r.render(), send_back_repo(200, "[]"));
}

#[test]
fn control_characters_are_escaped() {
    let text = send_back_key(200, "\u{1}\t\u{8}\u{c}\r\\");
    assert!(text.ends_with("\"\\u0001\\t\\b\\f\\r\\\\\""));
    assert!(send_back_key(200, "\u{1f}é").ends_with("\"\\u001fé\""));
}
