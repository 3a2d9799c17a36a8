//! HTTP responses: what the server answers and the exact text it writes.
use vstd::prelude::*;
use vstd::string::*;
use vstd::utf8::encode_utf8;

use crate::number::{decimal, push_decimal, push_signed_decimal, signed_decimal};
use crate::outside::{json_string, to_json_string};

verus! {

/// Which of the server's answer formats a response takes.
#[derive(Clone, Copy, PartialEq, Eq, Structural, Debug)]
pub enum Reply {
    /// A bare message, with no content type.
    Plain,
    /// A plain-text list of key projects.
    KeyList,
    /// A git token, sent as a JSON string.
    KeyToken,
    /// A repository tree, already serialised as JSON.
    RepoTree,
}

/// A response: status code, format and message.
#[derive(Debug)]
pub struct Response {
    pub status_code: i32,
    pub reply: Reply,
    pub message: String,
}

impl View for Response {
    type V = (i32, Reply, Seq<char>);

    open spec fn view(&self) -> (i32, Reply, Seq<char>) {
        (self.status_code, self.reply, self.message@)
    }
}

/// The view of a bare-message response.
pub open spec fn plain(code: i32, message: Seq<char>) -> (i32, Reply, Seq<char>) {
    (code, Reply::Plain, message)
}

/// The reason phrase the server writes after a status code.
pub open spec fn reason_phrase(code: int) -> Seq<char> {
    if code == 200 {
        "OK"@
    } else if code == 201 {
        "Created"@
    } else if code == 404 {
        "Not Found"@
    } else if code == 500 {
        "Internal Server Error"@
    } else {
        "Unknown"@
    }
}

/// The number of bytes of the UTF-8 encoding of `s`, as `str::len` reports it.
pub open spec fn byte_len(s: Seq<char>) -> usize {
    encode_utf8(s).len() as usize
}

/// The HTTP/1.1 response text with the given status, header lines after
/// `Content-Length`, and body.
pub open spec fn http_message(code: i32, extra_headers: Seq<char>, body: Seq<char>) -> Seq<char> {
    "HTTP/1.1 "@ + signed_decimal(code as int) + " "@ + reason_phrase(code as int)
        + "\r\nContent-Length: "@ + decimal(byte_len(body) as nat) + "\r\n"@ + extra_headers
        + "\r\n"@ + body
}

/// The header line of plain-text bodies.
pub open spec fn text_plain_header() -> Seq<char> {
    "Content-Type: text/plain\r\n"@
}

/// The header line of JSON bodies.
pub open spec fn json_header() -> Seq<char> {
    "Content-Type: application/json\r\n"@
}

/// The text that is written for a response.
pub open spec fn wire_text(r: (i32, Reply, Seq<char>)) -> Seq<char> {
    match r.1 {
        Reply::Plain => http_message(r.0, Seq::empty(), r.2),
        Reply::KeyList => http_message(r.0, text_plain_header(), r.2),
        Reply::KeyToken => http_message(r.0, json_header(), json_string(r.2)),
        Reply::RepoTree => http_message(r.0, json_header(), r.2),
    }
}

/// The reason phrase for a status code.
pub fn status_text(status_code: i32) -> (r: &'static str)
    ensures
        r@ == reason_phrase(status_code as int),
{
    if status_code == 200 {
        "OK"
    } else if status_code == 201 {
        "Created"
    } else if status_code == 404 {
        "Not Found"
    } else if status_code == 500 {
        "Internal Server Error"
    } else {
        "Unknown"
    }
}

/// Writes the response text for a status, extra header lines and a body.
pub fn http_text(status_code: i32, extra_headers: &str, body: &str) -> (r: String)
    ensures
        r@ == http_message(status_code, extra_headers@, body@),
{
    let mut out = String::from_str("HTTP/1.1 ");
    push_signed_decimal(&mut out, status_code as i64);
    out.append(" ");
    out.append(status_text(status_code));
    out.append("\r\nContent-Length: ");
    let n = body.len();
    push_decimal(&mut out, n as u64);
    out.append("\r\n");
    out.append(extra_headers);
    out.append("\r\n");
    out.append(body);
    out
}

/// The text answering with a bare message.
pub fn send_back(message: &str, status_code: i32) -> (r: String)
    ensures
        r@ == http_message(status_code, Seq::empty(), message@),
{
    proof {
        reveal_strlit("");
    }
    http_text(status_code, "", message)
}

/// The text answering with a plain-text list of keys.
pub fn send_back_keys(status_code: i32, keys: &str) -> (r: String)
    ensures
        r@ == http_message(status_code, text_plain_header(), keys@),
{
    http_text(status_code, "Content-Type: text/plain\r\n", keys)
}

/// The text answering with one key, as a JSON string.
pub fn send_back_key(status_code: i32, key: &str) -> (r: String)
    ensures
        r@ == http_message(status_code, json_header(), json_string(key@)),
{
    let message = to_json_string(key);
    http_text(status_code, "Content-Type: application/json\r\n", message.as_str())
}

/// The text answering with a repository tree serialised as JSON.
pub fn send_back_repo(status_code: i32, repo_json: &str) -> (r: String)
    ensures
        r@ == http_message(status_code, json_header(), repo_json@),
{
    http_text(status_code, "Content-Type: application/json\r\n", repo_json)
}

impl Response {
    /// A bare-message response.
    pub fn plain(status_code: i32, message: &str) -> (r: Response)
        ensures
            r@ == plain(status_code, message@),
    {
        Response { status_code, reply: Reply::Plain, message: String::from_str(message) }
    }

    /// A response of the given format.
    pub fn new(status_code: i32, reply: Reply, message: String) -> (r: Response)
        ensures
            r@ == (status_code, reply, message@),
    {
        Response { status_code, reply, message }
    }

    /// The text written to the client for this response.
    pub fn render(&self) -> (r: String)
        ensures
            r@ == wire_text(self@),
    {
        match self.reply {
            Reply::Plain => send_back(self.message.as_str(), self.status_code),
            Reply::KeyList => send_back_keys(self.status_code, self.message.as_str()),
            Reply::KeyToken => send_back_key(self.status_code, self.message.as_str()),
            Reply::RepoTree => send_back_repo(self.status_code, self.message.as_str()),
        }
    }
}

/// The `Content-Length` the server writes, read back as the request parser
/// reads it, is the number of bytes of the body.
pub proof fn lemma_content_length_round_trip(body: Seq<char>)
    ensures
        crate::number::parse_usize(decimal(byte_len(body) as nat)) == Some(byte_len(body)),
{
    crate::number::lemma_parse_decimal(byte_len(body));
}

} // verus!
