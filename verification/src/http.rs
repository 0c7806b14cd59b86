//! The HTTP surface: reading a request line and framing a response.

use vstd::prelude::*;
#[allow(unused_imports)]
use vstd::utf8::{decode_utf8, encode_utf8, valid_utf8};

use crate::text::{append_decimal, run, Class};
#[allow(unused_imports)]
use crate::text::{decimal, run_len};

verus! {

/// The content type of a JSON body.
pub const JSON: &'static str = "application/json; charset=utf-8";

/// The content type of raw bytes.
pub const OCTETS: &'static str = "application/octet-stream";

/// The content type of a portable pixmap.
pub const PIXMAP: &'static str = "image/x-portable-pixmap";

/// The status line's code and reason phrase. A code without a phrase of its own is answered as
/// an internal error.
pub open spec fn status_text(code: u16) -> Seq<char> {
    match code {
        200 => "200 OK"@,
        400 => "400 Bad Request"@,
        404 => "404 Not Found"@,
        405 => "405 Method Not Allowed"@,
        500 => "500 Internal Server Error"@,
        501 => "501 Not Implemented"@,
        503 => "503 Service Unavailable"@,
        504 => "504 Gateway Timeout"@,
        _ => "500 Internal Server Error"@,
    }
}

/// The head of a response: status line, headers, and the blank line that ends them.
pub open spec fn head_text(code: u16, content_type: Seq<char>, length: nat) -> Seq<char> {
    "HTTP/1.1 "@ + status_text(code) + "\r\nContent-Type: "@ + content_type
        + "\r\nContent-Length: "@ + decimal(length) + "\r\nConnection: close\r\n\r\n"@
}

/// A whole response: the head, then the body as it is.
pub open spec fn response(code: u16, content_type: Seq<char>, body: Seq<u8>) -> Seq<u8> {
    encode_utf8(head_text(code, content_type, body.len())) + body
}

/// The JSON body that reports an error.
pub open spec fn error_text(message: Seq<char>) -> Seq<char> {
    "{\"error\":\""@ + message + "\"}"@
}

/// The response that carries `text` as JSON.
pub open spec fn json_response(code: u16, text: Seq<char>) -> Seq<u8> {
    response(code, JSON@, encode_utf8(text))
}

/// Appends the bytes of `more`.
pub fn append_bytes(out: &mut Vec<u8>, more: &[u8])
    ensures
        final(out)@ == old(out)@ + more@,
{
    out.extend_from_slice(more);
    assert(out@ =~= old(out)@ + more@);
}

/// Frames a response.
pub fn respond(code: u16, content_type: &str, body: &[u8]) -> (reply: Vec<u8>)
    ensures
        reply@ == response(code, content_type@, body@),
{
    let status = match code {
        200 => "200 OK",
        400 => "400 Bad Request",
        404 => "404 Not Found",
        405 => "405 Method Not Allowed",
        500 => "500 Internal Server Error",
        501 => "501 Not Implemented",
        503 => "503 Service Unavailable",
        504 => "504 Gateway Timeout",
        _ => "500 Internal Server Error",
    };
    let mut head = String::new();
    head.append("HTTP/1.1 ");
    head.append(status);
    head.append("\r\nContent-Type: ");
    head.append(content_type);
    head.append("\r\nContent-Length: ");
    append_decimal(&mut head, body.len() as u64);
    head.append("\r\nConnection: close\r\n\r\n");
    assert(head@ =~= head_text(code, content_type@, body@.len()));
    let mut reply: Vec<u8> = Vec::new();
    append_bytes(&mut reply, head.as_str().as_bytes());
    append_bytes(&mut reply, body);
    assert(reply@ =~= response(code, content_type@, body@));
    reply
}

/// Frames `text` as a JSON response.
pub fn json(code: u16, text: &str) -> (reply: Vec<u8>)
    ensures
        reply@ == json_response(code, text@),
{
    respond(code, JSON, text.as_bytes())
}

/// Frames an error report.
pub fn json_error(code: u16, message: &str) -> (reply: Vec<u8>)
    ensures
        reply@ == json_response(code, error_text(message@)),
{
    let mut text = String::new();
    text.append("{\"error\":\"");
    text.append(message);
    text.append("\"}");
    assert(text@ =~= error_text(message@));
    json(code, text.as_str())
}

/// The first line of a text, up to its newline.
pub open spec fn first_line(text: Seq<char>) -> Seq<char> {
    text.take(run_len(text, Class::Except('\n')))
}

/// `s` without the white space at its start.
pub open spec fn from_word(s: Seq<char>) -> Seq<char> {
    s.skip(run_len(s, Class::Blank))
}

/// The first word of `s`: what stands between the white space at its start and the next one.
/// It is empty where `s` holds no word.
pub open spec fn first_word(s: Seq<char>) -> Seq<char> {
    from_word(s).take(run_len(from_word(s), Class::Word))
}

/// What follows the first word of `s`.
pub open spec fn after_word(s: Seq<char>) -> Seq<char> {
    from_word(s).skip(run_len(from_word(s), Class::Word))
}

/// The method that a request names: the first word of its first line.
pub open spec fn method_of(text: Seq<char>) -> Seq<char> {
    first_word(first_line(text))
}

/// The target that a request names: the second word of its first line, and `/` where there is
/// none.
pub open spec fn target_of(text: Seq<char>) -> Seq<char> {
    let word = first_word(after_word(first_line(text)));
    if word.len() == 0 {
        "/"@
    } else {
        word
    }
}

/// The path of a target: what stands before its first `?`.
pub open spec fn path_of(target: Seq<char>) -> Seq<char> {
    target.take(run_len(target, Class::Except('?')))
}

/// The query of a target: what stands behind its first `?`.
pub open spec fn query_of(target: Seq<char>) -> Seq<char> {
    let mark = run_len(target, Class::Except('?'));
    if mark < target.len() {
        target.skip(mark + 1)
    } else {
        Seq::empty()
    }
}

/// What the first line of a request names.
pub struct RequestLine<'a> {
    pub method: &'a str,
    pub path: &'a str,
    pub query: &'a str,
}

/// Splits off the first word: the word, and what follows it.
fn split_word<'a>(s: &'a str) -> (parts: (&'a str, &'a str))
    ensures
        parts.0@ == first_word(s@),
        parts.1@ == after_word(s@),
{
    let len = s.unicode_len();
    let start = run(s, Class::Blank);
    let t = s.substring_char(start, len);
    assert(t@ =~= from_word(s@));
    let end = run(t, Class::Word);
    let word = t.substring_char(0, end);
    let rest = t.substring_char(end, len - start);
    assert(word@ =~= first_word(s@));
    assert(rest@ =~= after_word(s@));
    (word, rest)
}

/// Reads the first line of a request. What a malformed request leaves out is empty, but for the
/// path, which is then `/`.
pub fn request_line<'a>(text: &'a str) -> (line: RequestLine<'a>)
    ensures
        line.method@ == method_of(text@),
        line.path@ == path_of(target_of(text@)),
        line.query@ == query_of(target_of(text@)),
{
    let first = text.substring_char(0, run(text, Class::Except('\n')));
    assert(first@ =~= first_line(text@));
    let (method, rest) = split_word(first);
    let (word, _) = split_word(rest);
    let target = if word.unicode_len() == 0 {
        "/"
    } else {
        word
    };
    let len = target.unicode_len();
    let mark = run(target, Class::Except('?'));
    let path = target.substring_char(0, mark);
    assert(path@ =~= path_of(target@));
    let query = if mark < len {
        target.substring_char(mark + 1, len)
    } else {
        target.substring_char(len, len)
    };
    assert(query@ =~= query_of(target@));
    RequestLine { method, path, query }
}

/// The text that `String::from_utf8_lossy` makes of bytes.
pub uninterp spec fn lossy_text(bytes: Seq<u8>) -> Seq<char>;

/// Decodes bytes by `String::from_utf8_lossy`: bytes that are UTF-8 give the text they encode.
/// Elsewhere the standard library puts a replacement character in place of each malformed
/// stretch; the contract names the result, `lossy_text`, and does not spell that rule out.
#[verifier::external_body]
pub(crate) fn decode_lossy(bytes: &[u8]) -> (text: String)
    ensures
        text@ == lossy_text(bytes@),
        valid_utf8(bytes@) ==> text@ == decode_utf8(bytes@),
{
    String::from_utf8_lossy(bytes).into_owned()
}

} // verus!
