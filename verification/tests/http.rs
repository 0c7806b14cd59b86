use agon_control::http::{json, json_error, request_line, respond, JSON};

fn text(bytes: Vec<u8>) -> String {
    String::from_utf8(bytes).unwrap()
}

#[test]
fn frames_a_response() {
    let reply = respond(200, "text/plain", b"hello");
    assert_eq!(
        text(reply),
        "HTTP/1.1 200 OK\r\nContent-Type: text/plain\r\nContent-Length: 5\r\nConnection: close\r\n\r\nhello"
    );
}

#[test]
fn every_status_has_its_phrase() {
    let phrases = [
        (200, "200 OK"),
        (400, "400 Bad Request"),
        (404, "404 Not Found"),
        (405, "405 Method Not Allowed"),
        (500, "500 Internal Server Error"),
        (501, "501 Not Implemented"),
        (503, "503 Service Unavailable"),
        (504, "504 Gateway Timeout"),
        (418, "500 Internal Server Error"),
    ];
    for (code, phrase) in phrases {
        let reply = text(respond(code, JSON, b""));
        assert_eq!(reply.lines().next(), Some(format!("HTTP/1.1 {}", phrase).as_str()));
    }
}

#[test]
fn body_stands_behind_the_first_blank_line() {
    let body = [13u8, 10, 13, 10, 0, 255, 13, 10, 13, 10];
    let reply = respond(503, "application/octet-stream", &body);
    let end = reply.windows(4).position(|w| w == b"\r\n\r\n").unwrap() + 4;
    assert_eq!(&reply[end..], &body);
    let head = String::from_utf8(reply[..end].to_vec()).unwrap();
    assert!(head.contains("\r\nContent-Length: 10\r\n"));
}

#[test]
fn errors_are_json() {
    let reply = text(json_error(404, "not found"));
    assert!(reply.ends_with("\r\n\r\n{\"error\":\"not found\"}"));
    assert!(reply.contains("Content-Type: application/json; charset=utf-8\r\n"));
    assert!(reply.contains("Content-Length: 21\r\n"));
}

#[test]
fn json_length_counts_bytes() {
    let reply = text(json(200, "\"\u{e9}\""));
    assert!(reply.contains("Content-Length: 4\r\n"));
}

#[test]
fn reads_a_request_line() {
    let line = request_line("GET /mem?addr=1&len=2 HTTP/1.1\r\nHost: x\r\n\r\n");
    assert_eq!(line.method, "GET");
    assert_eq!(line.path, "/mem");
    assert_eq!(line.query, "addr=1&len=2");
}

#[test]
fn query_starts_at_the_first_question_mark() {
    let line = request_line("POST /key?text=? HTTP/1.1");
    assert_eq!(line.path, "/key");
    assert_eq!(line.query, "text=?");
}

#[test]
fn missing_words_have_defaults() {
    let empty = request_line("");
    assert_eq!((empty.method, empty.path, empty.query), ("", "/", ""));
    let method_only = request_line("GET");
    assert_eq!((method_only.method, method_only.path, method_only.query), ("GET", "/", ""));
    let second_line = request_line("\nGET /status");
    assert_eq!((second_line.method, second_line.path), ("", "/"));
    let bare_query = request_line("GET ?a=1");
    assert_eq!((bare_query.path, bare_query.query), ("", "a=1"));
}

#[test]
fn any_white_space_parts_words() {
    let line = request_line("  GET\t\u{a0}/status\r\nmore");
    assert_eq!((line.method, line.path), ("GET", "/status"));
}
