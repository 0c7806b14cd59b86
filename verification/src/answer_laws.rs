//! What requests ask for and what they are answered, told from the outside: by the text that a
//! client sends and the bytes that it reads.

use vstd::prelude::*;
#[allow(unused_imports)]
use vstd::utf8::{encode_utf8, is_ascii_chars, is_ascii_chars_encode_utf8};

use crate::control_server::{
    Action, Endpoint, FrameSnapshot, KeyChoice, KeyMotion, Refusal, StepPoll, CONTRACT, EMULATOR,
    MEM_MAX, PLATFORM, STEP_TIMEOUT_MS,
};
#[allow(unused_imports)]
use crate::control_server::{
    bool_text, endpoint_at, key_action, key_choice, key_events, key_motion, mem_action, mem_response, pixmap_head,
    regs_json, regs_response, requested, screenshot_response, status_json, status_response,
    step_action, step_json, step_poll, text_action,
};
use crate::debugger::{DebugResp, RegisterDump};
#[allow(unused_imports)]
use crate::debugger::register_dump;
#[allow(unused_imports)]
use crate::http::{
    after_word, error_text, first_line, first_word, head_text, json_response, method_of, path_of,
    query_of, response, status_text, target_of, JSON, OCTETS, PIXMAP,
};
#[allow(unused_imports)]
use crate::laws::{joined, pair};
#[allow(unused_imports)]
use crate::query::{query_number, query_value};
#[allow(unused_imports)]
use crate::text::{
    all_digits, decimal, lemma_run_len, lemma_run_len_is, numeral_value, run_len, white_space, Class,
};

verus! {

/// A status line gives its code in decimal, and a phrase for it; a code that has no phrase of its
/// own is answered as 500 is.
pub proof fn law_status_line(code: u16)
    ensures
        ({
            let known = code == 200 || code == 400 || code == 404 || code == 405 || code == 500
                || code == 501 || code == 503 || code == 504;
            &&& known ==> status_text(code).len() > 4 && status_text(code).take(4) == decimal(
                code as nat,
            ).push(' ')
            &&& !known ==> status_text(code) == status_text(500)
        }),
        status_text(200).skip(4) == "OK"@,
        status_text(400).skip(4) == "Bad Request"@,
        status_text(404).skip(4) == "Not Found"@,
        status_text(405).skip(4) == "Method Not Allowed"@,
        status_text(500).skip(4) == "Internal Server Error"@,
        status_text(501).skip(4) == "Not Implemented"@,
        status_text(503).skip(4) == "Service Unavailable"@,
        status_text(504).skip(4) == "Gateway Timeout"@,
{
    reveal_strlit("200 OK");
    reveal_strlit("400 Bad Request");
    reveal_strlit("404 Not Found");
    reveal_strlit("405 Method Not Allowed");
    reveal_strlit("500 Internal Server Error");
    reveal_strlit("501 Not Implemented");
    reveal_strlit("503 Service Unavailable");
    reveal_strlit("504 Gateway Timeout");
    reveal_strlit("OK");
    reveal_strlit("Bad Request");
    reveal_strlit("Not Found");
    reveal_strlit("Method Not Allowed");
    reveal_strlit("Internal Server Error");
    reveal_strlit("Not Implemented");
    reveal_strlit("Service Unavailable");
    reveal_strlit("Gateway Timeout");
    reveal_with_fuel(decimal, 3);
    assert(status_text(200).skip(4) =~= "OK"@);
    assert(status_text(400).skip(4) =~= "Bad Request"@);
    assert(status_text(404).skip(4) =~= "Not Found"@);
    assert(status_text(405).skip(4) =~= "Method Not Allowed"@);
    assert(status_text(500).skip(4) =~= "Internal Server Error"@);
    assert(status_text(501).skip(4) =~= "Not Implemented"@);
    assert(status_text(503).skip(4) =~= "Service Unavailable"@);
    assert(status_text(504).skip(4) =~= "Gateway Timeout"@);
    if code == 200 || code == 400 || code == 404 || code == 405 || code == 500 || code == 501 || code
        == 503 || code == 504 {
        assert(status_text(code).take(4) =~= decimal(code as nat).push(' '));
    }
}

/// A response is a status line and three header lines, which give the content type, the length of
/// the body in decimal and that the connection closes, then an empty line, then the whole body.
pub proof fn law_response_lines(code: u16, content_type: Seq<char>, body: Seq<u8>)
    ensures
        response(code, content_type, body) == encode_utf8(
            ("HTTP/1.1 "@ + status_text(code) + "\r\n"@) + ("Content-Type: "@ + content_type
                + "\r\n"@) + ("Content-Length: "@ + decimal(body.len()) + "\r\n"@)
                + "Connection: close\r\n"@ + "\r\n"@,
        ) + body,
        response(code, content_type, body).len() >= body.len(),
        response(code, content_type, body).skip(
            response(code, content_type, body).len() - body.len(),
        ) == body,
{
    reveal_strlit("\r\n");
    reveal_strlit("Content-Type: ");
    reveal_strlit("Content-Length: ");
    reveal_strlit("Connection: close\r\n");
    reveal_strlit("\r\nContent-Type: ");
    reveal_strlit("\r\nContent-Length: ");
    reveal_strlit("\r\nConnection: close\r\n\r\n");
    assert("\r\nContent-Type: "@ =~= "\r\n"@ + "Content-Type: "@);
    assert("\r\nContent-Length: "@ =~= "\r\n"@ + "Content-Length: "@);
    assert("\r\nConnection: close\r\n\r\n"@ =~= "\r\n"@ + "Connection: close\r\n"@ + "\r\n"@);
    assert(head_text(code, content_type, body.len()) =~= ("HTTP/1.1 "@ + status_text(code)
        + "\r\n"@) + ("Content-Type: "@ + content_type + "\r\n"@) + ("Content-Length: "@ + decimal(
        body.len(),
    ) + "\r\n"@) + "Connection: close\r\n"@ + "\r\n"@);
    let reply = response(code, content_type, body);
    assert(reply.skip(reply.len() - body.len()) =~= body);
}

/// Responses with different bodies are different.
pub proof fn law_response_tells_bodies_apart(
    code: u16,
    content_type: Seq<char>,
    a: Seq<u8>,
    b: Seq<u8>,
)
    requires
        is_ascii_chars(content_type),
        !content_type.contains('\r'),
        response(code, content_type, a) == response(code, content_type, b),
    ensures
        a == b,
{
    crate::laws::law_response_body(code, content_type, a);
    crate::laws::law_response_body(code, content_type, b);
    let reply = response(code, content_type, a);
    let end_a = head_text(code, content_type, a.len()).len() as int;
    let end_b = head_text(code, content_type, b.len()).len() as int;
    assert(crate::laws::blank_line_at(reply, end_a - 4));
    assert(crate::laws::blank_line_at(reply, end_b - 4));
    assert(end_a == end_b);
}

/// The content types by name, and a JSON answer as a response of that type whose body is the text
/// in UTF-8.
pub proof fn law_json_answer(code: u16, text: Seq<char>)
    ensures
        JSON@ == "application/json; charset=utf-8"@,
        OCTETS@ == "application/octet-stream"@,
        PIXMAP@ == "image/x-portable-pixmap"@,
        json_response(code, text) == response(
            code,
            "application/json; charset=utf-8"@,
            encode_utf8(text),
        ),
{
}

/// An error is reported as a JSON object with one member, whose value is the message, so that
/// different messages are reported differently.
pub proof fn law_error_answer(message: Seq<char>, other: Seq<char>)
    ensures
        error_text(message) == "{\"error\":\""@ + message + "\"}"@,
        error_text(message) == error_text(other) ==> message == other,
{
    let open = "{\"error\":\""@;
    let close = "\"}"@;
    if error_text(message) == error_text(other) {
        assert(error_text(message).len() == error_text(other).len());
        assert(message.len() == other.len());
        assert(error_text(message).subrange(open.len() as int, (open.len() + message.len()) as int)
            =~= message);
        assert(error_text(other).subrange(open.len() as int, (open.len() + other.len()) as int) =~= other);
    }
}

/// Each refusal has its code and its message, and is answered with just these.
pub proof fn law_refusal_answers(refusal: Refusal)
    ensures
        refusal.response() == response(
            refusal.code(),
            "application/json; charset=utf-8"@,
            encode_utf8("{\"error\":\""@ + refusal.message() + "\"}"@),
        ),
        Refusal::NoFrame.code() == 503,
        Refusal::MemUsage.code() == 400,
        Refusal::MemTimeout.code() == 504,
        Refusal::Ez80Gone.code() == 500,
        Refusal::RegsTimeout.code() == 504,
        Refusal::KeyUsage.code() == 400,
        Refusal::UnmappedKey.code() == 400,
        Refusal::MethodNotAllowed.code() == 405,
        Refusal::NotFound.code() == 404,
        Refusal::NoFrame.message() == "no frame captured yet"@,
        Refusal::MemUsage.message() == "usage: /mem?addr=<n>&len=<0..65536>"@,
        Refusal::MemTimeout.message() == "mem read timed out"@,
        Refusal::Ez80Gone.message() == "eZ80 gone"@,
        Refusal::RegsTimeout.message() == "regs read timed out"@,
        Refusal::KeyUsage.message() == "usage: /key?text=<char>|code=<vk>[&down=0|1]"@,
        Refusal::UnmappedKey.message() == "unmapped key"@,
        Refusal::MethodNotAllowed.message() == "method not allowed"@,
        Refusal::NotFound.message() == "not found"@,
{
}

/// Whether `s` is white space that does not end a line.
pub open spec fn is_gap(s: Seq<char>) -> bool {
    forall|i: int| 0 <= i < s.len() ==> white_space(#[trigger] s[i]) && s[i] != '\n'
}

/// A line, cut off at the first newline, whatever follows it.
proof fn lemma_first_line(line: Seq<char>, rest: Seq<char>)
    requires
        forall|i: int| 0 <= i < line.len() ==> #[trigger] line[i] != '\n',
        rest.len() > 0 ==> rest[0] == '\n',
    ensures
        first_line(line + rest) == line,
{
    let s = line + rest;
    assert forall|i: int| 0 <= i < line.len() implies Class::Except('\n').has(#[trigger] s[i]) by {
        assert(s[i] == line[i]);
    }
    if rest.len() > 0 {
        assert(s[line.len() as int] == rest[0]);
    }
    lemma_run_len_is(s, Class::Except('\n'), line.len() as int);
    assert(s.take(line.len() as int) =~= line);
}

/// A word behind a gap is the first word, up to the next white space.
proof fn lemma_word_in(gap: Seq<char>, word: Seq<char>, rest: Seq<char>)
    requires
        is_gap(gap),
        forall|i: int| 0 <= i < word.len() ==> !white_space(#[trigger] word[i]),
        rest.len() > 0 ==> white_space(rest[0]),
        word.len() == 0 ==> rest.len() == 0,
    ensures
        first_word(gap + word + rest) == word,
        after_word(gap + word + rest) == rest,
{
    let s = gap + word + rest;
    let t = word + rest;
    assert forall|i: int| 0 <= i < gap.len() implies Class::Blank.has(#[trigger] s[i]) by {
        assert(s[i] == gap[i]);
    }
    if word.len() > 0 {
        assert(s[gap.len() as int] == word[0]);
    }
    lemma_run_len_is(s, Class::Blank, gap.len() as int);
    assert(s.skip(gap.len() as int) =~= t);
    assert forall|i: int| 0 <= i < word.len() implies Class::Word.has(#[trigger] t[i]) by {
        assert(t[i] == word[i]);
    }
    if rest.len() > 0 {
        assert(t[word.len() as int] == rest[0]);
    }
    lemma_run_len_is(t, Class::Word, word.len() as int);
    assert(t.take(word.len() as int) =~= word);
    assert(t.skip(word.len() as int) =~= rest);
}

/// A request line may start with white space, and any white space parts its words. Its first word
/// is the method and its second the target; further words, and further lines, play no part.
pub proof fn law_words_of_a_request(
    lead: Seq<char>,
    method: Seq<char>,
    gap: Seq<char>,
    target: Seq<char>,
    more: Seq<char>,
    rest: Seq<char>,
)
    requires
        is_gap(lead),
        is_gap(gap),
        gap.len() > 0,
        method.len() > 0,
        target.len() > 0,
        forall|i: int| 0 <= i < method.len() ==> !white_space(#[trigger] method[i]),
        forall|i: int| 0 <= i < target.len() ==> !white_space(#[trigger] target[i]),
        forall|i: int| 0 <= i < more.len() ==> #[trigger] more[i] != '\n',
        more.len() > 0 ==> white_space(more[0]),
        rest.len() > 0 ==> rest[0] == '\n',
    ensures
        method_of(lead + method + (gap + target + more) + rest) == method,
        target_of(lead + method + (gap + target + more) + rest) == target,
{
    let tail = gap + target + more;
    let line = lead + method + tail;
    assert forall|i: int| 0 <= i < line.len() implies #[trigger] line[i] != '\n' by {
        if i < lead.len() {
            assert(line[i] == lead[i]);
        } else if i < lead.len() + method.len() {
            assert(line[i] == method[i - lead.len()]);
        } else {
            let j = i - lead.len() - method.len();
            assert(line[i] == tail[j]);
            if j < gap.len() {
                assert(tail[j] == gap[j]);
            } else if j < gap.len() + target.len() {
                assert(tail[j] == target[j - gap.len()]);
            } else {
                assert(tail[j] == more[j - gap.len() - target.len()]);
            }
        }
    }
    lemma_first_line(line, rest);
    assert(tail[0] == gap[0]);
    lemma_word_in(lead, method, tail);
    lemma_word_in(gap, target, more);
}

/// A request line that names no target has the target `/`, and one that names nothing has an empty
/// method too.
pub proof fn law_missing_words(lead: Seq<char>, method: Seq<char>, gap: Seq<char>, rest: Seq<char>)
    requires
        is_gap(lead),
        is_gap(gap),
        method.len() == 0 ==> gap.len() == 0,
        forall|i: int| 0 <= i < method.len() ==> !white_space(#[trigger] method[i]),
        rest.len() > 0 ==> rest[0] == '\n',
    ensures
        method_of(lead + method + gap + rest) == method,
        target_of(lead + method + gap + rest) == "/"@,
{
    let line = lead + method + gap;
    assert forall|i: int| 0 <= i < line.len() implies #[trigger] line[i] != '\n' by {
        if i < lead.len() {
            assert(line[i] == lead[i]);
        } else if i < lead.len() + method.len() {
            assert(line[i] == method[i - lead.len()]);
        } else {
            assert(line[i] == gap[i - lead.len() - method.len()]);
        }
    }
    lemma_first_line(line, rest);
    if gap.len() > 0 {
        assert(white_space(gap[0]));
    }
    lemma_word_in(lead, method, gap);
    lemma_word_in(gap, Seq::empty(), Seq::empty());
    assert(gap + Seq::<char>::empty() + Seq::<char>::empty() =~= gap);
}

/// Each path with its method asks for its own action, whatever the query of those that read none.
pub proof fn law_routes(query: Seq<char>)
    ensures
        requested("GET"@, "/status"@, query) == Action::Status,
        requested("GET"@, "/screenshot"@, query) == Action::Screenshot,
        requested("GET"@, "/audio"@, query) == Action::Audio,
        requested("GET"@, "/mem"@, query) == mem_action(query),
        requested("GET"@, "/regs"@, query) == Action::Regs,
        requested("POST"@, "/step"@, query) == step_action(query),
        requested("POST"@, "/pause"@, query) == Action::Pause,
        requested("POST"@, "/resume"@, query) == Action::Resume,
        requested("POST"@, "/key"@, query) == key_action(query),
        requested("POST"@, "/reset"@, query) == Action::Reset,
{
    crate::laws::law_endpoint_serves(Endpoint::Status, query);
    crate::laws::law_endpoint_serves(Endpoint::Screenshot, query);
    crate::laws::law_endpoint_serves(Endpoint::Audio, query);
    crate::laws::law_endpoint_serves(Endpoint::Mem, query);
    crate::laws::law_endpoint_serves(Endpoint::Regs, query);
    crate::laws::law_endpoint_serves(Endpoint::Step, query);
    crate::laws::law_endpoint_serves(Endpoint::Pause, query);
    crate::laws::law_endpoint_serves(Endpoint::Resume, query);
    crate::laws::law_endpoint_serves(Endpoint::Key, query);
    crate::laws::law_endpoint_serves(Endpoint::Reset, query);
}

/// Every other request is refused: with 405 where the path is one of the ten, else with 404.
pub proof fn law_unserved(method: Seq<char>, path: Seq<char>, query: Seq<char>)
    ensures
        ({
            let reads = path == "/status"@ || path == "/screenshot"@ || path == "/audio"@ || path
                == "/mem"@ || path == "/regs"@;
            let acts = path == "/step"@ || path == "/pause"@ || path == "/resume"@ || path
                == "/key"@ || path == "/reset"@;
            &&& reads && method != "GET"@ ==> requested(method, path, query) == Action::Refuse(
                Refusal::MethodNotAllowed,
            )
            &&& acts && method != "POST"@ ==> requested(method, path, query) == Action::Refuse(
                Refusal::MethodNotAllowed,
            )
            &&& !reads && !acts ==> requested(method, path, query) == Action::Refuse(
                Refusal::NotFound,
            )
        }),
{
    crate::laws::law_paths_are_apart(Endpoint::Status);
    crate::laws::law_paths_are_apart(Endpoint::Screenshot);
    crate::laws::law_paths_are_apart(Endpoint::Audio);
    crate::laws::law_paths_are_apart(Endpoint::Mem);
    crate::laws::law_paths_are_apart(Endpoint::Regs);
    crate::laws::law_paths_are_apart(Endpoint::Step);
    crate::laws::law_paths_are_apart(Endpoint::Pause);
    crate::laws::law_paths_are_apart(Endpoint::Resume);
    crate::laws::law_paths_are_apart(Endpoint::Key);
    crate::laws::law_paths_are_apart(Endpoint::Reset);
}

/// The text of a request is served by the method, path and query of its first line.
pub proof fn law_text_is_served(text: Seq<char>)
    ensures
        text_action(text) == requested(
            method_of(text),
            path_of(target_of(text)),
            query_of(target_of(text)),
        ),
{
}

/// A memory read that is served asks for the very numbers of its query, up to 65536 bytes; it is
/// refused just where a number is missing or the length is beyond that.
pub proof fn law_mem_query(query: Seq<char>, addr: u32, len: u32)
    ensures
        mem_action(query) == (Action::Mem { addr, len }) <==> query_number(query, "addr"@) == Some(
            addr,
        ) && query_number(query, "len"@) == Some(len) && len <= 65536,
        mem_action(query) == Action::Refuse(Refusal::MemUsage) <==> {
            ||| query_number(query, "addr"@) is None
            ||| query_number(query, "len"@) is None
            ||| query_number(query, "len"@).unwrap() > 65536
        },
        MEM_MAX == 65536,
{
}

/// A step asks for the number of its query, and for one frame where that is 0 or missing.
pub proof fn law_step_query(query: Seq<char>)
    ensures
        match query_number(query, "frames"@) {
            Some(n) => n >= 1 ==> step_action(query) == (Action::Step { frames: n }),
            None => step_action(query) == (Action::Step { frames: 1 }),
        },
        query_number(query, "frames"@) == Some(0u32) ==> step_action(query) == (Action::Step {
            frames: 1,
        }),
{
}

/// The key of a key injection is its code, where that is a number, and else the first character of
/// its text; without either it is refused.
pub proof fn law_key_named(query: Seq<char>, vk: u32, c: char)
    ensures
        (key_action(query) matches Action::Key { key, .. } && key == KeyChoice::Code(vk))
            <==> query_number(query, "code"@) == Some(vk),
        (key_action(query) matches Action::Key { key, .. } && key == KeyChoice::Text(c)) <==> {
            &&& query_number(query, "code"@) is None
            &&& query_value(query, "text"@) matches Some(text) && text.len() > 0 && text[0] == c
        },
        key_action(query) == Action::Refuse(Refusal::KeyUsage) <==> {
            &&& query_number(query, "code"@) is None
            &&& !(query_value(query, "text"@) matches Some(text) && text.len() > 0)
        },
        key_action(query) is Key || key_action(query) == Action::Refuse(Refusal::KeyUsage),
{
}

/// What a key injection does with its key goes by its `down` alone, however the key is named: 0
/// releases, any other number presses, and none taps. So two injections with the same `down` do
/// the same.
pub proof fn law_key_moved(query: Seq<char>, other: Seq<char>)
    ensures
        key_action(query) matches Action::Key { motion, .. } ==> {
            &&& motion is Release <==> query_number(query, "down"@) == Some(0u32)
            &&& motion is Press <==> query_number(query, "down"@) is Some && query_number(
                query,
                "down"@,
            ) != Some(0u32)
            &&& motion is Tap <==> query_number(query, "down"@) is None
        },
        ({
            &&& key_action(query) is Key
            &&& key_action(other) is Key
            &&& query_number(query, "down"@) == query_number(other, "down"@)
        }) ==> key_action(query)->motion == key_action(other)->motion,
{
}

/// A key injection by text and `down` takes the first character of the text, and releases it with
/// `down` 0 and presses it with any other `down`, as one by code does.
pub proof fn law_key_text_down(c: char, more: Seq<char>, down: u32)
    requires
        c != '&',
        !more.contains('&'),
    ensures
        key_action(
            joined(pair("text"@, seq![c] + more), pair("down"@, decimal(down as nat))),
        ) == (Action::Key {
            key: KeyChoice::Text(c),
            motion: if down == 0 {
                KeyMotion::Release
            } else {
                KeyMotion::Press
            },
        }),
{
    reveal_strlit("text");
    reveal_strlit("code");
    reveal_strlit("down");
    let value = seq![c] + more;
    assert(!value.contains('&')) by {
        if value.contains('&') {
            let i = choose|i: int| 0 <= i < value.len() && value[i] == '&';
            if i > 0 {
                assert(more[i - 1] == '&');
            }
        }
    }
    let digits = decimal(down as nat);
    crate::text_laws::law_decimal(down as nat, 0);
    assert(!digits.contains('&'));
    assert("code"@[0] != "text"@[0]);
    assert("down"@[0] != "text"@[0]);
    assert("down"@[0] != "code"@[0]);
    let t = pair("text"@, value);
    let d = pair("down"@, digits);
    crate::laws::law_query_joined(t, d, "text"@);
    crate::laws::law_query_joined(t, d, "code"@);
    crate::laws::law_query_joined(t, d, "down"@);
    crate::laws::law_query_pair("text"@, value, "text"@);
    crate::laws::law_query_pair("text"@, value, "code"@);
    crate::laws::law_query_pair("text"@, value, "down"@);
    crate::laws::law_query_pair("down"@, digits, "down"@);
    crate::laws::law_query_pair("down"@, digits, "code"@);
    crate::laws::law_parse_decimal(down);
}

/// A press is one event with the key down, a release one with it up, and a tap the two in that
/// order, all of them of the key that was named.
pub proof fn law_key_events(vk: u32)
    ensures
        key_events(vk, KeyMotion::Press).len() == 1,
        key_events(vk, KeyMotion::Press)[0] == (vk, 1u8),
        key_events(vk, KeyMotion::Release).len() == 1,
        key_events(vk, KeyMotion::Release)[0] == (vk, 0u8),
        key_events(vk, KeyMotion::Tap).len() == 2,
        key_events(vk, KeyMotion::Tap)[0] == (vk, 1u8),
        key_events(vk, KeyMotion::Tap)[1] == (vk, 0u8),
{
}

/// The text that parts an answer which carries a number: any two of them are the same just where
/// the numbers are.
proof fn lemma_number_between(before: Seq<char>, a: nat, b: nat, after: Seq<char>)
    requires
        before + decimal(a) + after == before + decimal(b) + after,
    ensures
        a == b,
{
    let x = before + decimal(a) + after;
    let y = before + decimal(b) + after;
    assert(x.len() == before.len() + decimal(a).len() + after.len());
    assert(y.len() == before.len() + decimal(b).len() + after.len());
    let start = before.len() as int;
    let end = (before.len() + decimal(a).len()) as int;
    assert(x.subrange(start, end) =~= decimal(a));
    assert(y.subrange(start, end) =~= decimal(b));
    crate::text_laws::law_decimal_tells_apart(a, b);
}

/// A status report names the contract, the emulator and the platform, gives the frame counter in
/// decimal, and says whether the machine is halted.
pub proof fn law_status_answer(s: FrameSnapshot)
    ensures
        s.budget == 0 ==> status_response(s) == response(
            200,
            "application/json; charset=utf-8"@,
            encode_utf8(
                "{\"contract\":\"0.2.0\",\"emulator\":\"fab-agon-emulator\",\"platform\":\"agon\",\"frame\":"@
                    + decimal(s.frame as nat) + ",\"paused\":true,\"running\":true}"@,
            ),
        ),
        s.budget != 0 ==> status_response(s) == response(
            200,
            "application/json; charset=utf-8"@,
            encode_utf8(
                "{\"contract\":\"0.2.0\",\"emulator\":\"fab-agon-emulator\",\"platform\":\"agon\",\"frame\":"@
                    + decimal(s.frame as nat) + ",\"paused\":false,\"running\":true}"@,
            ),
        ),
{
    reveal_strlit("{\"contract\":\"0.2.0\",\"emulator\":\"fab-agon-emulator\",\"platform\":\"agon\",\"frame\":");
    reveal_strlit("{\"contract\":\"");
    reveal_strlit("0.2.0");
    reveal_strlit("\",\"emulator\":\"");
    reveal_strlit("fab-agon-emulator");
    reveal_strlit("\",\"platform\":\"");
    reveal_strlit("agon");
    reveal_strlit("\",\"frame\":");
    reveal_strlit(",\"paused\":true,\"running\":true}");
    reveal_strlit(",\"paused\":false,\"running\":true}");
    reveal_strlit(",\"paused\":");
    reveal_strlit("true");
    reveal_strlit("false");
    reveal_strlit(",\"running\":true}");
    let head = "{\"contract\":\"0.2.0\",\"emulator\":\"fab-agon-emulator\",\"platform\":\"agon\",\"frame\":"@;
    assert(head =~= "{\"contract\":\""@ + CONTRACT@ + "\",\"emulator\":\""@ + EMULATOR@
        + "\",\"platform\":\""@ + PLATFORM@ + "\",\"frame\":"@);
    assert(",\"paused\":true,\"running\":true}"@ =~= ",\"paused\":"@ + "true"@
        + ",\"running\":true}"@);
    assert(",\"paused\":false,\"running\":true}"@ =~= ",\"paused\":"@ + "false"@
        + ",\"running\":true}"@);
    assert(status_json(s.frame, true) =~= head + decimal(s.frame as nat)
        + ",\"paused\":true,\"running\":true}"@);
    assert(status_json(s.frame, false) =~= head + decimal(s.frame as nat)
        + ",\"paused\":false,\"running\":true}"@);
}

/// Two status reports are the same text just where the counters are the same and both machines are
/// halted or neither is.
pub proof fn law_status_tells_apart(a: u64, b: u64, p: bool, q: bool)
    requires
        status_json(a, p) == status_json(b, q),
    ensures
        p == q,
        a == b,
{
    reveal_strlit("true");
    reveal_strlit("false");
    reveal_strlit(",\"running\":true}");
    reveal_strlit(",\"paused\":");
    let x = status_json(a, p);
    let y = status_json(b, q);
    let t = ",\"running\":true}"@;
    assert(t.len() == 16);
    assert(x[x.len() - 18] == (if p {
        'u'
    } else {
        's'
    }));
    assert(y[y.len() - 18] == (if q {
        'u'
    } else {
        's'
    }));
    let before = "{\"contract\":\""@ + CONTRACT@ + "\",\"emulator\":\""@ + EMULATOR@
        + "\",\"platform\":\""@ + PLATFORM@ + "\",\"frame\":"@;
    let after = ",\"paused\":"@ + bool_text(p) + t;
    assert(x =~= before + decimal(a as nat) + after);
    assert(y =~= before + decimal(b as nat) + after);
    lemma_number_between(before, a as nat, b as nat, after);
}

/// A screenshot, once there is a frame, is a portable pixmap: a head that gives the frame's width
/// and height in decimal and 255 as the largest value, and then every byte of the frame, in order,
/// and no more. Without a frame it is refused.
pub proof fn law_screenshot_answer(s: FrameSnapshot)
    ensures
        s.width == 0 ==> screenshot_response(s) == response(
            503,
            "application/json; charset=utf-8"@,
            encode_utf8("{\"error\":\""@ + "no frame captured yet"@ + "\"}"@),
        ),
        s.width != 0 ==> {
            let head = encode_utf8(
                "P6\n"@ + decimal(s.width as nat) + " "@ + decimal(s.height as nat) + "\n255\n"@,
            );
            let reply = screenshot_response(s);
            &&& reply == response(200, "image/x-portable-pixmap"@, head + s.rgb@)
            &&& reply.skip(reply.len() - s.rgb@.len()) == s.rgb@
            &&& reply.skip(reply.len() - s.rgb@.len() - head.len()) == head + s.rgb@
        },
{
    if s.width != 0 {
        let head = encode_utf8(pixmap_head(s.width, s.height));
        let reply = screenshot_response(s);
        law_response_lines(200, PIXMAP@, head + s.rgb@);
        assert(reply.skip(reply.len() - (head + s.rgb@).len()) == head + s.rgb@);
        assert(reply.skip(reply.len() - s.rgb@.len()) =~= reply.skip(
            reply.len() - (head + s.rgb@).len(),
        ).skip(head.len() as int));
        assert((head + s.rgb@).skip(head.len() as int) =~= s.rgb@);
    }
}

/// Frames that differ in a pixel give different screenshots.
pub proof fn law_screenshots_tell_apart(a: FrameSnapshot, b: FrameSnapshot)
    requires
        a.width != 0,
        a.width == b.width,
        a.height == b.height,
        screenshot_response(a) == screenshot_response(b),
    ensures
        a.rgb@ == b.rgb@,
{
    let head = encode_utf8(pixmap_head(a.width, a.height));
    crate::laws::law_content_types_are_plain();
    law_response_tells_bodies_apart(200, PIXMAP@, head + a.rgb@, head + b.rgb@);
    assert((head + a.rgb@).skip(head.len() as int) =~= a.rgb@);
    assert((head + b.rgb@).skip(head.len() as int) =~= b.rgb@);
}

/// A memory read is answered with the bytes that were reported, all of them, in order and with
/// nothing behind; one that brought none is answered 504.
pub proof fn law_mem_answer(bytes: Vec<u8>)
    ensures
        mem_response(Some(bytes)) == response(200, "application/octet-stream"@, bytes@),
        mem_response(Some(bytes)).skip(mem_response(Some(bytes)).len() - bytes@.len()) == bytes@,
        mem_response(None) == response(
            504,
            "application/json; charset=utf-8"@,
            encode_utf8("{\"error\":\""@ + "mem read timed out"@ + "\"}"@),
        ),
{
    law_response_lines(200, OCTETS@, bytes@);
}

/// Reads that brought different bytes are answered differently.
pub proof fn law_mem_answers_tell_apart(a: Vec<u8>, b: Vec<u8>)
    requires
        mem_response(Some(a)) == mem_response(Some(b)),
    ensures
        a@ == b@,
{
    crate::laws::law_content_types_are_plain();
    law_response_tells_bodies_apart(200, OCTETS@, a@, b@);
}

/// A step is answered with the frame counter it ended on: the number in the answer, read as a
/// decimal numeral, is that counter, so steps that end on different frames are answered
/// differently.
pub proof fn law_step_answer(frame: u64, other: u64)
    ensures
        step_json(frame) == "{\"frame\":"@ + decimal(frame as nat) + "}"@,
        all_digits(step_json(frame).subrange(9, step_json(frame).len() - 1), 10),
        numeral_value(step_json(frame).subrange(9, step_json(frame).len() - 1), 10) == frame,
        step_json(frame) == step_json(other) ==> frame == other,
{
    reveal_strlit("{\"frame\":");
    reveal_strlit("}");
    assert(step_json(frame).subrange(9, step_json(frame).len() - 1) =~= decimal(frame as nat));
    crate::text_laws::law_decimal(frame as nat, 0);
    if step_json(frame) == step_json(other) {
        lemma_number_between("{\"frame\":"@, frame as nat, other as nat, "}"@);
    }
}

/// A register answer is one JSON object: each register under its name, in decimal, in this order,
/// and the mode flag as 0 or 1.
pub proof fn law_regs_answer(dump: RegisterDump)
    ensures
        regs_json(dump) == ("{\"af\":"@ + decimal(dump.af as nat)) + (",\"bc\":"@ + decimal(
            dump.bc as nat,
        )) + (",\"de\":"@ + decimal(dump.de as nat)) + (",\"hl\":"@ + decimal(dump.hl as nat)) + (
        ",\"ix\":"@ + decimal(dump.ix as nat)) + (",\"iy\":"@ + decimal(dump.iy as nat)) + (
        ",\"sp\":"@ + decimal(dump.sp as nat)) + (",\"pc\":"@ + decimal(dump.pc as nat)) + (
        ",\"mbase\":"@ + decimal(dump.mbase as nat)) + (if dump.adl {
            ",\"adl\":1}"@
        } else {
            ",\"adl\":0}"@
        }),
{
    reveal_strlit(",\"adl\":1}");
    reveal_strlit(",\"adl\":0}");
    reveal_strlit(",\"adl\":");
    reveal_strlit("}");
    assert(decimal(1) =~= seq!['1']);
    assert(decimal(0) =~= seq!['0']);
    assert(",\"adl\":1}"@ =~= ",\"adl\":"@ + seq!['1'] + "}"@);
    assert(",\"adl\":0}"@ =~= ",\"adl\":"@ + seq!['0'] + "}"@);
    assert(regs_json(dump) =~= ("{\"af\":"@ + decimal(dump.af as nat)) + (",\"bc\":"@ + decimal(
        dump.bc as nat,
    )) + (",\"de\":"@ + decimal(dump.de as nat)) + (",\"hl\":"@ + decimal(dump.hl as nat)) + (
    ",\"ix\":"@ + decimal(dump.ix as nat)) + (",\"iy\":"@ + decimal(dump.iy as nat)) + (",\"sp\":"@
        + decimal(dump.sp as nat)) + (",\"pc\":"@ + decimal(dump.pc as nat)) + (",\"mbase\":"@
        + decimal(dump.mbase as nat)) + (if dump.adl {
        ",\"adl\":1}"@
    } else {
        ",\"adl\":0}"@
    }));
}

/// A question for the registers is answered with the registers that were reported; 500 where the
/// eZ80 thread is gone, and 504 where it reported none.
pub proof fn law_regs_outcomes(r: ez80::Registers, other: DebugResp)
    requires
        !(other is Registers),
    ensures
        regs_response(Some(Some(DebugResp::Registers(r)))) == response(
            200,
            "application/json; charset=utf-8"@,
            encode_utf8(regs_json(register_dump(r))),
        ),
        regs_response(None) == response(
            500,
            "application/json; charset=utf-8"@,
            encode_utf8("{\"error\":\""@ + "eZ80 gone"@ + "\"}"@),
        ),
        regs_response(Some(None)) == response(
            504,
            "application/json; charset=utf-8"@,
            encode_utf8("{\"error\":\""@ + "regs read timed out"@ + "\"}"@),
        ),
        regs_response(Some(Some(other))) == regs_response(Some(None)),
{
}

/// Completing a frame counts it, takes one off a budget of frames, and leaves the image alone; a
/// new budget leaves everything else alone.
pub proof fn law_snapshot_keeps_the_rest(s: FrameSnapshot, budget: i64)
    ensures
        s.frame < u64::MAX ==> s.completed().frame == s.frame + 1,
        s.budget > 0 ==> s.completed().budget == s.budget - 1,
        s.budget <= 0 ==> s.completed().budget == s.budget,
        s.completed().width == s.width,
        s.completed().height == s.height,
        s.completed().rgb == s.rgb,
        s.with_budget(budget).budget == budget,
        s.with_budget(budget).frame == s.frame,
        s.with_budget(budget).width == s.width,
        s.with_budget(budget).height == s.height,
        s.with_budget(budget).rgb == s.rgb,
        s.wf() <==> s.budget >= -1,
{
}

/// A step is finished just where no frame is left, expired just where frames are left and its time
/// is up, which is after five seconds, and reports the counter either way.
pub proof fn law_step_stands(s: FrameSnapshot, expired: bool)
    ensures
        STEP_TIMEOUT_MS == 5000,
        step_poll(s, expired) is Running <==> s.budget != 0 && !expired,
        step_poll(s, expired) is Finished <==> s.budget == 0,
        step_poll(s, expired) is Expired <==> s.budget != 0 && expired,
        step_poll(s, expired) matches StepPoll::Finished { frame } ==> frame == s.frame,
        step_poll(s, expired) matches StepPoll::Expired { frame } ==> frame == s.frame,
{
}

/// The ten paths by name, each with the method that it is asked by; no other path is an endpoint's.
pub proof fn law_endpoints(path: Seq<char>)
    ensures
        endpoint_at("/status"@) == Some(Endpoint::Status),
        endpoint_at("/screenshot"@) == Some(Endpoint::Screenshot),
        endpoint_at("/audio"@) == Some(Endpoint::Audio),
        endpoint_at("/mem"@) == Some(Endpoint::Mem),
        endpoint_at("/regs"@) == Some(Endpoint::Regs),
        endpoint_at("/step"@) == Some(Endpoint::Step),
        endpoint_at("/pause"@) == Some(Endpoint::Pause),
        endpoint_at("/resume"@) == Some(Endpoint::Resume),
        endpoint_at("/key"@) == Some(Endpoint::Key),
        endpoint_at("/reset"@) == Some(Endpoint::Reset),
        endpoint_at(path) is Some ==> {
            ||| path == "/status"@
            ||| path == "/screenshot"@
            ||| path == "/audio"@
            ||| path == "/mem"@
            ||| path == "/regs"@
            ||| path == "/step"@
            ||| path == "/pause"@
            ||| path == "/resume"@
            ||| path == "/key"@
            ||| path == "/reset"@
        },
        Endpoint::Status.method() == "GET"@,
        Endpoint::Screenshot.method() == "GET"@,
        Endpoint::Audio.method() == "GET"@,
        Endpoint::Mem.method() == "GET"@,
        Endpoint::Regs.method() == "GET"@,
        Endpoint::Step.method() == "POST"@,
        Endpoint::Pause.method() == "POST"@,
        Endpoint::Resume.method() == "POST"@,
        Endpoint::Key.method() == "POST"@,
        Endpoint::Reset.method() == "POST"@,
{
    crate::laws::law_paths_are_apart(Endpoint::Status);
    crate::laws::law_paths_are_apart(Endpoint::Screenshot);
    crate::laws::law_paths_are_apart(Endpoint::Audio);
    crate::laws::law_paths_are_apart(Endpoint::Mem);
    crate::laws::law_paths_are_apart(Endpoint::Regs);
    crate::laws::law_paths_are_apart(Endpoint::Step);
    crate::laws::law_paths_are_apart(Endpoint::Pause);
    crate::laws::law_paths_are_apart(Endpoint::Resume);
    crate::laws::law_paths_are_apart(Endpoint::Key);
    crate::laws::law_paths_are_apart(Endpoint::Reset);
}

/// The frame that a step is answered with is the one that a status report shows: both write it with
/// the same digits, and those denote the counter.
pub proof fn law_step_agrees_with_status(frame: u64, paused: bool)
    ensures
        ({
            let shown = status_json(frame, paused);
            let answer = step_json(frame);
            let start =
                "{\"contract\":\"0.2.0\",\"emulator\":\"fab-agon-emulator\",\"platform\":\"agon\",\"frame\":"@.len();
            let digits = answer.subrange(9, answer.len() - 1);
            &&& shown.subrange(start as int, (start + digits.len()) as int) == digits
            &&& shown[(start + digits.len()) as int] == ','
            &&& numeral_value(digits, 10) == frame
        }),
{
    let head = "{\"contract\":\"0.2.0\",\"emulator\":\"fab-agon-emulator\",\"platform\":\"agon\",\"frame\":"@;
    reveal_strlit("{\"contract\":\"0.2.0\",\"emulator\":\"fab-agon-emulator\",\"platform\":\"agon\",\"frame\":");
    reveal_strlit("{\"contract\":\"");
    reveal_strlit("0.2.0");
    reveal_strlit("\",\"emulator\":\"");
    reveal_strlit("fab-agon-emulator");
    reveal_strlit("\",\"platform\":\"");
    reveal_strlit("agon");
    reveal_strlit("\",\"frame\":");
    reveal_strlit(",\"paused\":");
    assert(head =~= "{\"contract\":\""@ + CONTRACT@ + "\",\"emulator\":\""@ + EMULATOR@
        + "\",\"platform\":\""@ + PLATFORM@ + "\",\"frame\":"@);
    law_step_answer(frame, frame);
    reveal_strlit("{\"frame\":");
    reveal_strlit("}");
    let digits = decimal(frame as nat);
    let shown = status_json(frame, paused);
    assert(step_json(frame).subrange(9, step_json(frame).len() - 1) =~= digits);
    assert(shown =~= head + digits + (",\"paused\":"@ + bool_text(paused) + ",\"running\":true}"@));
    assert(shown.subrange(head.len() as int, (head.len() + digits.len()) as int) =~= digits);
}

/// A number in front of something that is no digit ends where its digits end.
proof fn lemma_number_first(a: nat, x: Seq<char>, b: nat, y: Seq<char>)
    requires
        decimal(a) + x == decimal(b) + y,
        x.len() > 0,
        !('0' <= x[0] <= '9'),
        y.len() > 0,
        !('0' <= y[0] <= '9'),
    ensures
        a == b,
        x == y,
{
    let p = decimal(a);
    let q = decimal(b);
    let s = p + x;
    crate::text_laws::law_decimal(a, 0);
    crate::text_laws::law_decimal(b, 0);
    assert(s[p.len() as int] == x[0]);
    assert((q + y)[q.len() as int] == y[0]);
    if p.len() < q.len() {
        assert(s[p.len() as int] == q[p.len() as int]);
    }
    if q.len() < p.len() {
        assert(s[q.len() as int] == p[q.len() as int]);
    }
    assert(s.take(p.len() as int) =~= p);
    assert((q + y).take(p.len() as int) =~= q);
    assert(s.skip(p.len() as int) =~= x);
    assert((q + y).skip(p.len() as int) =~= y);
    crate::text_laws::law_decimal_tells_apart(a, b);
}

/// What stands before the `k`-th number of a register answer.
spec fn regs_name(k: int) -> Seq<char> {
    if k == 0 {
        "{\"af\":"@
    } else if k == 1 {
        ",\"bc\":"@
    } else if k == 2 {
        ",\"de\":"@
    } else if k == 3 {
        ",\"hl\":"@
    } else if k == 4 {
        ",\"ix\":"@
    } else if k == 5 {
        ",\"iy\":"@
    } else if k == 6 {
        ",\"sp\":"@
    } else if k == 7 {
        ",\"pc\":"@
    } else {
        ",\"mbase\":"@
    }
}

/// The `k`-th number of a register answer.
spec fn regs_number(d: RegisterDump, k: int) -> nat {
    if k == 0 {
        d.af as nat
    } else if k == 1 {
        d.bc as nat
    } else if k == 2 {
        d.de as nat
    } else if k == 3 {
        d.hl as nat
    } else if k == 4 {
        d.ix as nat
    } else if k == 5 {
        d.iy as nat
    } else if k == 6 {
        d.sp as nat
    } else if k == 7 {
        d.pc as nat
    } else {
        d.mbase as nat
    }
}

/// The end of a register answer.
spec fn regs_end(d: RegisterDump) -> Seq<char> {
    if d.adl {
        ",\"adl\":1}"@
    } else {
        ",\"adl\":0}"@
    }
}

/// A register answer before its `k`-th number.
spec fn regs_before(d: RegisterDump, k: int) -> Seq<char>
    decreases k,
{
    if k <= 0 {
        Seq::empty()
    } else {
        regs_before(d, k - 1) + (regs_name(k - 1) + decimal(regs_number(d, k - 1)))
    }
}

/// A register answer from its `k`-th number on.
spec fn regs_from(d: RegisterDump, k: int) -> Seq<char>
    decreases 9 - k,
{
    if k >= 9 {
        regs_end(d)
    } else {
        regs_name(k) + decimal(regs_number(d, k)) + regs_from(d, k + 1)
    }
}

/// A register answer can be parted at any of its numbers.
proof fn lemma_regs_parts(d: RegisterDump, k: int)
    requires
        0 <= k <= 9,
    ensures
        regs_before(d, k) + regs_from(d, k) == regs_from(d, 0),
    decreases k,
{
    if k == 0 {
        assert(regs_before(d, 0) + regs_from(d, 0) =~= regs_from(d, 0));
    } else {
        lemma_regs_parts(d, k - 1);
        assert(regs_before(d, k) + regs_from(d, k) =~= regs_before(d, k - 1) + regs_from(d, k - 1));
    }
}

/// A register answer from its first number on is all of it.
proof fn lemma_regs_whole(d: RegisterDump)
    ensures
        regs_json(d) == regs_from(d, 0),
{
    law_regs_answer(d);
    lemma_regs_parts(d, 9);
    reveal_with_fuel(regs_before, 10);
    assert(regs_before(d, 1) =~= "{\"af\":"@ + decimal(d.af as nat));
}

/// The numbers of a register answer are known one after the other.
proof fn lemma_regs_numbers(d: RegisterDump, e: RegisterDump, k: int)
    requires
        0 <= k <= 9,
        regs_from(d, 0) == regs_from(e, 0),
    ensures
        regs_from(d, k) == regs_from(e, k),
        forall|i: int| 0 <= i < k ==> #[trigger] regs_number(d, i) == regs_number(e, i),
    decreases k,
{
    if k > 0 {
        lemma_regs_numbers(d, e, k - 1);
        let n = regs_name(k - 1).len() as int;
        lemma_regs_comma(d, k);
        lemma_regs_comma(e, k);
        let a = decimal(regs_number(d, k - 1)) + regs_from(d, k);
        let b = decimal(regs_number(e, k - 1)) + regs_from(e, k);
        assert(regs_from(d, k - 1).skip(n) =~= a);
        assert(regs_from(e, k - 1).skip(n) =~= b);
        lemma_number_first(
            regs_number(d, k - 1),
            regs_from(d, k),
            regs_number(e, k - 1),
            regs_from(e, k),
        );
    }
}

/// A comma stands behind each number of a register answer.
proof fn lemma_regs_comma(d: RegisterDump, k: int)
    requires
        1 <= k <= 9,
    ensures
        regs_from(d, k).len() > 0,
        regs_from(d, k)[0] == ',',
{
    reveal_strlit(",\"bc\":");
    reveal_strlit(",\"de\":");
    reveal_strlit(",\"hl\":");
    reveal_strlit(",\"ix\":");
    reveal_strlit(",\"iy\":");
    reveal_strlit(",\"sp\":");
    reveal_strlit(",\"pc\":");
    reveal_strlit(",\"mbase\":");
    reveal_strlit(",\"adl\":1}");
    reveal_strlit(",\"adl\":0}");
    if k < 9 {
        assert(regs_name(k).len() > 0 && regs_name(k)[0] == ',');
    }
}

/// Register answers are the same text just where all that they show is the same.
pub proof fn law_regs_answers_tell_apart(d: RegisterDump, e: RegisterDump)
    requires
        regs_json(d) == regs_json(e),
    ensures
        d == e,
{
    reveal_strlit(",\"adl\":1}");
    reveal_strlit(",\"adl\":0}");
    assert(",\"adl\":1}"@[7] == '1' && ",\"adl\":0}"@[7] == '0');
    lemma_regs_whole(d);
    lemma_regs_whole(e);
    lemma_regs_numbers(d, e, 9);
    assert(regs_number(d, 0) == regs_number(e, 0));
    assert(regs_number(d, 1) == regs_number(e, 1));
    assert(regs_number(d, 2) == regs_number(e, 2));
    assert(regs_number(d, 3) == regs_number(e, 3));
    assert(regs_number(d, 4) == regs_number(e, 4));
    assert(regs_number(d, 5) == regs_number(e, 5));
    assert(regs_number(d, 6) == regs_number(e, 6));
    assert(regs_number(d, 7) == regs_number(e, 7));
    assert(regs_number(d, 8) == regs_number(e, 8));
}

} // verus!
