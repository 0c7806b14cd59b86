//! What holds of the control server as a whole.

use vstd::prelude::*;
#[allow(unused_imports)]
use vstd::utf8::{encode_utf8, is_ascii_chars, is_ascii_chars_encode_utf8};

use crate::control_server::{
    Action, Endpoint, FrameSnapshot, KeyChoice, KeyMotion, Refusal, StepPoll, MEM_MAX,
    STEP_TIMEOUT_MS,
};
#[allow(unused_imports)]
use crate::control_server::{
    endpoint_action, endpoint_at, key_action, key_events, mem_action, requested, status_json,
    status_response, step_action, step_poll, text_action,
};
#[allow(unused_imports)]
use crate::http::{
    after_word, first_line, first_word, from_word, head_text, json_response, method_of, path_of,
    query_of, response, status_text, target_of, JSON, OCTETS, PIXMAP,
};
#[allow(unused_imports)]
use crate::query::{parsed_int, query_value};
#[allow(unused_imports)]
use crate::text::{
    all_digits, decimal, digit_char, digit_value, lemma_run_len, lemma_run_len_is, numeral_value, run_len,
    trimmed, white_space, Class,
};

verus! {

/// Whether a name can stand before the `=` of a pair.
pub open spec fn is_name(s: Seq<char>) -> bool {
    !s.contains('&') && !s.contains('=')
}

/// A pair of a query.
pub open spec fn pair(name: Seq<char>, value: Seq<char>) -> Seq<char> {
    name + seq!['='] + value
}

/// Two queries as one.
pub open spec fn joined(a: Seq<char>, b: Seq<char>) -> Seq<char> {
    a + seq!['&'] + b
}

/// A query made of two looks a key up in the first, and then in the second.
pub proof fn law_query_joined(a: Seq<char>, b: Seq<char>, key: Seq<char>)
    ensures
        query_value(joined(a, b), key) == (match query_value(a, key) {
            Some(value) => Some(value),
            None => query_value(b, key),
        }),
    decreases a.len(),
{
    let amp = Class::Except('&');
    let end = run_len(a, amp);
    let whole = joined(a, b);
    lemma_run_len(a, amp);
    assert forall|i: int| 0 <= i < end implies amp.has(#[trigger] whole[i]) by {
        assert(whole[i] == a[i]);
    }
    if end < a.len() {
        assert(whole[end] == a[end]);
    }
    lemma_run_len_is(whole, amp, end);
    assert(whole.take(end) =~= a.take(end));
    if end < a.len() {
        law_query_joined(a.skip(end + 1), b, key);
        assert(whole.skip(end + 1) =~= joined(a.skip(end + 1), b));
    } else {
        assert(whole.skip(end + 1) =~= b);
    }
}

/// A query of one pair gives its value for its name, and nothing for any other key.
pub proof fn law_query_pair(name: Seq<char>, value: Seq<char>, key: Seq<char>)
    requires
        is_name(name),
        !value.contains('&'),
    ensures
        query_value(pair(name, value), key) == (if name == key {
            Some(value)
        } else {
            None
        }),
{
    let whole = pair(name, value);
    assert forall|i: int| 0 <= i < whole.len() implies Class::Except('&').has(
        #[trigger] whole[i],
    ) by {
        if i < name.len() {
            assert(whole[i] == name[i]);
            assert(name.contains(name[i]));
        } else if i > name.len() {
            assert(whole[i] == value[i - name.len() - 1]);
            assert(value.contains(value[i - name.len() - 1]));
        }
    }
    lemma_run_len_is(whole, Class::Except('&'), whole.len() as int);
    assert(whole.take(whole.len() as int) =~= whole);
    assert forall|i: int| 0 <= i < name.len() implies Class::Except('=').has(
        #[trigger] whole[i],
    ) by {
        assert(whole[i] == name[i]);
        assert(name.contains(name[i]));
    }
    lemma_run_len_is(whole, Class::Except('='), name.len() as int);
    assert(whole.take(name.len() as int) =~= name);
    assert(whole.skip(name.len() as int + 1) =~= value);
}

/// A pair of another name makes no difference to a key, behind the rest of a query or before it.
pub proof fn law_query_other_pair(query: Seq<char>, name: Seq<char>, value: Seq<char>, key: Seq<char>)
    requires
        is_name(name),
        !value.contains('&'),
        name != key,
    ensures
        query_value(joined(query, pair(name, value)), key) == query_value(query, key),
        query_value(joined(pair(name, value), query), key) == query_value(query, key),
{
    law_query_pair(name, value, key);
    law_query_joined(query, pair(name, value), key);
    law_query_joined(pair(name, value), query, key);
}

/// What `decimal` writes: digits alone, at least one, that denote the number, with no zero first
/// but for 0 itself.
proof fn lemma_decimal(n: nat)
    ensures
        decimal(n).len() > 0,
        forall|i: int| 0 <= i < decimal(n).len() ==> '0' <= #[trigger] decimal(n)[i] <= '9',
        all_digits(decimal(n), 10),
        numeral_value(decimal(n), 10) == n,
        n > 0 ==> decimal(n)[0] != '0',
        n < 10 ==> decimal(n).len() == 1,
    decreases n,
{
    let s = decimal(n);
    if n < 10 {
        assert(s.drop_last() =~= Seq::empty());
        assert(numeral_value(s.drop_last(), 10) == 0);
    } else {
        lemma_decimal(n / 10);
        let t = decimal(n / 10);
        assert(s.drop_last() =~= t);
        assert forall|i: int| 0 <= i < s.len() implies '0' <= #[trigger] s[i] <= '9' by {
            if i < t.len() {
                assert(s[i] == t[i]);
            }
        }
        assert(s[0] == t[0]);
    }
    assert forall|i: int| 0 <= i < s.len() implies (#[trigger] digit_value(s[i], 10)) is Some by {
        assert('0' <= s[i] <= '9');
    }
}

/// Reading a number gives back what writing it in decimal wrote.
pub proof fn law_parse_decimal(n: u32)
    ensures
        parsed_int(decimal(n as nat)) == Some(n),
{
    let s = decimal(n as nat);
    lemma_decimal(n as nat);
    assert(!white_space(s[0]));
    assert(run_len(s, Class::Blank) == 0);
    assert(s.skip(0) =~= s);
    assert(!white_space(s[s.len() - 1]));
    assert(trimmed(s) == s);
    if s.len() >= 2 {
        assert('0' <= s[1] <= '9');
    }
}

/// Reading a number behind `0x` or `0X` gives what its hexadecimal digits denote, in whichever case
/// they are written.
pub proof fn law_parse_hex_digits(x: char, digits: Seq<char>)
    requires
        x == 'x' || x == 'X',
        digits.len() > 0,
        all_digits(digits, 16),
        numeral_value(digits, 16) <= u32::MAX,
    ensures
        parsed_int(seq!['0', x] + digits) == Some(numeral_value(digits, 16) as u32),
{
    let s = seq!['0', x] + digits;
    assert(run_len(s, Class::Blank) == 0);
    assert(s.skip(0) =~= s);
    assert(s.last() == digits[digits.len() - 1]);
    assert(digit_value(digits[digits.len() - 1], 16) is Some);
    assert(!white_space(s.last()));
    assert(trimmed(s) == s);
    assert(s.skip(2) =~= digits);
    assert(digit_value(digits[0], 16) is Some);
}

/// The hexadecimal digit that stands for `d`, as a capital or not.
pub open spec fn hex_char(d: int, capital: bool) -> char {
    if d < 10 {
        digit_char(d)
    } else if capital {
        ('A' as int + d - 10) as char
    } else {
        ('a' as int + d - 10) as char
    }
}

/// `n` in hexadecimal, without leading zeros.
pub open spec fn hexadecimal(n: nat, capital: bool) -> Seq<char>
    decreases n,
{
    if n < 16 {
        seq![hex_char(n as int, capital)]
    } else {
        hexadecimal(n / 16, capital).push(hex_char((n % 16) as int, capital))
    }
}

/// What `hexadecimal` writes: digits alone, at least one, that denote the number.
proof fn lemma_hexadecimal(n: nat, capital: bool)
    ensures
        hexadecimal(n, capital).len() > 0,
        all_digits(hexadecimal(n, capital), 16),
        numeral_value(hexadecimal(n, capital), 16) == n,
    decreases n,
{
    let s = hexadecimal(n, capital);
    if n < 16 {
        assert(s.drop_last() =~= Seq::empty());
        assert(numeral_value(s.drop_last(), 16) == 0);
    } else {
        lemma_hexadecimal(n / 16, capital);
        let t = hexadecimal(n / 16, capital);
        assert(s.drop_last() =~= t);
        assert forall|i: int| 0 <= i < s.len() implies (#[trigger] digit_value(s[i], 16)) is Some by {
            if i < t.len() {
                assert(s[i] == t[i]);
                assert(digit_value(t[i], 16) is Some);
            }
        }
    }
}

/// Reading a number gives back what writing it in hexadecimal wrote, behind `0x` or `0X`, in
/// capitals or not.
pub proof fn law_parse_hexadecimal(n: u32, x: char, capital: bool)
    requires
        x == 'x' || x == 'X',
    ensures
        parsed_int(seq!['0', x] + hexadecimal(n as nat, capital)) == Some(n),
{
    lemma_hexadecimal(n as nat, capital);
    law_parse_hex_digits(x, hexadecimal(n as nat, capital));
}

/// Whether `s` holds no white space.
pub open spec fn no_blank(s: Seq<char>) -> bool {
    forall|i: int| 0 <= i < s.len() ==> !white_space(#[trigger] s[i])
}

/// A word at the start of a text is its first word, and the rest follows it.
proof fn lemma_first_word(word: Seq<char>, rest: Seq<char>)
    requires
        word.len() > 0,
        no_blank(word),
        rest.len() > 0 ==> white_space(rest[0]),
    ensures
        first_word(word + rest) == word,
        after_word(word + rest) == rest,
{
    let s = word + rest;
    assert(s[0] == word[0]);
    lemma_run_len_is(s, Class::Blank, 0);
    assert(s.skip(0) =~= s);
    assert forall|i: int| 0 <= i < word.len() implies Class::Word.has(#[trigger] s[i]) by {
        assert(s[i] == word[i]);
    }
    if rest.len() > 0 {
        assert(s[word.len() as int] == rest[0]);
    }
    lemma_run_len_is(s, Class::Word, word.len() as int);
    assert(s.take(word.len() as int) =~= word);
    assert(s.skip(word.len() as int) =~= rest);
}

/// White space at the start of a text makes no difference to its first word.
proof fn lemma_first_word_behind_blank(blank: char, rest: Seq<char>)
    requires
        white_space(blank),
    ensures
        first_word(seq![blank] + rest) == first_word(rest),
        after_word(seq![blank] + rest) == after_word(rest),
{
    let s = seq![blank] + rest;
    assert(s.skip(1) =~= rest);
    assert(run_len(s, Class::Blank) == 1 + run_len(rest, Class::Blank));
    lemma_run_len(rest, Class::Blank);
    assert(from_word(s) =~= from_word(rest));
}

/// A request names the method and the target that its first line starts with, whatever follows
/// them: a version, headers, a body.
pub proof fn law_request_line(method: Seq<char>, target: Seq<char>, rest: Seq<char>)
    requires
        method.len() > 0,
        target.len() > 0,
        no_blank(method),
        no_blank(target),
        rest.len() > 0 ==> white_space(rest[0]),
    ensures
        method_of(method + seq![' '] + target + rest) == method,
        target_of(method + seq![' '] + target + rest) == target,
{
    let text = method + seq![' '] + target + rest;
    let words = method + seq![' '] + target;
    let newline = Class::Except('\n');
    let cut = run_len(rest, newline);
    lemma_run_len(rest, newline);
    assert forall|i: int| 0 <= i < words.len() + cut implies newline.has(#[trigger] text[i]) by {
        if i < method.len() {
            assert(text[i] == method[i]);
        } else if i == method.len() {
        } else if i < words.len() {
            assert(text[i] == target[i - method.len() - 1]);
        } else {
            assert(text[i] == rest[i - words.len()]);
        }
    }
    if cut < rest.len() {
        assert(text[words.len() + cut] == rest[cut]);
    }
    lemma_run_len_is(text, newline, words.len() + cut);
    let line_rest = rest.take(cut);
    assert(first_line(text) =~= method + (seq![' '] + (target + line_rest)));
    lemma_first_word(method, seq![' '] + (target + line_rest));
    lemma_first_word_behind_blank(' ', target + line_rest);
    lemma_first_word(target, line_rest);
}

/// The first `?` of a target parts its path from its query; without one, the query is empty.
pub proof fn law_target(path: Seq<char>, query: Seq<char>)
    requires
        !path.contains('?'),
    ensures
        path_of(path + seq!['?'] + query) == path,
        query_of(path + seq!['?'] + query) == query,
        path_of(path) == path,
        query_of(path) == Seq::<char>::empty(),
{
    let mark = Class::Except('?');
    let target = path + seq!['?'] + query;
    assert forall|i: int| 0 <= i < path.len() implies mark.has(#[trigger] path[i]) by {
        assert(path.contains(path[i]));
    }
    assert forall|i: int| 0 <= i < path.len() implies mark.has(#[trigger] target[i]) by {
        assert(target[i] == path[i]);
    }
    lemma_run_len_is(path, mark, path.len() as int);
    lemma_run_len_is(target, mark, path.len() as int);
    assert(target.take(path.len() as int) =~= path);
    assert(target.skip(path.len() as int + 1) =~= query);
    assert(path.take(path.len() as int) =~= path);
}

/// Whether the blank line that ends the headers of a response stands at `i`.
pub open spec fn blank_line_at(bytes: Seq<u8>, i: int) -> bool {
    &&& 0 <= i && i + 4 <= bytes.len()
    &&& bytes[i] == 13 && bytes[i + 1] == 10
    &&& bytes[i + 2] == 13 && bytes[i + 3] == 10
}

/// What a head is made of.
proof fn lemma_head_chars(code: u16, content_type: Seq<char>, length: nat, i: int)
    requires
        !content_type.contains('\r'),
        0 <= i < head_text(code, content_type, length).len() - 4,
        head_text(code, content_type, length)[i] == '\r',
    ensures
        head_text(code, content_type, length)[i + 2] == 'C',
{
    reveal_strlit("HTTP/1.1 ");
    reveal_strlit("\r\nContent-Type: ");
    reveal_strlit("\r\nContent-Length: ");
    reveal_strlit("\r\nConnection: close\r\n\r\n");
    reveal_strlit("200 OK");
    reveal_strlit("400 Bad Request");
    reveal_strlit("404 Not Found");
    reveal_strlit("405 Method Not Allowed");
    reveal_strlit("500 Internal Server Error");
    reveal_strlit("501 Not Implemented");
    reveal_strlit("503 Service Unavailable");
    reveal_strlit("504 Gateway Timeout");
    let status = status_text(code);
    let digits = decimal(length);
    lemma_decimal(length);
    let o2 = 9 + status.len();
    let o3 = o2 + 16 + content_type.len();
    let o4 = o3 + 18 + digits.len();
    let head = head_text(code, content_type, length);
    assert(head.len() == o4 + 23);
    if o2 + 16 <= i < o3 {
        assert(head[i] == content_type[i - o2 - 16]);
        assert(content_type.contains(content_type[i - o2 - 16]));
    } else if o3 + 18 <= i < o4 {
        assert(head[i] == digits[i - o3 - 18]);
    } else if 9 <= i < o2 {
        assert(head[i] == status[i - 9]);
    } else if i < 9 {
        assert(head[i] == "HTTP/1.1 "@[i]);
    } else if o2 <= i < o2 + 16 {
        assert(head[i] == "\r\nContent-Type: "@[i - o2]);
        assert(i == o2);
    } else if o3 <= i < o3 + 18 {
        assert(head[i] == "\r\nContent-Length: "@[i - o3]);
        assert(i == o3);
    } else {
        assert(head[i] == "\r\nConnection: close\r\n\r\n"@[i - o4]);
        assert(i == o4);
    }
}

/// A head is ASCII where its content type is.
proof fn lemma_head_ascii(code: u16, content_type: Seq<char>, length: nat)
    requires
        is_ascii_chars(content_type),
    ensures
        is_ascii_chars(head_text(code, content_type, length)),
        head_text(code, content_type, length).len() >= 4,
        ({
            let head = head_text(code, content_type, length);
            let n = head.len();
            head[n - 4] == '\r' && head[n - 3] == '\n' && head[n - 2] == '\r' && head[n - 1] == '\n'
        }),
{
    reveal_strlit("HTTP/1.1 ");
    reveal_strlit("\r\nContent-Type: ");
    reveal_strlit("\r\nContent-Length: ");
    reveal_strlit("\r\nConnection: close\r\n\r\n");
    reveal_strlit("200 OK");
    reveal_strlit("400 Bad Request");
    reveal_strlit("404 Not Found");
    reveal_strlit("405 Method Not Allowed");
    reveal_strlit("500 Internal Server Error");
    reveal_strlit("501 Not Implemented");
    reveal_strlit("503 Service Unavailable");
    reveal_strlit("504 Gateway Timeout");
    lemma_decimal(length);
    let a = "HTTP/1.1 "@ + status_text(code);
    let b = "\r\nContent-Type: "@ + content_type;
    let c = "\r\nContent-Length: "@ + decimal(length);
    let d = "\r\nConnection: close\r\n\r\n"@;
    assert(is_ascii_chars(status_text(code)));
    assert(is_ascii_chars(a));
    assert(is_ascii_chars(b));
    assert(is_ascii_chars(c));
    assert(is_ascii_chars(d));
    assert(head_text(code, content_type, length) =~= a + b + c + d);
}

/// Whether a head has a header that announces a body of `length` bytes.
pub open spec fn announces_length(head: Seq<char>, length: nat) -> bool {
    exists|before: Seq<char>, after: Seq<char>|
        head == #[trigger] (before + ("\r\nContent-Length: "@ + decimal(length) + "\r\n"@) + after)
}

/// The content types that the server answers with are ASCII text on one line.
pub proof fn law_content_types_are_plain()
    ensures
        is_ascii_chars(JSON@) && !JSON@.contains('\r'),
        is_ascii_chars(OCTETS@) && !OCTETS@.contains('\r'),
        is_ascii_chars(PIXMAP@) && !PIXMAP@.contains('\r'),
{
    reveal_strlit("application/json; charset=utf-8");
    reveal_strlit("application/octet-stream");
    reveal_strlit("image/x-portable-pixmap");
}

/// A head announces the length it is made for.
proof fn lemma_announced(code: u16, content_type: Seq<char>, length: nat)
    ensures
        announces_length(head_text(code, content_type, length), length),
{
    reveal_strlit("\r\n");
    reveal_strlit("\r\nConnection: close\r\n\r\n");
    let before = "HTTP/1.1 "@ + status_text(code) + "\r\nContent-Type: "@ + content_type;
    let last = "\r\nConnection: close\r\n\r\n"@;
    let after = last.skip(2);
    assert(last =~= "\r\n"@ + after);
    assert(head_text(code, content_type, length) =~= before + ("\r\nContent-Length: "@ + decimal(
        length,
    ) + "\r\n"@) + after);
}

/// A client finds the body of a response: it stands behind the first blank line, as it was given,
/// and the head says in decimal how long it is.
pub proof fn law_response_body(code: u16, content_type: Seq<char>, body: Seq<u8>)
    requires
        is_ascii_chars(content_type),
        !content_type.contains('\r'),
    ensures
        ({
            let reply = response(code, content_type, body);
            let end = head_text(code, content_type, body.len()).len() as int;
            &&& blank_line_at(reply, end - 4)
            &&& forall|i: int| i < end - 4 ==> !#[trigger] blank_line_at(reply, i)
            &&& reply.skip(end) == body
        }),
        announces_length(head_text(code, content_type, body.len()), body.len()),
        body.len() <= u32::MAX ==> parsed_int(decimal(body.len())) == Some(body.len() as u32),
{
    let head = head_text(code, content_type, body.len());
    let reply = response(code, content_type, body);
    let end = head.len() as int;
    lemma_head_ascii(code, content_type, body.len());
    is_ascii_chars_encode_utf8(head);
    let bytes = encode_utf8(head);
    assert forall|i: int| 0 <= i < end implies #[trigger] reply[i] == head[i] as u8 by {
        assert(reply[i] == bytes[i]);
        assert(head[i] as u8 == bytes[i]);
    }
    assert(reply[end - 4] == '\r' as u8);
    assert(reply[end - 3] == '\n' as u8);
    assert(reply[end - 2] == '\r' as u8);
    assert(reply[end - 1] == '\n' as u8);
    assert forall|i: int| i < end - 4 implies !#[trigger] blank_line_at(reply, i) by {
        if blank_line_at(reply, i) {
            assert(reply[i] == head[i] as u8);
            assert('\0' <= head[i] <= '\u{7f}');
            assert(head[i] == '\r');
            lemma_head_chars(code, content_type, body.len(), i);
            assert(reply[i + 2] == head[i + 2] as u8);
        }
    }
    assert(reply.skip(end) =~= body);
    lemma_announced(code, content_type, body.len());
    if body.len() <= u32::MAX {
        law_parse_decimal(body.len() as u32);
    }
}

/// The paths of the endpoints are all different, so each leads to its own.
pub proof fn law_paths_are_apart(endpoint: Endpoint)
    ensures
        endpoint_at(endpoint.path()) == Some(endpoint),
{
    reveal_strlit("/status");
    reveal_strlit("/screenshot");
    reveal_strlit("/audio");
    reveal_strlit("/mem");
    reveal_strlit("/regs");
    reveal_strlit("/step");
    reveal_strlit("/pause");
    reveal_strlit("/resume");
    reveal_strlit("/key");
    reveal_strlit("/reset");
    assert("/mem"@.len() == 4 && "/key"@.len() == 4);
    assert("/regs"@.len() == 5 && "/step"@.len() == 5);
    assert("/audio"@.len() == 6 && "/pause"@.len() == 6 && "/reset"@.len() == 6);
    assert("/status"@.len() == 7 && "/resume"@.len() == 7);
    assert("/screenshot"@.len() == 11);
    assert("/status"@[1] != "/resume"@[1]);
    assert("/regs"@[1] != "/step"@[1]);
    assert("/mem"@[1] != "/key"@[1]);
    assert("/audio"@[1] != "/pause"@[1] && "/audio"@[1] != "/reset"@[1]);
    assert("/pause"@[1] != "/reset"@[1]);
}

/// An endpoint serves a request made by its method.
pub proof fn law_endpoint_serves(endpoint: Endpoint, query: Seq<char>)
    ensures
        requested(endpoint.method(), endpoint.path(), query) == endpoint_action(endpoint, query),
{
    law_paths_are_apart(endpoint);
}

/// A known path asked by another method is answered 405.
pub proof fn law_wrong_method(endpoint: Endpoint, method: Seq<char>, query: Seq<char>)
    requires
        method != endpoint.method(),
    ensures
        requested(method, endpoint.path(), query) == Action::Refuse(
            Refusal::MethodNotAllowed,
        ),
        Refusal::MethodNotAllowed.code() == 405,
{
    law_paths_are_apart(endpoint);
}

/// Any path that is no endpoint's is answered 404, by whatever method it is asked.
pub proof fn law_unknown_path(method: Seq<char>, path: Seq<char>, query: Seq<char>)
    requires
        forall|endpoint: Endpoint| path != #[trigger] endpoint.path(),
    ensures
        requested(method, path, query) == Action::Refuse(Refusal::NotFound),
        Refusal::NotFound.code() == 404,
{
}

/// A request's first line decides alone: the method, the path and the query that it names are
/// those it is served by, whatever follows.
pub proof fn law_first_line_decides(
    method: Seq<char>,
    path: Seq<char>,
    query: Seq<char>,
    rest: Seq<char>,
)
    requires
        method.len() > 0,
        path.len() > 0,
        no_blank(method),
        no_blank(path),
        no_blank(query),
        !path.contains('?'),
        rest.len() > 0 ==> white_space(rest[0]),
    ensures
        text_action(method + seq![' '] + (path + seq!['?'] + query) + rest) == requested(
            method,
            path,
            query,
        ),
        text_action(method + seq![' '] + path + rest) == requested(method, path, Seq::empty()),
{
    let target = path + seq!['?'] + query;
    assert forall|i: int| 0 <= i < target.len() implies !white_space(#[trigger] target[i]) by {
        if i < path.len() {
            assert(target[i] == path[i]);
        } else if i > path.len() {
            assert(target[i] == query[i - path.len() - 1]);
        }
    }
    law_request_line(method, target, rest);
    law_request_line(method, path, rest);
    law_target(path, query);
}

/// A memory read goes by its address and its length alone: other pairs, a bank among them, make
/// no difference, wherever they stand.
pub proof fn law_mem_ignores_other_pairs(query: Seq<char>, name: Seq<char>, value: Seq<char>)
    requires
        is_name(name),
        name != "addr"@,
        name != "len"@,
        !value.contains('&'),
    ensures
        mem_action(joined(query, pair(name, value))) == mem_action(query),
        mem_action(joined(pair(name, value), query)) == mem_action(query),
{
    law_query_other_pair(query, name, value, "addr"@);
    law_query_other_pair(query, name, value, "len"@);
}

/// A decimal number holds no separator of a query.
proof fn lemma_decimal_plain(n: nat)
    ensures
        !decimal(n).contains('&'),
        !decimal(n).contains('='),
{
    lemma_decimal(n);
}

/// A memory read asks for the address and the length that its query gives in decimal, up to the
/// bound, an empty read included.
pub proof fn law_mem_request(addr: u32, len: u32)
    ensures
        mem_action(
            joined(pair("addr"@, decimal(addr as nat)), pair("len"@, decimal(len as nat))),
        ) == (if len <= MEM_MAX {
            Action::Mem { addr, len }
        } else {
            Action::Refuse(Refusal::MemUsage)
        }),
{
    reveal_strlit("addr");
    reveal_strlit("len");
    let a = pair("addr"@, decimal(addr as nat));
    let l = pair("len"@, decimal(len as nat));
    lemma_decimal_plain(addr as nat);
    lemma_decimal_plain(len as nat);
    assert("addr"@.len() != "len"@.len());
    law_query_joined(a, l, "addr"@);
    law_query_joined(a, l, "len"@);
    law_query_pair("addr"@, decimal(addr as nat), "addr"@);
    law_query_pair("addr"@, decimal(addr as nat), "len"@);
    law_query_pair("len"@, decimal(len as nat), "len"@);
    law_parse_decimal(addr);
    law_parse_decimal(len);
}

/// A step asks for the number of frames that its query gives in decimal, and for one where that
/// is 0 or missing.
pub proof fn law_step_request(frames: u32)
    ensures
        step_action(pair("frames"@, decimal(frames as nat))) == (Action::Step {
            frames: if frames == 0 {
                1
            } else {
                frames
            },
        }),
        step_action(Seq::empty()) == (Action::Step { frames: 1 }),
{
    reveal_strlit("frames");
    lemma_decimal_plain(frames as nat);
    law_query_pair("frames"@, decimal(frames as nat), "frames"@);
    law_parse_decimal(frames);
    lemma_empty_query("frames"@);
}

/// An empty query holds no pair.
proof fn lemma_empty_query(key: Seq<char>)
    ensures
        query_value(Seq::empty(), key) is None,
{
}

/// The snapshot once `n` more frames are completed.
pub open spec fn after_frames(s: FrameSnapshot, n: nat) -> FrameSnapshot
    decreases n,
{
    if n == 0 {
        s
    } else {
        after_frames(s, (n - 1) as nat).completed()
    }
}

/// A step of N frames runs N frames and then halts: before the last of them the step is still
/// running and the machine is not halted; with the last the machine is halted, the step is
/// finished, and it is answered with the counter N frames on.
pub proof fn law_step_runs_its_frames(s: FrameSnapshot, frames: u32, n: nat)
    requires
        0 < frames,
        n <= frames,
        s.frame + frames <= u64::MAX,
    ensures
        ({
            let now = after_frames(s.with_budget(frames as i64), n);
            &&& now.frame == s.frame + n
            &&& now.budget == frames - n
            &&& (now.budget == 0) == (n == frames)
            &&& n < frames ==> step_poll(now, false) == StepPoll::Running
            &&& n == frames ==> step_poll(now, false) == (StepPoll::Finished {
                frame: (s.frame + frames) as u64,
            })
        }),
    decreases n,
{
    if n > 0 {
        law_step_runs_its_frames(s, frames, (n - 1) as nat);
    }
}

/// A step ends: past its time it runs no more, however many frames are left. Whenever it has ended,
/// the machine is halted, the status says so, and the frame that the step is answered with is the
/// one that the status shows.
pub proof fn law_step_ends(s: FrameSnapshot, waited_ms: u64)
    ensures
        waited_ms > STEP_TIMEOUT_MS ==> !(step_poll(s, waited_ms > STEP_TIMEOUT_MS) is Running),
        match step_poll(s, waited_ms > STEP_TIMEOUT_MS) {
            StepPoll::Running => s.budget != 0 && waited_ms <= STEP_TIMEOUT_MS,
            StepPoll::Finished { frame } => s.budget == 0 && status_response(s.with_budget(0))
                == json_response(200, status_json(frame, true)),
            StepPoll::Expired { frame } => s.budget != 0 && waited_ms > STEP_TIMEOUT_MS
                && status_response(s.with_budget(0)) == json_response(
                200,
                status_json(frame, true),
            ),
        },
{
}

/// A machine that runs freely never halts by itself, and counts every frame.
pub proof fn law_free_run_goes_on(s: FrameSnapshot, n: nat)
    requires
        s.frame + n <= u64::MAX,
    ensures
        after_frames(s.with_budget(-1i64), n).budget == -1,
        after_frames(s.with_budget(-1i64), n).frame == s.frame + n,
    decreases n,
{
    if n > 0 {
        law_free_run_goes_on(s, (n - 1) as nat);
    }
}

/// The status tells a halted machine from a running one: after a pause, or a step that came to its
/// end, it reports a pause; after a resume, or while a step runs, it does not.
pub proof fn law_status_tells_a_pause(s: FrameSnapshot, frames: u32)
    requires
        0 < frames,
    ensures
        status_response(s.with_budget(0)) == json_response(200, status_json(s.frame, true)),
        status_response(s.with_budget(-1i64)) == json_response(200, status_json(s.frame, false)),
        status_response(s.with_budget(frames as i64)) == json_response(
            200,
            status_json(s.frame, false),
        ),
{
}

/// A tap is a press and then a release.
pub proof fn law_tap(vk: u32)
    ensures
        key_events(vk, KeyMotion::Tap) == key_events(vk, KeyMotion::Press) + key_events(
            vk,
            KeyMotion::Release,
        ),
{
    assert(key_events(vk, KeyMotion::Tap) =~= key_events(vk, KeyMotion::Press) + key_events(
        vk,
        KeyMotion::Release,
    ));
}

/// A key injection by code takes the virtual key that its query gives in decimal: alone it taps,
/// with `down` 0 it releases, and with any other `down` it presses.
pub proof fn law_key_request(vk: u32, down: u32)
    ensures
        key_action(pair("code"@, decimal(vk as nat))) == (Action::Key {
            key: KeyChoice::Code(vk),
            motion: KeyMotion::Tap,
        }),
        key_action(
            joined(pair("code"@, decimal(vk as nat)), pair("down"@, decimal(down as nat))),
        ) == (Action::Key {
            key: KeyChoice::Code(vk),
            motion: if down == 0 {
                KeyMotion::Release
            } else {
                KeyMotion::Press
            },
        }),
{
    reveal_strlit("code");
    reveal_strlit("down");
    let c = pair("code"@, decimal(vk as nat));
    let d = pair("down"@, decimal(down as nat));
    lemma_decimal_plain(vk as nat);
    lemma_decimal_plain(down as nat);
    assert("code"@[0] != "down"@[0]);
    law_query_joined(c, d, "code"@);
    law_query_joined(c, d, "down"@);
    law_query_pair("code"@, decimal(vk as nat), "code"@);
    law_query_pair("code"@, decimal(vk as nat), "down"@);
    law_query_pair("down"@, decimal(down as nat), "down"@);
    law_parse_decimal(vk);
    law_parse_decimal(down);
}

/// A key injection by text takes the first character of the text.
pub proof fn law_key_text(c: char, more: Seq<char>)
    requires
        c != '&',
        !more.contains('&'),
    ensures
        key_action(pair("text"@, seq![c] + more)) == (Action::Key {
            key: KeyChoice::Text(c),
            motion: KeyMotion::Tap,
        }),
{
    reveal_strlit("text");
    reveal_strlit("code");
    reveal_strlit("down");
    let value = seq![c] + more;
    assert(!value.contains('&')) by {
        if value.contains('&') {
            let i = choose|i: int| 0 <= i < value.len() && value[i] == '&';
            if i > 0 {
                assert(more[i - 1] == '&');
            }
        }
    }
    assert("code"@[0] != "text"@[0]);
    assert("down"@[0] != "text"@[0]);
    law_query_pair("text"@, value, "text"@);
    law_query_pair("text"@, value, "code"@);
    law_query_pair("text"@, value, "down"@);
}

} // verus!
