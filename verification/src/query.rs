//! The query string of a request: `key=value` pairs joined by `&`.

use vstd::prelude::*;

use crate::text::{chars_of, digit, run, same_text, trim, Class};
#[allow(unused_imports)]
use crate::text::{all_digits, digit_value, lemma_run_len, numeral_value, run_len, trimmed};

verus! {

/// The value of the first pair of `query` whose key is `key`.
///
/// A pair ends at the next `&` or at the end of the query, and its key ends at the first `=`; a
/// piece without `=` is no pair.
pub open spec fn query_value(query: Seq<char>, key: Seq<char>) -> Option<Seq<char>>
    decreases query.len(),
{
    proof {
        lemma_run_len(query, Class::Except('&'));
    }
    let end = run_len(query, Class::Except('&'));
    let pair = query.take(end);
    let split = run_len(pair, Class::Except('='));
    if split < pair.len() && pair.take(split) == key {
        Some(pair.skip(split + 1))
    } else if end < query.len() {
        query_value(query.skip(end + 1), key)
    } else {
        None
    }
}

/// The number that `s` denotes in base `radix`: an optional `+`, then digits and nothing else,
/// whose value fits in 32 bits.
pub open spec fn parsed_radix(s: Seq<char>, radix: int) -> Option<u32> {
    let digits = if s.len() > 0 && s[0] == '+' {
        s.skip(1)
    } else {
        s
    };
    if digits.len() > 0 && all_digits(digits, radix) && numeral_value(digits, radix) <= u32::MAX {
        Some(numeral_value(digits, radix) as u32)
    } else {
        None
    }
}

/// The number that `s` denotes once white space around it is dropped: hexadecimal behind `0x` or
/// `0X`, decimal otherwise.
pub open spec fn parsed_int(s: Seq<char>) -> Option<u32> {
    let t = trimmed(s);
    if t.len() >= 2 && t[0] == '0' && (t[1] == 'x' || t[1] == 'X') {
        parsed_radix(t.skip(2), 16)
    } else {
        parsed_radix(t, 10)
    }
}

/// The number that the first pair of `query` with key `key` denotes.
pub open spec fn query_number(query: Seq<char>, key: Seq<char>) -> Option<u32> {
    match query_value(query, key) {
        Some(value) => parsed_int(value),
        None => None,
    }
}

/// A string of digits denotes no less than any prefix of it, and no less than 0.
proof fn lemma_numeral_prefix(s: Seq<char>, radix: int, n: int)
    requires
        0 <= n <= s.len(),
        0 < radix,
        all_digits(s, radix),
    ensures
        0 <= numeral_value(s.take(n), radix) <= numeral_value(s, radix),
    decreases s.len(),
{
    if n == s.len() {
        assert(s.take(n) =~= s);
        if s.len() > 0 {
            let t = s.drop_last();
            assert forall|i: int| 0 <= i < t.len() implies (#[trigger] digit_value(
                t[i],
                radix,
            )) is Some by {
                assert(digit_value(s[i], radix) is Some);
            }
            lemma_numeral_prefix(t, radix, t.len() as int);
            assert(t.take(t.len() as int) =~= t);
            assert(digit_value(s[s.len() - 1], radix) is Some);
            assert(0 <= numeral_value(t, radix) * radix) by (nonlinear_arith)
                requires
                    0 <= numeral_value(t, radix),
                    0 < radix,
            ;
        }
    } else {
        let t = s.drop_last();
        assert forall|i: int| 0 <= i < t.len() implies (#[trigger] digit_value(t[i], radix)) is Some by {
            assert(digit_value(s[i], radix) is Some);
        }
        lemma_numeral_prefix(t, radix, n);
        assert(t.take(n) =~= s.take(n));
        assert(digit_value(s[s.len() - 1], radix) is Some);
        assert(numeral_value(t, radix) <= numeral_value(t, radix) * radix) by (nonlinear_arith)
            requires
                0 <= numeral_value(t, radix),
                1 <= radix,
        ;
    }
}

/// The number that `s` denotes in base `radix`.
fn parse_radix(s: &str, radix: u32) -> (n: Option<u32>)
    requires
        0 < radix <= 36,
    ensures
        n == parsed_radix(s@, radix as int),
{
    let v = chars_of(s);
    let mut i: usize = 0;
    if v.len() > 0 && v[0] == '+' {
        i = 1;
    }
    let ghost start = i as int;
    let ghost digits = s@.skip(start);
    assert(s@.skip(0) =~= s@);
    if i == v.len() {
        return None;
    }
    let mut n: u64 = 0;
    assert(digits.take(0) =~= Seq::<char>::empty());
    while i < v.len()
        invariant
            v@ == s@,
            0 < radix <= 36,
            0 <= start <= i <= v.len(),
            start < v.len(),
            digits == s@.skip(start),
            digits == (if s@.len() > 0 && s@[0] == '+' {
                s@.skip(1)
            } else {
                s@
            }),
            all_digits(digits.take(i - start), radix as int),
            n == numeral_value(digits.take(i - start), radix as int),
            n <= u32::MAX,
        decreases v.len() - i,
    {
        let ghost done = digits.take(i - start);
        let ghost more = digits.take(i + 1 - start);
        assert(more.drop_last() =~= done);
        assert(more.last() == v@[i as int]);
        match digit(v[i], radix) {
            Some(d) => {
                assert forall|j: int| 0 <= j < more.len() implies (#[trigger] digit_value(
                    more[j],
                    radix as int,
                )) is Some by {
                    if j < done.len() {
                        assert(digit_value(done[j], radix as int) is Some);
                    }
                }
                assert(n * radix <= u32::MAX * 36) by (nonlinear_arith)
                    requires
                        0 <= n <= u32::MAX,
                        0 < radix <= 36,
                ;
                n = n * radix as u64 + d as u64;
                if n > u32::MAX as u64 {
                    proof {
                        if all_digits(digits, radix as int) {
                            lemma_numeral_prefix(digits, radix as int, i + 1 - start);
                        }
                    }
                    return None;
                }
            },
            None => {
                assert(digit_value(digits[i - start], radix as int) is None);
                return None;
            },
        }
        i = i + 1;
    }
    assert(digits.take(i - start) =~= digits);
    Some(n as u32)
}

/// Reads a number: hexadecimal behind `0x` or `0X`, decimal otherwise, with white space around
/// it tolerated.
pub fn parse_int(s: &str) -> (n: Option<u32>)
    ensures
        n == parsed_int(s@),
{
    let t = trim(s);
    let len = t.unicode_len();
    if len >= 2 && t.get_char(0) == '0' && (t.get_char(1) == 'x' || t.get_char(1) == 'X') {
        assert(t@.subrange(2, len as int) =~= t@.skip(2));
        parse_radix(t.substring_char(2, len), 16)
    } else {
        parse_radix(t, 10)
    }
}

/// The value of the first pair of `query` whose key is `key`.
pub fn query_str<'a>(query: &'a str, key: &str) -> (value: Option<&'a str>)
    ensures
        match value {
            Some(v) => query_value(query@, key@) == Some(v@),
            None => query_value(query@, key@) is None,
        },
{
    let mut rest: &'a str = query;
    loop
        invariant
            query_value(query@, key@) == query_value(rest@, key@),
        decreases rest@.len(),
    {
        let len = rest.unicode_len();
        let end = run(rest, Class::Except('&'));
        let pair = rest.substring_char(0, end);
        assert(pair@ =~= rest@.take(end as int));
        let split = run(pair, Class::Except('='));
        if split < end {
            let name = pair.substring_char(0, split);
            assert(name@ =~= pair@.take(split as int));
            if same_text(name, key) {
                let value = pair.substring_char(split + 1, end);
                assert(value@ =~= pair@.skip(split + 1));
                return Some(value);
            }
        }
        if end == len {
            return None;
        }
        assert(rest@.subrange(end + 1, len as int) =~= rest@.skip(end + 1));
        assert(query_value(rest@, key@) == query_value(rest@.skip(end + 1), key@));
        rest = rest.substring_char(end + 1, len);
    }
}

/// The number that the first pair of `query` with key `key` denotes.
pub fn query_int(query: &str, key: &str) -> (n: Option<u32>)
    ensures
        n == query_number(query@, key@),
{
    match query_str(query, key) {
        Some(value) => parse_int(value),
        None => None,
    }
}

} // verus!
