//! What numbers and queries mean, character by character.

use vstd::prelude::*;

#[allow(unused_imports)]
use crate::laws::{is_name, pair};
#[allow(unused_imports)]
use crate::query::{parsed_int, parsed_radix, query_number, query_value};
#[allow(unused_imports)]
use crate::text::{
    all_digits, decimal, digit_char, digit_value, lemma_run_len_is, numeral_value, run_len, trimmed,
    white_space, without_tail, Class,
};

verus! {

/// White space is these code points, and no others.
pub proof fn law_white_space(c: char)
    ensures
        white_space(c) <==> {
            let n = c as u32;
            ||| 9 <= n <= 13
            ||| n == 32 || n == 0x85 || n == 0xa0 || n == 0x1680
            ||| 0x2000 <= n <= 0x200a
            ||| n == 0x2028 || n == 0x2029 || n == 0x202f || n == 0x205f || n == 0x3000
        },
{
}

/// A class has each character or has it not: all but one, white space, all but white space.
pub proof fn law_class(c: char, x: char)
    ensures
        Class::Except(x).has(c) <==> c != x,
        Class::Blank.has(c) <==> white_space(c),
        Class::Word.has(c) <==> !white_space(c),
{
}

/// Dropping a tail of white space stops at the last character that is none.
proof fn lemma_without_tail(core: Seq<char>, tail: Seq<char>)
    requires
        core.len() > 0 ==> !white_space(core.last()),
        forall|i: int| 0 <= i < tail.len() ==> white_space(#[trigger] tail[i]),
    ensures
        without_tail(core + tail, Class::Blank) == core,
    decreases tail.len(),
{
    let s = core + tail;
    if tail.len() == 0 {
        assert(s =~= core);
    } else {
        let t = tail.drop_last();
        assert forall|i: int| 0 <= i < t.len() implies white_space(#[trigger] t[i]) by {
            assert(t[i] == tail[i]);
        }
        lemma_without_tail(core, t);
        assert(s.drop_last() =~= core + t);
        assert(s.last() == tail[tail.len() - 1]);
    }
}

/// Trimming takes the white space off both ends, and leaves what stands between, white space
/// inside it included.
pub proof fn law_trim(lead: Seq<char>, core: Seq<char>, tail: Seq<char>)
    requires
        forall|i: int| 0 <= i < lead.len() ==> white_space(#[trigger] lead[i]),
        forall|i: int| 0 <= i < tail.len() ==> white_space(#[trigger] tail[i]),
        core.len() > 0 ==> !white_space(core[0]) && !white_space(core.last()),
    ensures
        trimmed(lead + core + tail) == core,
{
    let s = lead + core + tail;
    if core.len() == 0 {
        assert forall|i: int| 0 <= i < s.len() implies Class::Blank.has(#[trigger] s[i]) by {
            if i < lead.len() {
                assert(s[i] == lead[i]);
            } else {
                assert(s[i] == tail[i - lead.len()]);
            }
        }
        lemma_run_len_is(s, Class::Blank, s.len() as int);
        assert(s.skip(s.len() as int) =~= core);
    } else {
        assert forall|i: int| 0 <= i < lead.len() implies Class::Blank.has(#[trigger] s[i]) by {
            assert(s[i] == lead[i]);
        }
        assert(s[lead.len() as int] == core[0]);
        lemma_run_len_is(s, Class::Blank, lead.len() as int);
        assert(s.skip(lead.len() as int) =~= core + tail);
        lemma_without_tail(core, tail);
    }
}

/// A character stands for a number below the base just where it is the decimal digit of that
/// number, or the letter so far behind `A` or `a`.
pub proof fn law_digit(c: char, radix: int, v: int)
    requires
        2 <= radix <= 36,
    ensures
        digit_value(c, radix) == Some(v) <==> 0 <= v < radix && {
            ||| v < 10 && c as int == 48 + v
            ||| v >= 10 && c as int == 65 + v - 10
            ||| v >= 10 && c as int == 97 + v - 10
        },
{
}

/// A digit more multiplies what a numeral denotes by the base, and adds the digit; no digit at all
/// denotes 0.
pub proof fn law_numeral(s: Seq<char>, c: char, radix: int)
    ensures
        numeral_value(Seq::empty(), radix) == 0,
        numeral_value(s.push(c), radix) == numeral_value(s, radix) * radix + digit_value(
            c,
            radix,
        ).unwrap(),
        all_digits(Seq::empty(), radix),
        all_digits(s.push(c), radix) <==> all_digits(s, radix) && digit_value(c, radix) is Some,
{
    let t = s.push(c);
    assert(t.drop_last() =~= s);
    if all_digits(t, radix) {
        assert forall|i: int| 0 <= i < s.len() implies (#[trigger] digit_value(s[i], radix)) is Some by {
            assert(digit_value(t[i], radix) is Some);
        }
        assert(digit_value(t[s.len() as int], radix) is Some);
    }
    if all_digits(s, radix) && digit_value(c, radix) is Some {
        assert forall|i: int| 0 <= i < t.len() implies (#[trigger] digit_value(t[i], radix)) is Some by {
            if i < s.len() {
                assert(digit_value(s[i], radix) is Some);
            }
        }
    }
}

/// What `decimal` writes: `0` for 0; for any other number decimal digits without a zero in front,
/// ten times the number and a digit being written as the number and that digit; and, read as a
/// numeral, the number itself.
pub proof fn law_decimal(n: nat, d: nat)
    requires
        d < 10,
    ensures
        decimal(0) == seq!['0'],
        decimal(n).len() > 0,
        forall|i: int| 0 <= i < decimal(n).len() ==> 48 <= #[trigger] decimal(n)[i] as int <= 57,
        n > 0 ==> decimal(n)[0] as int != 48,
        n > 0 ==> decimal(10 * n + d) == decimal(n).push((48 + d) as char),
        d > 0 ==> decimal(d) == seq![(48 + d) as char],
        all_digits(decimal(n), 10),
        numeral_value(decimal(n), 10) == n,
    decreases n,
{
    let s = decimal(n);
    assert(digit_char(0) == '0');
    if n > 0 {
        assert((10 * n + d) / 10 == n && (10 * n + d) % 10 == d);
    }
    if n < 10 {
        assert(s.drop_last() =~= Seq::empty());
        assert(numeral_value(s.drop_last(), 10) == 0);
    } else {
        law_decimal(n / 10, d);
        let t = decimal(n / 10);
        assert(s.drop_last() =~= t);
        assert forall|i: int| 0 <= i < s.len() implies 48 <= #[trigger] s[i] as int <= 57 by {
            if i < t.len() {
                assert(s[i] == t[i]);
            }
        }
        assert(s[0] == t[0]);
    }
    assert forall|i: int| 0 <= i < s.len() implies (#[trigger] digit_value(s[i], 10)) is Some by {
        assert(48 <= s[i] as int <= 57);
    }
}

/// Different numbers are written differently.
pub proof fn law_decimal_tells_apart(a: nat, b: nat)
    requires
        decimal(a) == decimal(b),
    ensures
        a == b,
{
    law_decimal(a, 0);
    law_decimal(b, 0);
}

/// Digits alone are a numeral as they stand: nothing of them is trimmed, and no sign is in front.
proof fn lemma_digits_plain(s: Seq<char>)
    requires
        s.len() > 0,
        forall|i: int| 0 <= i < s.len() ==> 48 <= #[trigger] s[i] as int <= 57,
    ensures
        trimmed(s) == s,
        all_digits(s, 10),
        parsed_int(s) == parsed_radix(s, 10),
        parsed_radix(s, 10) == (if numeral_value(s, 10) <= u32::MAX {
            Some(numeral_value(s, 10) as u32)
        } else {
            None
        }),
{
    assert(48 <= s[0] as int <= 57);
    assert(48 <= s[s.len() - 1] as int <= 57);
    law_trim(Seq::empty(), s, Seq::empty());
    assert(Seq::<char>::empty() + s + Seq::<char>::empty() =~= s);
    assert forall|i: int| 0 <= i < s.len() implies (#[trigger] digit_value(s[i], 10)) is Some by {
        assert(48 <= s[i] as int <= 57);
    }
    if s.len() >= 2 {
        assert(48 <= s[1] as int <= 57);
    }
}

/// What digits denote is never negative.
proof fn lemma_numeral_nonnegative(s: Seq<char>, radix: int)
    requires
        0 < radix,
        all_digits(s, radix),
    ensures
        0 <= numeral_value(s, radix),
    decreases s.len(),
{
    if s.len() > 0 {
        let t = s.drop_last();
        assert(t.push(s.last()) =~= s);
        law_numeral(t, s.last(), radix);
        lemma_numeral_nonnegative(t, radix);
        assert(digit_value(s[s.len() - 1], radix) is Some);
        assert(0 <= numeral_value(t, radix) * radix) by (nonlinear_arith)
            requires
                0 <= numeral_value(t, radix),
                0 < radix,
        ;
    }
}

/// Reading decimal digits goes digit by digit: one digit is its number, and a digit more makes
/// ten times the number and the digit, as long as that fits in 32 bits; what does not fit is no
/// number, whatever follows.
pub proof fn law_parse_digit_by_digit(s: Seq<char>, d: int)
    requires
        0 <= d < 10,
        forall|i: int| 0 <= i < s.len() ==> 48 <= #[trigger] s[i] as int <= 57,
    ensures
        s.len() == 0 ==> parsed_int(s.push((48 + d) as char)) == Some(d as u32),
        s.len() > 0 ==> parsed_int(s.push((48 + d) as char)) == (match parsed_int(s) {
            Some(v) => if v * 10 + d <= u32::MAX {
                Some((v * 10 + d) as u32)
            } else {
                None
            },
            None => None,
        }),
{
    let c = (48 + d) as char;
    let t = s.push(c);
    assert forall|i: int| 0 <= i < t.len() implies 48 <= #[trigger] t[i] as int <= 57 by {
        if i < s.len() {
            assert(t[i] == s[i]);
        }
    }
    lemma_digits_plain(t);
    law_numeral(s, c, 10);
    law_digit(c, 10, d);
    if s.len() > 0 {
        lemma_digits_plain(s);
        lemma_numeral_nonnegative(s, 10);
    } else {
        assert(s =~= Seq::empty());
    }
}

/// Hexadecimal digits behind `0x` or `0X` are read digit by digit too, in base 16. `v` is the number
/// that the digit `c` stands for.
pub proof fn law_parse_hex_digit_by_digit(x: char, s: Seq<char>, c: char, v: int)
    requires
        x == 'x' || x == 'X',
        all_digits(s, 16),
        0 <= v < 16,
        v < 10 ==> c as int == 48 + v,
        v >= 10 ==> c as int == 65 + v - 10 || c as int == 97 + v - 10,
    ensures
        s.len() == 0 ==> parsed_int(seq!['0', x] + s.push(c)) == Some(v as u32),
        s.len() > 0 ==> parsed_int(seq!['0', x] + s.push(c)) == (match parsed_int(
            seq!['0', x] + s,
        ) {
            Some(n) => if n * 16 + v <= u32::MAX {
                Some((n * 16 + v) as u32)
            } else {
                None
            },
            None => None,
        }),
{
    law_digit(c, 16, v);
    law_numeral(s, c, 16);
    lemma_hex_plain(x, s.push(c));
    if s.len() > 0 {
        lemma_hex_plain(x, s);
        lemma_numeral_nonnegative(s, 16);
    } else {
        assert(s =~= Seq::empty());
    }
}

/// Hexadecimal digits behind their prefix are a numeral as they stand.
proof fn lemma_hex_plain(x: char, s: Seq<char>)
    requires
        x == 'x' || x == 'X',
        s.len() > 0,
        all_digits(s, 16),
    ensures
        parsed_int(seq!['0', x] + s) == (if numeral_value(s, 16) <= u32::MAX {
            Some(numeral_value(s, 16) as u32)
        } else {
            None
        }),
{
    let t = seq!['0', x] + s;
    assert(digit_value(s[0], 16) is Some);
    assert(digit_value(s[s.len() - 1], 16) is Some);
    assert(t.last() == s[s.len() - 1]);
    law_trim(Seq::empty(), t, Seq::empty());
    assert(Seq::<char>::empty() + t + Seq::<char>::empty() =~= t);
    assert(t.skip(2) =~= s);
}

/// White space around a number makes no difference, and neither does a plus sign in front of its
/// digits, also behind `0x` or `0X`.
pub proof fn law_parse_tolerates(lead: Seq<char>, s: Seq<char>, tail: Seq<char>, x: char)
    requires
        forall|i: int| 0 <= i < lead.len() ==> white_space(#[trigger] lead[i]),
        forall|i: int| 0 <= i < tail.len() ==> white_space(#[trigger] tail[i]),
        s.len() > 0,
        !white_space(s[0]),
        !white_space(s.last()),
        x == 'x' || x == 'X',
    ensures
        parsed_int(lead + s + tail) == parsed_int(s),
        all_digits(s, 10) ==> parsed_int(seq!['+'] + s) == parsed_int(s),
        all_digits(s, 16) ==> parsed_int(seq!['0', x, '+'] + s) == parsed_int(seq!['0', x] + s),
{
    law_trim(lead, s, tail);
    law_trim(Seq::empty(), s, Seq::empty());
    assert(Seq::<char>::empty() + s + Seq::<char>::empty() =~= s);
    if all_digits(s, 10) {
        let p = seq!['+'] + s;
        assert(p.last() == s.last());
        law_trim(Seq::empty(), p, Seq::empty());
        assert(Seq::<char>::empty() + p + Seq::<char>::empty() =~= p);
        assert(p.skip(1) =~= s);
        assert(digit_value(s[0], 10) is Some);
        if s.len() >= 2 {
            assert(digit_value(s[1], 10) is Some);
        }
    }
    if all_digits(s, 16) {
        let p = seq!['0', x, '+'] + s;
        assert(p.last() == s.last());
        law_trim(Seq::empty(), p, Seq::empty());
        assert(Seq::<char>::empty() + p + Seq::<char>::empty() =~= p);
        assert(p.skip(2) =~= seq!['+'] + s);
        assert((seq!['+'] + s).skip(1) =~= s);
        lemma_hex_plain(x, s);
    }
}

/// Nothing else is a number: what is read as one is, between white space, decimal digits, or
/// hexadecimal digits behind `0x` or `0X`, with at most a plus sign in front of the digits.
pub proof fn law_parse_only_numbers(s: Seq<char>)
    requires
        parsed_int(s) is Some,
    ensures
        exists|prefix: Seq<char>, sign: Seq<char>, digits: Seq<char>|
            {
                &&& trimmed(s) == #[trigger] (prefix + sign + digits)
                &&& digits.len() > 0
                &&& sign == Seq::<char>::empty() || sign == seq!['+']
                &&& prefix == Seq::<char>::empty() || prefix == seq!['0', 'x'] || prefix
                    == seq!['0', 'X']
                &&& forall|i: int|
                    0 <= i < digits.len() ==> {
                        ||| '0' <= #[trigger] digits[i] <= '9'
                        ||| prefix.len() > 0 && 'a' <= digits[i] <= 'f'
                        ||| prefix.len() > 0 && 'A' <= digits[i] <= 'F'
                    }
            },
{
    let t = trimmed(s);
    let hex = t.len() >= 2 && t[0] == '0' && (t[1] == 'x' || t[1] == 'X');
    let prefix = if hex {
        t.take(2)
    } else {
        Seq::empty()
    };
    let radix: int = if hex {
        16
    } else {
        10
    };
    let u = if hex {
        t.skip(2)
    } else {
        t
    };
    let signed = u.len() > 0 && u[0] == '+';
    let sign = if signed {
        u.take(1)
    } else {
        Seq::empty()
    };
    let digits = if signed {
        u.skip(1)
    } else {
        u
    };
    assert(all_digits(digits, radix));
    assert forall|i: int| 0 <= i < digits.len() implies {
        ||| '0' <= #[trigger] digits[i] <= '9'
        ||| prefix.len() > 0 && 'a' <= digits[i] <= 'f'
        ||| prefix.len() > 0 && 'A' <= digits[i] <= 'F'
    } by {
        assert(digit_value(digits[i], radix) is Some);
    }
    if hex {
        assert(prefix =~= seq!['0', t[1]]);
    }
    if signed {
        assert(sign =~= seq!['+']);
    }
    assert(t =~= prefix + sign + digits);
}

/// A piece of a query without `=` is no pair, and gives nothing for any key.
pub proof fn law_query_no_pair(piece: Seq<char>, key: Seq<char>)
    requires
        is_name(piece),
    ensures
        query_value(piece, key) is None,
{
    assert forall|i: int| 0 <= i < piece.len() implies Class::Except('&').has(#[trigger] piece[i])
        && Class::Except('=').has(piece[i]) by {
        assert(piece.contains(piece[i]));
    }
    lemma_run_len_is(piece, Class::Except('&'), piece.len() as int);
    assert(piece.take(piece.len() as int) =~= piece);
    lemma_run_len_is(piece, Class::Except('='), piece.len() as int);
}

/// The number for a key is what the text for that key is read as, and there is none where there is
/// no such text.
pub proof fn law_query_number(query: Seq<char>, name: Seq<char>, value: Seq<char>)
    requires
        is_name(name),
        !value.contains('&'),
    ensures
        query_number(pair(name, value), name) == parsed_int(value),
        query_value(query, name) is None ==> query_number(query, name) is None,
        query_value(query, name) is Some ==> query_number(query, name) == parsed_int(
            query_value(query, name).unwrap(),
        ),
{
    crate::laws::law_query_pair(name, value, name);
}

} // verus!
