//! The shared timecode leaf: milliseconds to the SRT `HH:MM:SS,mmm` form,
//! and a parser for the bounded (two-digit-hour) canonical form.

use vstd::prelude::*;
use vstd::string::StrSliceExecFns;
use vstd::string::StringExecFns;
use vstd::arithmetic::div_mod::lemma_basic_div;
use vstd::arithmetic::div_mod::lemma_div_denominator;
use vstd::arithmetic::div_mod::lemma_small_mod;
use vstd::arithmetic::div_mod::lemma_fundamental_div_mod;
use vstd::arithmetic::div_mod::lemma_mod_division_less_than_divisor;
use vstd::arithmetic::div_mod::lemma_multiply_divide_lt;

verus! {

/// The character for one decimal digit.
pub open spec fn spec_digit_char(d: int) -> char {
    if d == 0 {
        '0'
    } else if d == 1 {
        '1'
    } else if d == 2 {
        '2'
    } else if d == 3 {
        '3'
    } else if d == 4 {
        '4'
    } else if d == 5 {
        '5'
    } else if d == 6 {
        '6'
    } else if d == 7 {
        '7'
    } else if d == 8 {
        '8'
    } else {
        '9'
    }
}

/// The decimal digits of `n`, most significant first, without leading zeros.
pub open spec fn spec_decimal(n: nat) -> Seq<char>
    decreases n,
{
    if n < 10 {
        seq![spec_digit_char(n as int)]
    } else {
        spec_decimal(n / 10) + seq![spec_digit_char((n % 10) as int)]
    }
}

/// `n` as exactly two digits; meaningful for `n < 100`.
pub open spec fn spec_two_digits(n: nat) -> Seq<char>
    recommends
        n < 100,
{
    seq![spec_digit_char((n / 10) as int), spec_digit_char((n % 10) as int)]
}

/// `n` as exactly three digits; meaningful for `n < 1000`.
pub open spec fn spec_three_digits(n: nat) -> Seq<char>
    recommends
        n < 1000,
{
    seq![
        spec_digit_char((n / 100) as int),
        spec_digit_char(((n / 10) % 10) as int),
        spec_digit_char((n % 10) as int),
    ]
}

/// The hour field: at least two digits, wider only when the value needs it.
pub open spec fn spec_hours(h: nat) -> Seq<char> {
    if h < 10 {
        seq!['0', spec_digit_char(h as int)]
    } else {
        spec_decimal(h)
    }
}

/// The SRT timecode for a whole-millisecond offset: `HH:MM:SS,mmm`, where
/// the fields come from Euclidean division by 3,600,000 / 60,000 / 1,000.
pub open spec fn spec_timecode(ms: nat) -> Seq<char> {
    spec_hours(ms / 3600000) + seq![':'] + spec_two_digits((ms / 60000) % 60) + seq![':']
        + spec_two_digits((ms / 1000) % 60) + seq![','] + spec_three_digits(ms % 1000)
}

/// A single-character string slice for one decimal digit.
fn digit_str(d: u64) -> (res: &'static str)
    requires
        d < 10,
    ensures
        res@ =~= seq![spec_digit_char(d as int)],
{
    proof {
        reveal_strlit("0");
        reveal_strlit("1");
        reveal_strlit("2");
        reveal_strlit("3");
        reveal_strlit("4");
        reveal_strlit("5");
        reveal_strlit("6");
        reveal_strlit("7");
        reveal_strlit("8");
        reveal_strlit("9");
    }
    if d == 0 {
        "0"
    } else if d == 1 {
        "1"
    } else if d == 2 {
        "2"
    } else if d == 3 {
        "3"
    } else if d == 4 {
        "4"
    } else if d == 5 {
        "5"
    } else if d == 6 {
        "6"
    } else if d == 7 {
        "7"
    } else if d == 8 {
        "8"
    } else {
        "9"
    }
}

/// `n` written in decimal, most significant digit first.
pub fn decimal_string(n: u64) -> (res: String)
    ensures
        res@ == spec_decimal(n as nat),
    decreases n,
{
    if n < 10 {
        let res = digit_str(n).to_owned();
        proof {
            assert(res@ =~= spec_decimal(n as nat));
        }
        res
    } else {
        let mut res = decimal_string(n / 10);
        res.append(digit_str(n % 10));
        proof {
            assert(res@ =~= spec_decimal(n as nat));
        }
        res
    }
}

/// Formats a whole-millisecond offset as the SRT timecode `HH:MM:SS,mmm`.
/// Minutes, seconds and milliseconds are fixed width; hours widen past 99.
pub fn format_timecode(ms: u64) -> (res: String)
    ensures
        res@ == spec_timecode(ms as nat),
{
    let hours: u64 = ms / 3600000;
    let minutes: u64 = (ms / 60000) % 60;
    let seconds: u64 = (ms / 1000) % 60;
    let millis: u64 = ms % 1000;
    let mut res: String;
    if hours < 10 {
        res = "0".to_owned();
        res.append(digit_str(hours));
        proof {
            reveal_strlit("0");
            assert(res@ =~= spec_hours(hours as nat));
        }
    } else {
        res = decimal_string(hours);
    }
    res.append(":");
    res.append(digit_str(minutes / 10));
    res.append(digit_str(minutes % 10));
    res.append(":");
    res.append(digit_str(seconds / 10));
    res.append(digit_str(seconds % 10));
    res.append(",");
    res.append(digit_str(millis / 100));
    res.append(digit_str((millis / 10) % 10));
    res.append(digit_str(millis % 10));
    proof {
        reveal_strlit(":");
        reveal_strlit(",");
        assert(res@ =~= spec_timecode(ms as nat));
    }
    res
}

/// A decimal digit character.
pub open spec fn spec_is_digit(c: char) -> bool {
    48 <= c as u32 <= 57
}

/// The numeric value of a decimal digit character.
pub open spec fn spec_digit_val(c: char) -> int {
    c as u32 - 48
}

/// What `parse_timecode` returns: `Some(ms)` exactly when `s` is the
/// twelve-character timecode `HH:MM:SS,mmm` with two hour digits and `MM`
/// and `SS` below 60; `ms` is then the whole-millisecond offset it denotes.
pub open spec fn spec_parse_timecode(s: Seq<char>) -> Option<u64> {
    if s.len() == 12 && s[2] == ':' && s[5] == ':' && s[8] == ',' && spec_is_digit(s[0])
        && spec_is_digit(s[1]) && spec_is_digit(s[3]) && spec_is_digit(s[4]) && spec_is_digit(s[6])
        && spec_is_digit(s[7]) && spec_is_digit(s[9]) && spec_is_digit(s[10]) && spec_is_digit(
        s[11],
    ) {
        let hours = spec_digit_val(s[0]) * 10 + spec_digit_val(s[1]);
        let minutes = spec_digit_val(s[3]) * 10 + spec_digit_val(s[4]);
        let seconds = spec_digit_val(s[6]) * 10 + spec_digit_val(s[7]);
        let millis = spec_digit_val(s[9]) * 100 + spec_digit_val(s[10]) * 10 + spec_digit_val(
            s[11],
        );
        if minutes < 60 && seconds < 60 {
            Some((hours * 3600000 + minutes * 60000 + seconds * 1000 + millis) as u64)
        } else {
            None
        }
    } else {
        None
    }
}

/// The value of a decimal digit character, `None` for any other character.
fn digit_val(c: char) -> (res: Option<u64>)
    ensures
        res == (if spec_is_digit(c) {
            Option::Some(spec_digit_val(c) as u64)
        } else {
            Option::<u64>::None
        }),
{
    let v = c as u32;
    if 48 <= v && v <= 57 {
        Some((v - 48) as u64)
    } else {
        None
    }
}

/// Parses the bounded canonical timecode form `HH:MM:SS,mmm` (exactly two
/// hour digits). Returns the whole-millisecond offset it denotes, or `None`
/// when the text is not of that shape.
pub fn parse_timecode(s: &str) -> (res: Option<u64>)
    ensures
        res == spec_parse_timecode(s@),
{
    let n = s.unicode_len();
    if n != 12 {
        return None;
    }
    if s.get_char(2) != ':' || s.get_char(5) != ':' || s.get_char(8) != ',' {
        return None;
    }
    let d0 = digit_val(s.get_char(0));
    let d1 = digit_val(s.get_char(1));
    let d3 = digit_val(s.get_char(3));
    let d4 = digit_val(s.get_char(4));
    let d6 = digit_val(s.get_char(6));
    let d7 = digit_val(s.get_char(7));
    let d9 = digit_val(s.get_char(9));
    let d10 = digit_val(s.get_char(10));
    let d11 = digit_val(s.get_char(11));
    match (d0, d1, d3, d4, d6, d7, d9, d10, d11) {
        (
            Some(h1),
            Some(h0),
            Some(m1),
            Some(m0),
            Some(s1),
            Some(s0),
            Some(r2),
            Some(r1),
            Some(r0),
        ) => {
            let minutes = m1 * 10 + m0;
            let seconds = s1 * 10 + s0;
            if minutes < 60 && seconds < 60 {
                let hours = h1 * 10 + h0;
                let millis = r2 * 100 + r1 * 10 + r0;
                Some(hours * 3600000 + minutes * 60000 + seconds * 1000 + millis)
            } else {
                None
            }
        },
        _ => None,
    }
}

/// Every decimal digit formats as a digit character whose value is itself.
proof fn lemma_digit_char_val(d: int)
    requires
        0 <= d < 10,
    ensures
        spec_is_digit(spec_digit_char(d)),
        spec_digit_val(spec_digit_char(d)) == d,
{
}

/// Formatting any offset of at most 99 hours, 59 minutes, 59 seconds and
/// 999 milliseconds, then parsing the text back, returns the same offset.
pub proof fn lemma_timecode_round_trip(ms: nat)
    requires
        ms <= 359999999,
    ensures
        spec_parse_timecode(spec_timecode(ms)) == Some(ms as u64),
{
    let h = ms / 3600000;
    let m = (ms / 60000) % 60;
    let s = (ms / 1000) % 60;
    let r = ms % 1000;
    lemma_multiply_divide_lt(ms as int, 3600000, 100);
    assert(h < 100);
    lemma_mod_division_less_than_divisor(ms as int / 60000, 60);
    lemma_mod_division_less_than_divisor(ms as int / 1000, 60);
    lemma_mod_division_less_than_divisor(ms as int, 1000);
    assert(m < 60 && s < 60 && r < 1000);
    if h < 10 {
        lemma_basic_div(h as int, 10);
        lemma_small_mod(h, 10);
    } else {
        lemma_multiply_divide_lt(h as int, 10, 10);
        assert(spec_decimal(h / 10) =~= seq![spec_digit_char((h / 10) as int)]);
    }
    assert(spec_hours(h) =~= seq![
        spec_digit_char((h / 10) as int),
        spec_digit_char((h % 10) as int),
    ]);
    let t = spec_timecode(ms);
    assert(t =~= seq![
        spec_digit_char((h / 10) as int),
        spec_digit_char((h % 10) as int),
        ':',
        spec_digit_char((m / 10) as int),
        spec_digit_char((m % 10) as int),
        ':',
        spec_digit_char((s / 10) as int),
        spec_digit_char((s % 10) as int),
        ',',
        spec_digit_char((r / 100) as int),
        spec_digit_char(((r / 10) % 10) as int),
        spec_digit_char((r % 10) as int),
    ]);
    assert forall|d: int| 0 <= d < 10 implies spec_is_digit(#[trigger] spec_digit_char(d))
        && spec_digit_val(spec_digit_char(d)) == d by {
        lemma_digit_char_val(d);
    }
    lemma_fundamental_div_mod(h as int, 10);
    lemma_fundamental_div_mod(m as int, 10);
    lemma_fundamental_div_mod(s as int, 10);
    lemma_fundamental_div_mod(r as int, 10);
    lemma_fundamental_div_mod(r as int / 10, 10);
    lemma_div_denominator(r as int, 10, 10);
    assert(spec_digit_val(t[9]) * 100 + spec_digit_val(t[10]) * 10 + spec_digit_val(t[11])
        == r as int);
    let a = ms as int / 1000;
    let b = ms as int / 60000;
    lemma_fundamental_div_mod(ms as int, 1000);
    lemma_fundamental_div_mod(a, 60);
    lemma_div_denominator(ms as int, 1000, 60);
    assert(a / 60 == b);
    lemma_fundamental_div_mod(b, 60);
    lemma_div_denominator(ms as int, 60000, 60);
    assert(b / 60 == h as int);
    assert(ms as int == h as int * 3600000 + m as int * 60000 + s as int * 1000 + r as int);
}

} // verus!
