//! Decimal text: rendering integers as decimal strings and parsing them back.
//!
//! The wire format carries identifiers and timestamps as decimal text, so
//! both directions are specified exactly: `spec_dec` gives the canonical
//! digit string of a number, and `spec_parse_dec` gives the number denoted
//! by a digit string (with the optional leading `+` that `str::parse`
//! accepts for unsigned integers).

use vstd::prelude::*;

verus! {

/// The character for a single decimal digit value.
pub open spec fn spec_digit_char(d: nat) -> char {
    if d == 0 {
        '0'
    } else if d == 1 {
        '1'
    } else if d == 2 {
        '2'
    } else if d == 3 {
        '3'
    } else if d == 4 {
        '4'
    } else if d == 5 {
        '5'
    } else if d == 6 {
        '6'
    } else if d == 7 {
        '7'
    } else if d == 8 {
        '8'
    } else {
        '9'
    }
}

/// The canonical decimal rendering of `n`: no sign, no leading zeros
/// (except for `n == 0` itself).
pub open spec fn spec_dec(n: nat) -> Seq<char>
    decreases n,
{
    if n < 10 {
        seq![spec_digit_char(n)]
    } else {
        spec_dec(n / 10).push(spec_digit_char(n % 10))
    }
}

/// The numeric value of a decimal digit character, or -1 for any other char.
pub open spec fn spec_digit_val(c: char) -> int {
    if c == '0' {
        0
    } else if c == '1' {
        1
    } else if c == '2' {
        2
    } else if c == '3' {
        3
    } else if c == '4' {
        4
    } else if c == '5' {
        5
    } else if c == '6' {
        6
    } else if c == '7' {
        7
    } else if c == '8' {
        8
    } else if c == '9' {
        9
    } else {
        -1
    }
}

pub open spec fn spec_is_digit(c: char) -> bool {
    spec_digit_val(c) >= 0
}

/// Whether `s` is one or more decimal digits.
pub open spec fn spec_all_digits(s: Seq<char>) -> bool {
    s.len() > 0 && forall|i: int| 0 <= i < s.len() ==> spec_is_digit(#[trigger] s[i])
}

/// The value denoted by a digit string (most significant digit first).
pub open spec fn spec_digits_val(s: Seq<char>) -> nat
    decreases s.len(),
{
    if s.len() == 0 {
        0
    } else {
        spec_digits_val(s.drop_last()) * 10 + (if spec_is_digit(s.last()) {
            spec_digit_val(s.last()) as nat
        } else {
            0
        })
    }
}

/// The digit part of a number literal as `str::parse` sees it for unsigned
/// integers: an optional leading `+` is stripped.
pub open spec fn spec_strip_plus(s: Seq<char>) -> Seq<char> {
    if s.len() > 0 && s[0] == '+' {
        s.drop_first()
    } else {
        s
    }
}

/// What `str::parse` returns on `s` for an unsigned integer type whose
/// largest value is `max`: the value of the digits if they are well formed
/// and fit, and nothing otherwise.
pub open spec fn spec_parse_dec(s: Seq<char>, max: nat) -> Option<nat> {
    let ds = spec_strip_plus(s);
    if spec_all_digits(ds) && spec_digits_val(ds) <= max {
        Some(spec_digits_val(ds))
    } else {
        None
    }
}

/// A one-character string for a single decimal digit value.
fn digit_str(d: u32) -> (s: &'static str)
    requires
        d < 10,
    ensures
        s@ =~= seq![spec_digit_char(d as nat)],
{
    proof {
        reveal_strlit("0");
        reveal_strlit("1");
        reveal_strlit("2");
        reveal_strlit("3");
        reveal_strlit("4");
        reveal_strlit("5");
        reveal_strlit("6");
        reveal_strlit("7");
        reveal_strlit("8");
        reveal_strlit("9");
    }
    if d == 0 {
        "0"
    } else if d == 1 {
        "1"
    } else if d == 2 {
        "2"
    } else if d == 3 {
        "3"
    } else if d == 4 {
        "4"
    } else if d == 5 {
        "5"
    } else if d == 6 {
        "6"
    } else if d == 7 {
        "7"
    } else if d == 8 {
        "8"
    } else {
        "9"
    }
}

/// Renders `n` as its canonical decimal string.
pub fn u32_to_string(n: u32) -> (s: String)
    ensures
        s@ == spec_dec(n as nat),
    decreases n,
{
    if n < 10 {
        String::from_str(digit_str(n))
    } else {
        let mut s = u32_to_string(n / 10);
        s.append(digit_str(n % 10));
        proof {
            assert(s@ =~= spec_dec(n as nat));
        }
        s
    }
}

/// Renders `n` as its canonical decimal string.
pub fn u16_to_string(n: u16) -> (s: String)
    ensures
        s@ == spec_dec(n as nat),
{
    u32_to_string(n as u32)
}

/// The exec mirror of `spec_digit_val`.
fn digit_val(c: char) -> (d: i32)
    ensures
        d == spec_digit_val(c),
        -1 <= d < 10,
{
    match c {
        '0' => 0,
        '1' => 1,
        '2' => 2,
        '3' => 3,
        '4' => 4,
        '5' => 5,
        '6' => 6,
        '7' => 7,
        '8' => 8,
        '9' => 9,
        _ => -1,
    }
}

/// Appending a digit to a string of digits whose value is already over the
/// bound keeps the value over the bound.
proof fn lemma_digits_val_grows(s: Seq<char>, bound: nat)
    requires
        spec_digits_val(s) > bound,
    ensures
        forall|t: Seq<char>| t.len() == s.len() + 1 && t.drop_last() == s
            ==> spec_digits_val(t) > bound,
{
    assert forall|t: Seq<char>| t.len() == s.len() + 1 && t.drop_last() == s
        implies spec_digits_val(t) > bound by {
        assert(spec_digits_val(t) >= spec_digits_val(s) * 10);
        assert(spec_digits_val(s) * 10 >= spec_digits_val(s));
    }
}

/// Parses decimal text as `str::parse` would for an unsigned type with
/// largest value `max`; the accumulator saturates just above the cap so it
/// never overflows.
fn parse_dec_capped(s: &str, max: u64) -> (r: Option<u64>)
    requires
        max <= u32::MAX,
    ensures
        r matches Some(v) ==> spec_parse_dec(s@, max as nat) == Some(v as nat),
        r is None ==> spec_parse_dec(s@, max as nat) is None,
{
    let n = s.unicode_len();
    let start: usize = if n > 0 && s.get_char(0) == '+' {
        1
    } else {
        0
    };
    if n == start {
        return None;
    }
    let ghost ds = spec_strip_plus(s@);
    proof {
        assert(ds =~= s@.subrange(start as int, n as int));
    }
    let mut i: usize = start;
    let mut acc: u64 = 0;
    while i < n
        invariant
            start <= i <= n,
            n == s@.len(),
            start < n,
            max <= u32::MAX,
            ds == s@.subrange(start as int, n as int),
            ds == spec_strip_plus(s@),
            forall|j: int| start <= j < i ==> spec_is_digit(#[trigger] s@[j]),
            spec_digits_val(s@.subrange(start as int, i as int)) <= max
                ==> acc == spec_digits_val(s@.subrange(start as int, i as int)),
            spec_digits_val(s@.subrange(start as int, i as int)) > max ==> acc == max + 1,
            acc <= max + 1,
        decreases n - i,
    {
        let c = s.get_char(i);
        let d = digit_val(c);
        if d < 0 {
            proof {
                assert(ds[i - start] == s@[i as int]);
                assert(!spec_is_digit(ds[i - start]));
                assert(!spec_all_digits(ds));
            }
            return None;
        }
        let ghost prefix = s@.subrange(start as int, i as int);
        let ghost next_prefix = s@.subrange(start as int, i as int + 1);
        proof {
            assert(next_prefix.drop_last() =~= prefix);
            assert(next_prefix.last() == c);
            if spec_digits_val(prefix) > max {
                lemma_digits_val_grows(prefix, max as nat);
            }
        }
        let wide: u64 = acc * 10 + (d as u64);
        acc = if wide > max {
            max + 1
        } else {
            wide
        };
        i = i + 1;
    }
    proof {
        assert(s@.subrange(start as int, n as int) == ds);
        assert(spec_all_digits(ds));
    }
    if acc > max {
        None
    } else {
        Some(acc)
    }
}

/// Parses decimal text exactly as `str::parse::<u16>` does.
pub fn parse_u16(s: &str) -> (r: Option<u16>)
    ensures
        r matches Some(v) ==> spec_parse_dec(s@, u16::MAX as nat) == Some(v as nat),
        r is None ==> spec_parse_dec(s@, u16::MAX as nat) is None,
{
    match parse_dec_capped(s, 65535) {
        Some(v) => Some(v as u16),
        None => None,
    }
}

/// Parses decimal text exactly as `str::parse::<u32>` does.
pub fn parse_u32(s: &str) -> (r: Option<u32>)
    ensures
        r matches Some(v) ==> spec_parse_dec(s@, u32::MAX as nat) == Some(v as nat),
        r is None ==> spec_parse_dec(s@, u32::MAX as nat) is None,
{
    match parse_dec_capped(s, 0xffff_ffff) {
        Some(v) => Some(v as u32),
        None => None,
    }
}

} // verus!
