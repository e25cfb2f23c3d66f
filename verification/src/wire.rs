//! String-to-integer coercion for the record schema.
//!
//! The registrar transmits the integer fields of a DNS record (`id`,
//! `ttl`, `prio`) as JSON strings holding a decimal number.  This module
//! holds the one coercion helper every integer field goes through: a
//! non-empty, digits-only string whose value fits in a signed 32-bit
//! integer is accepted, everything else (signs, whitespace, the empty
//! string, values past `i32::MAX`) is rejected.  The inverse direction,
//! printing a non-negative integer as its decimal digits, serves
//! re-serialization of decoded records.

use vstd::prelude::*;

verus! {

/// A decimal digit, `'0'` through `'9'`.
pub open spec fn is_digit(c: char) -> bool {
    '0' as u32 <= c as u32 && c as u32 <= '9' as u32
}

/// The numeric value of a decimal digit.
pub open spec fn spec_digit_value(c: char) -> int
    recommends
        is_digit(c),
{
    c as u32 - '0' as u32
}

/// Every character of `s` is a decimal digit.
pub open spec fn all_digits(s: Seq<char>) -> bool {
    forall|i: int| 0 <= i < s.len() ==> is_digit(#[trigger] s[i])
}

/// The numeric value of a digit string, most significant digit first.
pub open spec fn digits_value(s: Seq<char>) -> int
    recommends
        all_digits(s),
    decreases s.len(),
{
    if s.len() == 0 {
        0
    } else {
        digits_value(s.drop_last()) * 10 + spec_digit_value(s.last())
    }
}

/// What the coercion accepts: a non-empty, digits-only string whose
/// value fits in `i32`, and nothing else.
pub open spec fn wire_i32_spec(s: Seq<char>) -> Option<i32> {
    if s.len() > 0 && all_digits(s) && digits_value(s) <= i32::MAX as int {
        Some(digits_value(s) as i32)
    } else {
        None
    }
}

/// The numeric value of a decimal digit, or `None` for any other character.
pub fn digit_value(c: char) -> (r: Option<u32>)
    ensures
        r is Some <==> is_digit(c),
        r matches Some(d) ==> d == spec_digit_value(c) && d <= 9,
{
    let u = c as u32;
    if '0' as u32 <= u && u <= '9' as u32 {
        Some(u - '0' as u32)
    } else {
        None
    }
}

proof fn lemma_digits_value_nonneg(s: Seq<char>)
    requires
        all_digits(s),
    ensures
        digits_value(s) >= 0,
    decreases s.len(),
{
    if s.len() > 0 {
        assert(all_digits(s.drop_last()));
        lemma_digits_value_nonneg(s.drop_last());
    }
}

/// The value of a digit string never falls when more digits follow.
proof fn lemma_digits_value_prefix(s: Seq<char>, i: int)
    requires
        all_digits(s),
        0 <= i <= s.len(),
    ensures
        digits_value(s.take(i)) <= digits_value(s),
    decreases s.len() - i,
{
    if i < s.len() {
        let t = s.take(i + 1);
        assert(t.drop_last() =~= s.take(i));
        assert(all_digits(t));
        lemma_digits_value_nonneg(s.take(i));
        assert(digits_value(t) == digits_value(s.take(i)) * 10 + spec_digit_value(t.last()));
        lemma_digits_value_prefix(s, i + 1);
    } else {
        assert(s.take(i) =~= s);
    }
}

/// Whatever the coercion accepts is non-negative: the wire form has no
/// sign, so no integer field of a decoded record can be negative.
pub proof fn lemma_wire_i32_nonneg(s: Seq<char>)
    ensures
        wire_i32_spec(s) matches Some(v) ==> v >= 0,
{
    if s.len() > 0 && all_digits(s) {
        lemma_digits_value_nonneg(s);
    }
}

/// Parse a wire integer: accepts exactly what [`wire_i32_spec`] accepts.
pub fn parse_wire_i32(s: &[char]) -> (r: Option<i32>)
    ensures
        r == wire_i32_spec(s@),
{
    if s.len() == 0 {
        return None;
    }
    let mut acc: u64 = 0;
    let mut i: usize = 0;
    while i < s.len()
        invariant
            0 <= i <= s@.len(),
            all_digits(s@.take(i as int)),
            acc == digits_value(s@.take(i as int)),
            acc <= i32::MAX as u64,
        decreases s@.len() - i,
    {
        match digit_value(s[i]) {
            None => {
                assert(!all_digits(s@));
                return None;
            },
            Some(d) => {
                let next: u64 = acc * 10 + d as u64;
                assert(s@.take(i + 1 as int).drop_last() =~= s@.take(i as int));
                assert(next == digits_value(s@.take(i + 1 as int)));
                if next > i32::MAX as u64 {
                    proof {
                        if all_digits(s@) {
                            lemma_digits_value_prefix(s@, i + 1 as int);
                        }
                    }
                    return None;
                }
                acc = next;
            },
        }
        i = i + 1;
    }
    assert(s@.take(i as int) =~= s@);
    Some(acc as i32)
}

/// The digit character for a value between 0 and 9.
pub open spec fn spec_digit_char(d: int) -> char
    recommends
        0 <= d <= 9,
{
    if d == 0 {
        '0'
    } else if d == 1 {
        '1'
    } else if d == 2 {
        '2'
    } else if d == 3 {
        '3'
    } else if d == 4 {
        '4'
    } else if d == 5 {
        '5'
    } else if d == 6 {
        '6'
    } else if d == 7 {
        '7'
    } else if d == 8 {
        '8'
    } else {
        '9'
    }
}

fn digit_char(d: u32) -> (c: char)
    requires
        d <= 9,
    ensures
        c == spec_digit_char(d as int),
        is_digit(c),
        spec_digit_value(c) == d as int,
{
    match d {
        0 => '0',
        1 => '1',
        2 => '2',
        3 => '3',
        4 => '4',
        5 => '5',
        6 => '6',
        7 => '7',
        8 => '8',
        _ => '9',
    }
}

/// The decimal digits of a non-negative number, most significant first.
pub open spec fn spec_decimal_digits(n: int) -> Seq<char>
    recommends
        n >= 0,
    decreases n,
{
    if n < 10 {
        seq![spec_digit_char(n)]
    } else {
        spec_decimal_digits(n / 10).push(spec_digit_char(n % 10))
    }
}

/// The printed digits of `n` are all digits and read back as `n`.
pub proof fn lemma_decimal_digits_value(n: int)
    requires
        n >= 0,
    ensures
        all_digits(spec_decimal_digits(n)),
        spec_decimal_digits(n).len() > 0,
        digits_value(spec_decimal_digits(n)) == n,
    decreases n,
{
    if n < 10 {
        let s = spec_decimal_digits(n);
        assert(s == seq![spec_digit_char(n)]);
        assert(s.len() == 1 && s.last() == spec_digit_char(n));
        assert(s.drop_last() =~= Seq::<char>::empty());
        assert(digits_value(s.drop_last()) == 0);
        assert(digits_value(s) == 0 * 10 + spec_digit_value(s.last()));
    } else {
        lemma_decimal_digits_value(n / 10);
        let s = spec_decimal_digits(n);
        assert(s.drop_last() =~= spec_decimal_digits(n / 10));
        assert(s.last() == spec_digit_char(n % 10));
        assert(digits_value(s) == (n / 10) * 10 + n % 10);
    }
}

fn push_decimal_digits(n: u32, v: &mut Vec<char>)
    ensures
        final(v)@ == old(v)@ + spec_decimal_digits(n as int),
    decreases n,
{
    if n < 10 {
        v.push(digit_char(n));
        assert(v@ =~= old(v)@ + spec_decimal_digits(n as int));
    } else {
        push_decimal_digits(n / 10, v);
        v.push(digit_char(n % 10));
        assert(v@ =~= old(v)@ + spec_decimal_digits(n as int));
    }
}

/// Print a non-negative 32-bit integer in the wire form the registrar
/// uses: a decimal digit string.  Its value reads back exactly.
pub fn i32_to_wire(n: i32) -> (v: Vec<char>)
    requires
        n >= 0,
    ensures
        v@ == spec_decimal_digits(n as int),
        wire_i32_spec(v@) == Some(n),
{
    let mut v: Vec<char> = Vec::new();
    push_decimal_digits(n as u32, &mut v);
    proof {
        assert(v@ =~= spec_decimal_digits(n as int));
        lemma_decimal_digits_value(n as int);
    }
    v
}

/// Parsing is a left inverse of printing: the coercion returns exactly
/// the integer whose digits were printed.
pub proof fn lemma_wire_i32_roundtrip(n: i32)
    requires
        n >= 0,
    ensures
        wire_i32_spec(spec_decimal_digits(n as int)) == Some(n),
{
    lemma_decimal_digits_value(n as int);
}

} // verus!
