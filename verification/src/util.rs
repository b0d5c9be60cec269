use vstd::prelude::*;

verus! {

// ─── Saturating integer arithmetic ───────────────────────────────────────────

/// Clamps a mathematical integer into the `i128` range.
pub open spec fn clamp_i128(x: int) -> int {
    if x > i128::MAX {
        i128::MAX as int
    } else if x < i128::MIN {
        i128::MIN as int
    } else {
        x
    }
}

/// Clamps a mathematical integer into the `u64` range (never below zero).
pub open spec fn clamp_u64(x: int) -> int {
    if x > u64::MAX {
        u64::MAX as int
    } else if x < 0 {
        0
    } else {
        x
    }
}

/// Clamps a mathematical integer into the `u32` range (never below zero).
pub open spec fn clamp_u32(x: int) -> int {
    if x > u32::MAX {
        u32::MAX as int
    } else if x < 0 {
        0
    } else {
        x
    }
}

/// `a + b`, saturating at the bounds of `i128`.
pub fn sat_add(a: i128, b: i128) -> (r: i128)
    ensures
        r == clamp_i128(a + b),
{
    match a.checked_add(b) {
        Some(v) => v,
        None => {
            if b > 0 {
                i128::MAX
            } else {
                i128::MIN
            }
        },
    }
}

/// `a - b`, saturating at the bounds of `i128`.
pub fn sat_sub(a: i128, b: i128) -> (r: i128)
    ensures
        r == clamp_i128(a - b),
{
    match a.checked_sub(b) {
        Some(v) => v,
        None => {
            if b < 0 {
                i128::MAX
            } else {
                i128::MIN
            }
        },
    }
}

/// `a * b`, saturating at the bounds of `i128`.
pub fn sat_mul(a: i128, b: i128) -> (r: i128)
    ensures
        r == clamp_i128(a * b),
{
    match a.checked_mul(b) {
        Some(v) => v,
        None => {
            if (a > 0 && b > 0) || (a < 0 && b < 0) {
                assert(a * b > 0) by (nonlinear_arith)
                    requires
                        (a > 0 && b > 0) || (a < 0 && b < 0),
                ;
                i128::MAX
            } else {
                assert(a * b <= 0) by (nonlinear_arith)
                    requires
                        !((a > 0 && b > 0) || (a < 0 && b < 0)),
                ;
                i128::MIN
            }
        },
    }
}

/// `a + b`, saturating at `u64::MAX`.
pub fn sat_add_u64(a: u64, b: u64) -> (r: u64)
    ensures
        r == clamp_u64(a + b),
{
    if a > u64::MAX - b {
        u64::MAX
    } else {
        a + b
    }
}

/// `a - b`, saturating at zero.
pub fn sat_sub_u64(a: u64, b: u64) -> (r: u64)
    ensures
        r == clamp_u64(a - b),
{
    if a < b {
        0
    } else {
        a - b
    }
}

/// `a + b`, saturating at `u32::MAX`.
pub fn sat_add_u32(a: u32, b: u32) -> (r: u32)
    ensures
        r == clamp_u32(a + b),
{
    if a > u32::MAX - b {
        u32::MAX
    } else {
        a + b
    }
}

// ─── Decimal identifiers ──────────────────────────────────────────────────────

/// The character for a decimal digit.
pub open spec fn digit_char(d: nat) -> char {
    if d == 0 {
        '0'
    } else if d == 1 {
        '1'
    } else if d == 2 {
        '2'
    } else if d == 3 {
        '3'
    } else if d == 4 {
        '4'
    } else if d == 5 {
        '5'
    } else if d == 6 {
        '6'
    } else if d == 7 {
        '7'
    } else if d == 8 {
        '8'
    } else {
        '9'
    }
}

/// The numeric value of a decimal digit character.
pub open spec fn char_digit(c: char) -> nat {
    if c == '1' {
        1
    } else if c == '2' {
        2
    } else if c == '3' {
        3
    } else if c == '4' {
        4
    } else if c == '5' {
        5
    } else if c == '6' {
        6
    } else if c == '7' {
        7
    } else if c == '8' {
        8
    } else if c == '9' {
        9
    } else {
        0
    }
}

/// Whether a character is an ASCII decimal digit.
pub open spec fn is_digit(c: char) -> bool {
    c == '0' || c == '1' || c == '2' || c == '3' || c == '4' || c == '5' || c == '6' || c == '7'
        || c == '8' || c == '9'
}

/// The shortest base-ten spelling of `n` (no leading zeros).
pub open spec fn decimal(n: nat) -> Seq<char>
    decreases n,
{
    if n < 10 {
        seq![digit_char(n)]
    } else {
        decimal(n / 10).push(digit_char(n % 10))
    }
}

/// The number that a string of decimal digits spells.
pub open spec fn decimal_value(s: Seq<char>) -> nat
    decreases s.len(),
{
    if s.len() == 0 {
        0
    } else {
        decimal_value(s.drop_last()) * 10 + char_digit(s.last())
    }
}

/// An identifier made of a prefix followed by the decimal spelling of a counter.
pub open spec fn spec_format_id(prefix: Seq<char>, n: nat) -> Seq<char> {
    prefix + decimal(n)
}

proof fn lemma_digit_roundtrip(d: nat)
    requires
        d < 10,
    ensures
        char_digit(digit_char(d)) == d,
        is_digit(digit_char(d)),
{
}

/// Reading back the decimal spelling of a number gives the number.
pub proof fn lemma_decimal_roundtrip(n: nat)
    ensures
        decimal_value(decimal(n)) == n,
        decimal(n).len() >= 1,
        forall|i: int| 0 <= i < decimal(n).len() ==> is_digit(#[trigger] decimal(n)[i]),
    decreases n,
{
    if n < 10 {
        lemma_digit_roundtrip(n);
        let s = decimal(n);
        assert(s.drop_last() =~= Seq::<char>::empty());
        assert(decimal_value(s.drop_last()) == 0);
    } else {
        lemma_decimal_roundtrip(n / 10);
        lemma_digit_roundtrip(n % 10);
        let s = decimal(n);
        assert(s.drop_last() =~= decimal(n / 10));
        assert(s.last() == digit_char(n % 10));
        assert(n == (n / 10) * 10 + n % 10);
    }
}

/// Identifiers built with the same prefix from different counters differ, and the counter
/// can be read back from the part after the prefix.
pub proof fn lemma_format_id_unique_and_readable(prefix: Seq<char>, a: nat, b: nat)
    ensures
        spec_format_id(prefix, a).subrange(0, prefix.len() as int) == prefix,
        decimal_value(spec_format_id(prefix, a).subrange(prefix.len() as int, spec_format_id(prefix, a).len() as int)) == a,
        a != b ==> spec_format_id(prefix, a) != spec_format_id(prefix, b),
{
    let ia = spec_format_id(prefix, a);
    assert(ia.subrange(0, prefix.len() as int) =~= prefix);
    assert(ia.subrange(prefix.len() as int, ia.len() as int) =~= decimal(a));
    lemma_decimal_roundtrip(a);
    if a != b {
        let ib = spec_format_id(prefix, b);
        lemma_decimal_roundtrip(b);
        if ia == ib {
            assert(ia.subrange(prefix.len() as int, ia.len() as int) =~= ib.subrange(
                prefix.len() as int,
                ib.len() as int,
            ));
            assert(ib.subrange(prefix.len() as int, ib.len() as int) =~= decimal(b));
        }
    }
}

fn digit_str(d: u64) -> (s: &'static str)
    requires
        d < 10,
    ensures
        s@ == seq![digit_char(d as nat)],
{
    if d == 0 {
        proof { reveal_strlit("0"); }
        "0"
    } else if d == 1 {
        proof { reveal_strlit("1"); }
        "1"
    } else if d == 2 {
        proof { reveal_strlit("2"); }
        "2"
    } else if d == 3 {
        proof { reveal_strlit("3"); }
        "3"
    } else if d == 4 {
        proof { reveal_strlit("4"); }
        "4"
    } else if d == 5 {
        proof { reveal_strlit("5"); }
        "5"
    } else if d == 6 {
        proof { reveal_strlit("6"); }
        "6"
    } else if d == 7 {
        proof { reveal_strlit("7"); }
        "7"
    } else if d == 8 {
        proof { reveal_strlit("8"); }
        "8"
    } else {
        proof { reveal_strlit("9"); }
        "9"
    }
}

/// Appends the decimal spelling of `n` to `s`.
fn push_decimal(s: &mut String, n: u64)
    ensures
        final(s)@ == old(s)@ + decimal(n as nat),
    decreases n,
{
    if n < 10 {
        s.append(digit_str(n));
    } else {
        push_decimal(s, n / 10);
        s.append(digit_str(n % 10));
        proof {
            assert(decimal(n as nat) == decimal((n / 10) as nat).push(digit_char((n % 10) as nat)));
        }
    }
}

/// Builds an identifier from a prefix and a counter, such as `refund_1`.
pub fn format_id(prefix: &str, n: u64) -> (r: String)
    ensures
        r@ == spec_format_id(prefix@, n as nat),
{
    let mut s = String::from_str(prefix);
    push_decimal(&mut s, n);
    s
}

} // verus!
verus! {
/// Rust's integer division of `a` by a positive `b`: the quotient rounded toward zero.
pub open spec fn trunc_div(a: int, b: int) -> int {
    if a >= 0 {
        a / b
    } else {
        -((-a) / b)
    }
}

/// `a / b` rounded toward zero, for a positive divisor.
pub fn div_trunc(a: i128, b: i128) -> (r: i128)
    requires
        b > 0,
    ensures
        r == trunc_div(a as int, b as int),
{
    a / b
}
}
