//! Decimal digit rendering of integers, and truncating (toward-zero)
//! division, both specified exactly and built without any formatting macro.

use vstd::prelude::*;
use vstd::arithmetic::div_mod::lemma_div_nonincreasing;

verus! {

/// Truncating (toward-zero) integer division, for a positive divisor.
pub open spec fn spec_tdiv(a: int, b: int) -> int
    recommends
        b > 0,
{
    if a >= 0 {
        a / b
    } else {
        -((-a) / b)
    }
}

pub open spec fn spec_abs(v: int) -> nat {
    if v < 0 {
        (-v) as nat
    } else {
        v as nat
    }
}

/// Truncating division of `a` by a positive divisor `b`, computed on
/// magnitudes so that both signs of `a` are covered.
pub fn tdiv_i64(a: i64, b: i64) -> (r: i64)
    requires
        a > i64::MIN,
        b > 0,
    ensures
        r == spec_tdiv(a as int, b as int),
        spec_abs(r as int) <= spec_abs(a as int),
{
    if a < 0 {
        let m: u64 = (-a) as u64;
        let q: u64 = m / (b as u64);
        proof {
            lemma_div_nonincreasing(m as int, b as int);
        }
        -(q as i64)
    } else {
        let q: u64 = (a as u64) / (b as u64);
        proof {
            lemma_div_nonincreasing(a as int, b as int);
        }
        q as i64
    }
}

/// The character for a single decimal digit.
pub open spec fn spec_digit_char(d: int) -> char {
    if d == 0 {
        '0'
    } else if d == 1 {
        '1'
    } else if d == 2 {
        '2'
    } else if d == 3 {
        '3'
    } else if d == 4 {
        '4'
    } else if d == 5 {
        '5'
    } else if d == 6 {
        '6'
    } else if d == 7 {
        '7'
    } else if d == 8 {
        '8'
    } else {
        '9'
    }
}

/// The decimal representation of a natural number, without leading zeros
/// (a single `'0'` for zero).
pub open spec fn spec_dec_nat(n: nat) -> Seq<char>
    decreases n,
{
    if n < 10 {
        seq![spec_digit_char(n as int)]
    } else {
        spec_dec_nat(n / 10) + seq![spec_digit_char((n % 10) as int)]
    }
}

/// The decimal representation of an integer: a leading `'-'` for negatives.
pub open spec fn spec_dec_int(v: int) -> Seq<char> {
    if v < 0 {
        seq!['-'] + spec_dec_nat((-v) as nat)
    } else {
        spec_dec_nat(v as nat)
    }
}

/// Exactly `p` decimal digits of `n`, zero-padded on the left; `n` is taken
/// modulo `10^p`.
pub open spec fn spec_padded_nat(n: nat, p: nat) -> Seq<char>
    decreases p,
{
    if p == 0 {
        Seq::empty()
    } else {
        spec_padded_nat(n / 10, (p - 1) as nat) + seq![spec_digit_char((n % 10) as int)]
    }
}

pub open spec fn spec_pow10(p: nat) -> nat
    decreases p,
{
    if p == 0 {
        1
    } else {
        10 * spec_pow10((p - 1) as nat)
    }
}

fn append_digit(s: &mut String, d: u64)
    requires
        d < 10,
    ensures
        final(s)@ == old(s)@ + seq![spec_digit_char(d as int)],
{
    let lit: &str = if d == 0 {
        "0"
    } else if d == 1 {
        "1"
    } else if d == 2 {
        "2"
    } else if d == 3 {
        "3"
    } else if d == 4 {
        "4"
    } else if d == 5 {
        "5"
    } else if d == 6 {
        "6"
    } else if d == 7 {
        "7"
    } else if d == 8 {
        "8"
    } else {
        "9"
    };
    proof {
        reveal_strlit("0");
        reveal_strlit("1");
        reveal_strlit("2");
        reveal_strlit("3");
        reveal_strlit("4");
        reveal_strlit("5");
        reveal_strlit("6");
        reveal_strlit("7");
        reveal_strlit("8");
        reveal_strlit("9");
        assert(lit@ =~= seq![spec_digit_char(d as int)]);
    }
    s.append(lit);
}

/// Appends the decimal digits of `n` to `s`.
pub fn append_dec_u64(s: &mut String, n: u64)
    ensures
        final(s)@ == old(s)@ + spec_dec_nat(n as nat),
    decreases n,
{
    if n >= 10 {
        append_dec_u64(s, n / 10);
        append_digit(s, n % 10);
        assert(s@ =~= old(s)@ + spec_dec_nat(n as nat));
    } else {
        append_digit(s, n);
    }
}

/// Appends the decimal representation of `v`, with a leading `'-'` when
/// `v` is negative.
pub fn append_dec_i64(s: &mut String, v: i64)
    requires
        v > i64::MIN,
    ensures
        final(s)@ == old(s)@ + spec_dec_int(v as int),
{
    if v < 0 {
        proof {
            reveal_strlit("-");
            assert("-"@ =~= seq!['-']);
        }
        s.append("-");
        append_dec_u64(s, (-v) as u64);
        assert(s@ =~= old(s)@ + spec_dec_int(v as int));
    } else {
        append_dec_u64(s, v as u64);
    }
}

/// Appends exactly `p` decimal digits of `n`, zero-padded on the left.
pub fn append_padded_u64(s: &mut String, n: u64, p: usize)
    ensures
        final(s)@ == old(s)@ + spec_padded_nat(n as nat, p as nat),
    decreases p,
{
    if p > 0 {
        append_padded_u64(s, n / 10, p - 1);
        append_digit(s, n % 10);
        assert(s@ =~= old(s)@ + spec_padded_nat(n as nat, p as nat));
    } else {
        assert(s@ =~= old(s)@ + spec_padded_nat(n as nat, 0));
    }
}

pub fn pow10_u64(p: usize) -> (r: u64)
    requires
        p <= 7,
    ensures
        r == spec_pow10(p as nat),
        1 <= r <= 10000000,
{
    proof {
        reveal_with_fuel(spec_pow10, 9);
    }
    if p == 0 {
        1
    } else if p == 1 {
        10
    } else if p == 2 {
        100
    } else if p == 3 {
        1000
    } else if p == 4 {
        10000
    } else if p == 5 {
        100000
    } else if p == 6 {
        1000000
    } else {
        10000000
    }
}

} // verus!
