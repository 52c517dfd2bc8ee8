//! Renders one peak pair as a single text record: two space-separated numeric
//! fields and a terminating newline, in one of three numeric representations.

use vstd::prelude::*;
use vstd::arithmetic::div_mod::{lemma_fundamental_div_mod, lemma_mod_division_less_than_divisor};
use crate::MinMax;
use crate::numfmt::{
    append_dec_i64, append_dec_u64, append_padded_u64, pow10_u64, spec_abs, spec_dec_int,
    spec_dec_nat, spec_padded_nat, spec_pow10, spec_tdiv, tdiv_i64,
};

verus! {

/// The numeric representation chosen for the emitted records.
#[derive(Debug, Copy, Clone)]
pub enum OutputType {
    Byte,
    Short,
    Float,
}

/// `a / 65535` scaled by `10^p` and rounded to the nearest integer
/// (a tie cannot arise: `2 * 10^p * a` is even while `65535 * odd` is odd).
pub open spec fn spec_scaled(a: nat, p: nat) -> nat {
    ((2 * a * spec_pow10(p) + 65535) / (2 * 65535)) as nat
}

/// The scaled value is the nearest integer to the rational
/// `a * 10^p / 65535`: scaled back up by the doubled divisor it sits within
/// half a divisor of the doubled numerator. A tie cannot arise, because
/// `2 * a * 10^p` is even while `65535 * (2k + 1)` is odd.
pub proof fn lemma_scaled_nearest(a: nat, p: nat)
    ensures
        2 * 65535 * spec_scaled(a, p) <= 2 * a * spec_pow10(p) + 65535,
        2 * a * spec_pow10(p) - 65535 <= 2 * 65535 * spec_scaled(a, p),
{
    let x = (2 * a * spec_pow10(p) + 65535) as int;
    lemma_fundamental_div_mod(x, 131070int);
    lemma_mod_division_less_than_divisor(x, 131070int);
}

/// The fixed-point rendering of the rational `v / 65535` with exactly `p`
/// digits after the decimal point (no point at all when `p == 0`), rounded
/// to the nearest representable value.
pub open spec fn spec_fixed(v: int, p: nat) -> Seq<char> {
    let sign: Seq<char> = if v < 0 {
        seq!['-']
    } else {
        Seq::empty()
    };
    let n = spec_scaled(spec_abs(v), p);
    if p == 0 {
        sign + spec_dec_nat(n)
    } else {
        sign + spec_dec_nat(n / spec_pow10(p)) + seq!['.'] + spec_padded_nat(
            n % spec_pow10(p),
            p,
        )
    }
}

/// One textual record for the peak pair `(mn, mx)` under output type `t` and
/// float precision `p`: two space-separated fields and a newline.
pub open spec fn spec_format_peak(mn: int, mx: int, t: OutputType, p: nat) -> Seq<char> {
    match t {
        OutputType::Byte => spec_dec_int(spec_tdiv(mn, 257)) + seq![' '] + spec_dec_int(
            spec_tdiv(mx, 257),
        ) + seq!['\n'],
        OutputType::Short => spec_dec_int(mn) + seq![' '] + spec_dec_int(mx) + seq!['\n'],
        OutputType::Float => spec_fixed(mn, p) + seq![' '] + spec_fixed(mx, p) + seq!['\n'],
    }
}

fn append_fixed(s: &mut String, v: i64, p: usize)
    requires
        -32768 <= v <= 32767,
        p <= 7,
    ensures
        final(s)@ == old(s)@ + spec_fixed(v as int, p as nat),
{
    if v < 0 {
        proof {
            reveal_strlit("-");
            assert("-"@ =~= seq!['-']);
        }
        s.append("-");
    }
    let a: u64 = if v < 0 {
        (-v) as u64
    } else {
        v as u64
    };
    let pw: u64 = pow10_u64(p);
    proof {
        assert(2 * a * pw <= 2 * 32768 * 10000000) by (nonlinear_arith)
            requires
                a <= 32768,
                1 <= pw <= 10000000,
        ;
    }
    let n: u64 = (2 * a * pw + 65535) / (2 * 65535);
    assert(n as nat == spec_scaled(a as nat, p as nat));
    if p == 0 {
        append_dec_u64(s, n);
    } else {
        append_dec_u64(s, n / pw);
        proof {
            reveal_strlit(".");
            assert("."@ =~= seq!['.']);
        }
        s.append(".");
        append_padded_u64(s, n % pw, p);
    }
    assert(s@ =~= old(s)@ + spec_fixed(v as int, p as nat));
}

/// Encodes one peak pair as its textual record.
///
/// `Short` emits the two values as signed decimals; `Byte` first divides each
/// by `257` (the full unsigned 16-bit span over the 8-bit span) with
/// truncating division; `Float` emits each value divided by `65535` as a
/// fixed-point decimal with `precision` digits after the point.
pub fn format_peak(peak: &MinMax<i16>, output_type: &OutputType, precision: usize) -> (r: String)
    requires
        precision <= 7,
    ensures
        r@ == spec_format_peak(peak.min as int, peak.max as int, *output_type, precision as nat),
{
    let mut s = String::new();
    proof {
        reveal_strlit(" ");
        reveal_strlit("\n");
        assert(" "@ =~= seq![' ']);
        assert("\n"@ =~= seq!['\n']);
    }
    match output_type {
        OutputType::Byte => {
            append_dec_i64(&mut s, tdiv_i64(peak.min as i64, 257));
            s.append(" ");
            append_dec_i64(&mut s, tdiv_i64(peak.max as i64, 257));
            s.append("\n");
        },
        OutputType::Short => {
            append_dec_i64(&mut s, peak.min as i64);
            s.append(" ");
            append_dec_i64(&mut s, peak.max as i64);
            s.append("\n");
        },
        OutputType::Float => {
            append_fixed(&mut s, peak.min as i64, precision);
            s.append(" ");
            append_fixed(&mut s, peak.max as i64, precision);
            s.append("\n");
        },
    }
    assert(s@ =~= spec_format_peak(
        peak.min as int,
        peak.max as int,
        *output_type,
        precision as nat,
    ));
    s
}

} // verus!
