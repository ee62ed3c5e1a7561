//! Byte counts in binary units, as `sdiag` prints them.
//!
//! A count of a KiB or more is shown in the largest unit it reaches, with one
//! decimal. The count is first taken to the nearest value a double can hold
//! (ties to even), and that value divided by the unit is rounded to one
//! decimal, ties to even, which is how a double is printed with one decimal.
use vstd::prelude::*;
use vstd::arithmetic::power2::{pow2, lemma2_to64, lemma_pow2_unfold, lemma_pow2_strictly_increases};

use crate::text::{decimal, digit_char, push_char, push_decimal};

verus! {

pub const KIB: u64 = 1024;

pub const MIB: u64 = 1048576;

pub const GIB: u64 = 1073741824;

/// Number of binary digits of `n`.
pub open spec fn bit_length(n: nat) -> nat
    decreases n,
{
    if n == 0 {
        0
    } else {
        1 + bit_length(n / 2)
    }
}

/// `q + r / d` rounded to an integer, ties to even.
pub open spec fn round_half_even(q: nat, r: nat, d: nat) -> nat {
    if 2 * r > d || (2 * r == d && q % 2 == 1) {
        q + 1
    } else {
        q
    }
}

/// The nearest integer to `n` that a double holds exactly: `n` itself when it
/// has at most 53 significant bits, else `n` rounded to 53 significant bits,
/// ties to even.
pub open spec fn nearest_double(n: nat) -> nat {
    if bit_length(n) <= 53 {
        n
    } else {
        let p = pow2((bit_length(n) - 53) as nat);
        round_half_even(n / p, n % p, p) * p
    }
}

/// `v / unit` in tenths, rounded to the nearest tenth, ties to even.
pub open spec fn tenths(v: nat, unit: nat) -> nat {
    round_half_even((10 * v) / unit, (10 * v) % unit, unit)
}

/// A number of tenths written with one decimal, e.g. `12` as `1.2`.
pub open spec fn one_decimal(t: nat) -> Seq<char> {
    decimal(t / 10) + seq!['.', digit_char(t % 10)]
}

/// How a byte count is printed: in GiB, MiB or KiB with one decimal once it
/// reaches that unit, else as a plain number of bytes.
pub open spec fn bytes_text(b: nat) -> Seq<char> {
    if b >= GIB {
        one_decimal(tenths(nearest_double(b), GIB as nat)) + " GiB"@
    } else if b >= MIB {
        one_decimal(tenths(nearest_double(b), MIB as nat)) + " MiB"@
    } else if b >= KIB {
        one_decimal(tenths(nearest_double(b), KIB as nat)) + " KiB"@
    } else {
        decimal(b) + " bytes"@
    }
}

proof fn lemma_bit_length_bound(n: nat, k: nat)
    requires
        n < pow2(k),
    ensures
        bit_length(n) <= k,
    decreases k,
{
    if n > 0 {
        if k == 0 {
            lemma2_to64();
        } else {
            lemma_pow2_unfold(k);
            lemma_bit_length_bound(n / 2, (k - 1) as nat);
        }
    }
}

/// The nearest double to `n`, as an integer.
fn nearest_double_of(n: u64) -> (r: u128)
    ensures
        r == nearest_double(n as nat),
{
    let mut len: u32 = 0;
    let mut m: u64 = n;
    proof {
        lemma2_to64();
        lemma_bit_length_bound(n as nat, 64);
    }
    while m > 0
        invariant
            bit_length(n as nat) == len + bit_length(m as nat),
            bit_length(n as nat) <= 64,
        decreases m,
    {
        m = m / 2;
        len = len + 1;
    }
    if len <= 53 {
        return n as u128;
    }
    let shift = len - 53;
    let mut p: u64 = 1;
    let mut k: u32 = 0;
    while k < shift
        invariant
            k <= shift <= 11,
            p == pow2(k as nat),
        decreases shift - k,
    {
        proof {
            lemma_pow2_unfold((k + 1) as nat);
            lemma2_to64();
            if k + 1 < 11 {
                lemma_pow2_strictly_increases((k + 1) as nat, 11);
            }
        }
        p = p * 2;
        k = k + 1;
    }
    let q = n / p;
    let rem = n % p;
    let twice: u128 = 2 * (rem as u128);
    let q2: u64 = if twice > p as u128 || (twice == p as u128 && q % 2 == 1) {
        assert(q < u64::MAX) by (nonlinear_arith)
            requires
                p >= 2,
                q == n / p,
        ;
        q + 1
    } else {
        q
    };
    assert((q2 as u128) * (p as u128) <= u64::MAX as u128 * 2048) by (nonlinear_arith)
        requires
            p <= 2048,
    ;
    (q2 as u128) * (p as u128)
}

/// Appends `t` tenths written with one decimal.
fn push_one_decimal(out: &mut String, t: u128)
    requires
        t / 10 <= u64::MAX,
    ensures
        final(out)@ == old(out)@ + one_decimal(t as nat),
{
    push_decimal(out, (t / 10) as u64);
    push_char(out, '.');
    let d = (t % 10) as u8;
    push_char(out, (48u8 + d) as char);
    assert(old(out)@ + one_decimal(t as nat) == old(out)@ + decimal((t / 10) as nat) + seq!['.']
        + seq![digit_char((t % 10) as nat)]);
}

/// Appends `bytes` in `unit`, rounded to a tenth.
fn push_in_unit(out: &mut String, bytes: u64, unit: u64)
    requires
        unit == KIB || unit == MIB || unit == GIB,
    ensures
        final(out)@ == old(out)@ + one_decimal(tenths(nearest_double(bytes as nat), unit as nat)),
{
    let v = nearest_double_of(bytes);
    assert(v <= u64::MAX as u128 + 2048) by {
        lemma_nearest_double_bound(bytes as nat);
    }
    let scaled = 10 * v;
    let q = scaled / (unit as u128);
    let rem = scaled % (unit as u128);
    let t = if 2 * rem > unit as u128 || (2 * rem == unit as u128 && q % 2 == 1) {
        q + 1
    } else {
        q
    };
    assert(t / 10 <= u64::MAX) by (nonlinear_arith)
        requires
            t <= q + 1,
            q == scaled / (unit as u128),
            unit >= 1024,
            scaled == 10 * v,
            v <= u64::MAX as u128 + 2048,
    ;
    push_one_decimal(out, t);
}

proof fn lemma_nearest_double_bound(n: nat)
    requires
        n <= u64::MAX,
    ensures
        nearest_double(n) <= n + 2048,
{
    if bit_length(n) > 53 {
        lemma2_to64();
        lemma_bit_length_bound(n, 64);
        let k = (bit_length(n) - 53) as nat;
        let p = pow2(k);
        if k < 11 {
            lemma_pow2_strictly_increases(k, 11);
        }
        assert(p > 0) by {
            vstd::arithmetic::power2::lemma_pow2_pos(k);
        }
        assert(n == (n / p) * p + n % p) by (nonlinear_arith)
            requires
                p > 0,
        ;
        assert(round_half_even(n / p, n % p, p) * p <= n + p) by (nonlinear_arith)
            requires
                p > 0,
                n % p >= 0,
                n == (n / p) * p + n % p,
                round_half_even(n / p, n % p, p) <= n / p + 1,
        ;
    }
}

/// A byte count in binary units: GiB, MiB or KiB with one decimal once it
/// reaches the unit, else plain bytes.
pub fn format_bytes(bytes: u64) -> (r: String)
    ensures
        r@ == bytes_text(bytes as nat),
{
    let mut r = String::new();
    if bytes >= GIB {
        push_in_unit(&mut r, bytes, GIB);
        r.append(" GiB");
    } else if bytes >= MIB {
        push_in_unit(&mut r, bytes, MIB);
        r.append(" MiB");
    } else if bytes >= KIB {
        push_in_unit(&mut r, bytes, KIB);
        r.append(" KiB");
    } else {
        push_decimal(&mut r, bytes);
        r.append(" bytes");
    }
    r
}

/// A whole number of units prints as that number with a zero decimal, in
/// the unit: `k` KiB or MiB (below the next unit) or `k` GiB, as long as the
/// count is exact in a double.
pub proof fn whole_units_print_exactly(k: nat, unit: nat)
    requires
        unit == KIB || unit == MIB || unit == GIB,
        k >= 1,
        unit != GIB ==> k < 1024,
        k * unit < pow2(53),
    ensures
        bytes_text(k * unit) == decimal(k) + (if unit == GIB {
            ".0 GiB"@
        } else if unit == MIB {
            ".0 MiB"@
        } else {
            ".0 KiB"@
        }),
{
    reveal_strlit(".0 GiB");
    reveal_strlit(".0 MiB");
    reveal_strlit(".0 KiB");
    reveal_strlit(" GiB");
    reveal_strlit(" MiB");
    reveal_strlit(" KiB");
    let b = k * unit;
    lemma_bit_length_bound(b, 53);
    assert(nearest_double(b) == b);
    assert((10 * b) / unit == 10 * k && (10 * b) % unit == 0) by (nonlinear_arith)
        requires
            b == k * unit,
            unit > 0,
    ;
    assert(tenths(b, unit) == 10 * k);
    assert((10 * k) / 10 == k && (10 * k) % 10 == 0) by (nonlinear_arith);
    assert(digit_char(0) == '0');
    assert(b >= unit) by (nonlinear_arith)
        requires
            b == k * unit,
            k >= 1,
            unit > 0,
    ;
    if unit == KIB {
        assert(b < MIB) by (nonlinear_arith)
            requires
                b == k * unit,
                k < 1024,
                unit == 1024,
        ;
        assert(one_decimal(10 * k) + " KiB"@ =~= decimal(k) + ".0 KiB"@);
    } else if unit == MIB {
        assert(b < GIB) by (nonlinear_arith)
            requires
                b == k * unit,
                k < 1024,
                unit == 1048576,
        ;
        assert(one_decimal(10 * k) + " MiB"@ =~= decimal(k) + ".0 MiB"@);
    } else {
        assert(one_decimal(10 * k) + " GiB"@ =~= decimal(k) + ".0 GiB"@);
    }
}

/// Fewer than 1024 bytes print as the plain count of bytes.
pub proof fn small_counts_print_in_bytes(b: nat)
    requires
        b < KIB,
    ensures
        bytes_text(b) == decimal(b) + " bytes"@,
{
}

} // verus!
