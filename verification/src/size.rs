//! How a download size is written for the user: whole kilobytes below one
//! megabyte, otherwise megabytes with one decimal, exactly as formatting the
//! `f64` quotient `bytes as f64 / 1_000_000.0` with `{:.1}` writes it.

use vstd::prelude::*;
use crate::text::{decimal, decimal_string, digit, digit_char, push_char};

verus! {

/// One megabyte, in bytes.
pub const MEGA: u128 = 1_000_000;

/// `2^52`, the least significand of a normal `f64`.
pub const SIG_LO: u128 = 4_503_599_627_370_496;

/// `2^k`.
pub open spec fn two_pow(k: nat) -> nat
    decreases k,
{
    if k == 0 {
        1
    } else {
        2 * two_pow((k - 1) as nat)
    }
}

/// `num / den` rounded to the nearest integer, ties to the even one.
pub open spec fn round_div_even(num: nat, den: nat) -> nat {
    let q = num / den;
    let r = num % den;
    if 2 * r < den {
        q
    } else if 2 * r > den {
        q + 1
    } else if q % 2 == 0 {
        q
    } else {
        q + 1
    }
}

/// The number of binary digits of `x` (0 for 0).
pub open spec fn bit_length(x: nat) -> nat
    decreases x,
{
    if x == 0 {
        0
    } else {
        1 + bit_length(x / 2)
    }
}

/// `n` rounded to at most 53 significant bits, ties to even: the value of
/// `n as f64` for an integer `n`.
pub open spec fn to_double(n: nat) -> nat {
    if bit_length(n) <= 53 {
        n
    } else {
        let sh = (bit_length(n) - 53) as nat;
        round_div_even(n, two_pow(sh)) * two_pow(sh)
    }
}

/// `a * 2^s` lies in `[2^52 * 10^6, 2^53 * 10^6)`: `s` is the binary
/// exponent that gives `a / 10^6` a 53-bit significand.
pub open spec fn in_scale(a: nat, s: nat) -> bool {
    &&& SIG_LO * MEGA <= a * two_pow(s)
    &&& a * two_pow(s) < 2 * SIG_LO * MEGA
}

/// The exponent `s` with `in_scale(a, s)`; there is exactly one for every
/// `a` from 1 up to `2^53 * 10^6`, so for the double of any `u64`.
pub open spec fn quotient_scale(a: nat) -> nat {
    choose|s: nat| in_scale(a, s)
}

/// For `bytes >= 10^6`: the number of tenths of a megabyte that `{:.1}`
/// prints for `bytes as f64 / 1_000_000.0`. With `a` the double of `bytes`
/// and `s` its scale, `m / 2^s` is the double nearest to `a / 10^6` (ties
/// to even), and the result is `10 * m / 2^s` rounded half to even.
pub open spec fn mb_tenths(bytes: nat) -> nat {
    let a = to_double(bytes);
    let s = quotient_scale(a);
    let m = round_div_even(a * two_pow(s), MEGA as nat);
    round_div_even(10 * m, two_pow(s))
}

/// The text of a size in bytes: `"<n> KB"` with `n` the kilobytes rounded
/// half up below one megabyte, else `"<x.y> MB"` (see `mb_tenths`).
pub open spec fn size_text(bytes: nat) -> Seq<char> {
    if bytes < 1_000_000 {
        decimal((bytes + 500) / 1000) + seq![' ', 'K', 'B']
    } else {
        let t = mb_tenths(bytes);
        decimal(t / 10) + seq!['.', digit_char(t % 10), ' ', 'M', 'B']
    }
}

/// Below one megabyte the kilobytes shown are the nearest whole number,
/// halves rounded up: within half a kilobyte of the size.
pub proof fn lemma_kilobytes_nearest(bytes: nat)
    requires
        bytes < 1_000_000,
    ensures
        1000 * ((bytes + 500) / 1000) <= bytes + 500 < 1000 * ((bytes + 500) / 1000) + 1000,
{
}

proof fn lemma_two_pow_pos(k: nat)
    ensures
        two_pow(k) >= 1,
    decreases k,
{
    if k > 0 {
        lemma_two_pow_pos((k - 1) as nat);
    }
}

proof fn lemma_two_pow_grows(j: nat, k: nat)
    requires
        j < k,
    ensures
        two_pow(k) >= 2 * two_pow(j),
    decreases k,
{
    lemma_two_pow_pos(j);
    if k - 1 > j {
        lemma_two_pow_grows(j, (k - 1) as nat);
    }
}

proof fn lemma_bit_length_bounds(x: nat)
    ensures
        x < two_pow(bit_length(x)),
        x > 0 ==> two_pow((bit_length(x) - 1) as nat) <= x,
    decreases x,
{
    if x > 0 {
        lemma_bit_length_bounds(x / 2);
    }
}

proof fn lemma_scale_unique(a: nat, s1: nat, s2: nat)
    requires
        in_scale(a, s1),
        in_scale(a, s2),
    ensures
        s1 == s2,
{
    if s1 < s2 {
        lemma_two_pow_grows(s1, s2);
        let x = two_pow(s2);
        let y = two_pow(s1);
        assert(a * x >= 2 * (a * y)) by (nonlinear_arith)
            requires
                x >= 2 * y,
        ;
    } else if s2 < s1 {
        lemma_two_pow_grows(s2, s1);
        let x = two_pow(s1);
        let y = two_pow(s2);
        assert(a * x >= 2 * (a * y)) by (nonlinear_arith)
            requires
                x >= 2 * y,
        ;
    }
}

fn round_div_even_exec(num: u128, den: u128) -> (r: u128)
    requires
        den > 0,
        num < u128::MAX,
    ensures
        r == round_div_even(num as nat, den as nat),
        num / den <= r <= num / den + 1,
{
    let q = num / den;
    let r = num % den;
    if r < den - r {
        q
    } else if r > den - r {
        q + 1
    } else if q % 2 == 0 {
        q
    } else {
        q + 1
    }
}

fn bit_length_exec(n: u64) -> (b: u32)
    ensures
        b as nat == bit_length(n as nat),
        b <= 64,
{
    let mut x = n;
    let mut b: u32 = 0;
    proof {
        lemma_bit_length_u64(n as nat);
    }
    while x > 0
        invariant
            bit_length(n as nat) == b + bit_length(x as nat),
            b + bit_length(x as nat) <= 64,
        decreases x,
    {
        x = x / 2;
        b = b + 1;
    }
    b
}

proof fn lemma_bit_length_u64(x: nat)
    requires
        x < 0x1_0000_0000_0000_0000,
    ensures
        bit_length(x) <= 64,
{
    lemma_bit_length_bounds(x);
    lemma_two_pow_64();
    if bit_length(x) > 65 {
        lemma_two_pow_grows(64, (bit_length(x) - 1) as nat);
    }
}

proof fn lemma_two_pow_64()
    ensures
        two_pow(64) == 0x1_0000_0000_0000_0000,
{
    reveal_with_fuel(two_pow, 65);
}

fn two_pow_exec(k: u32) -> (p: u128)
    requires
        k <= 64,
    ensures
        p == two_pow(k as nat),
{
    let mut p: u128 = 1;
    let mut i: u32 = 0;
    while i < k
        invariant
            i <= k <= 64,
            p == two_pow(i as nat),
        decreases k - i,
    {
        proof {
            lemma_two_pow_grows(i as nat, 64);
            lemma_two_pow_64();
        }
        p = p * 2;
        i = i + 1;
    }
    p
}

proof fn lemma_two_pow_add(j: nat, k: nat)
    ensures
        two_pow(j + k) == two_pow(j) * two_pow(k),
    decreases k,
{
    if k > 0 {
        lemma_two_pow_add(j, (k - 1) as nat);
        let x = two_pow(j);
        let y = two_pow((k - 1) as nat);
        assert(x * (2 * y) == 2 * (x * y)) by (nonlinear_arith);
        assert((j + k - 1) as nat == j + (k - 1) as nat);
        assert(two_pow(j + k) == 2 * two_pow((j + k - 1) as nat));
        assert(two_pow(k) == 2 * y);
    } else {
        assert(two_pow(0) == 1);
        assert(j + k == j);
    }
}

#[verifier::spinoff_prover]
proof fn lemma_rounded_shift_bounds(n: nat, sh: nat, p: nat, r: nat)
    requires
        p == two_pow(sh),
        1 <= sh <= 11,
        bit_length(n) == sh + 53,
        n / p <= r <= n / p + 1,
    ensures
        r * p <= n + 2048,
        r * p >= 1_000_000,
{
    lemma_two_pow_pos(sh);
    let d = n / p;
    assert(d * p <= n) by (nonlinear_arith)
        requires
            p > 0,
            d == n / p,
    ;
    assert(r * p <= n + p) by (nonlinear_arith)
        requires
            r <= d + 1,
            d * p <= n,
            p > 0,
    ;
    if sh < 11 {
        lemma_two_pow_grows(sh, 11);
    }
    assert(two_pow(11) == 2048) by {
        reveal_with_fuel(two_pow, 12);
    }
    lemma_bit_length_bounds(n);
    lemma_two_pow_add(52, sh);
    assert((bit_length(n) - 1) as nat == 52 + sh);
    let big = two_pow(52);
    assert(big == 4_503_599_627_370_496) by {
        reveal_with_fuel(two_pow, 53);
    }
    assert(n >= big * p);
    assert(d >= big) by (nonlinear_arith)
        requires
            n >= big * p,
            p > 0,
            d == n / p,
    ;
    assert(r * p >= r) by (nonlinear_arith)
        requires
            p >= 1,
    ;
}

proof fn lemma_round_div_even_range(num: nat, den: nat)
    requires
        den > 0,
    ensures
        num / den <= round_div_even(num, den) <= num / den + 1,
{
}

/// The rounding error of `round_div_even`: at most half the divisor.
proof fn lemma_round_error(num: nat, den: nat)
    requires
        den > 0,
    ensures
        2 * (round_div_even(num, den) * den) <= 2 * num + den,
        2 * num <= 2 * (round_div_even(num, den) * den) + den,
{
    let q = num / den;
    let rem = num % den;
    assert(num == q * den + rem) by (nonlinear_arith)
        requires
            den > 0,
            q == num / den,
            rem == num % den,
    ;
    assert((q + 1) * den == q * den + den) by (nonlinear_arith);
}

/// The double of a size of at least a megabyte lies between a megabyte and
/// the size plus 2048.
#[verifier::spinoff_prover]
proof fn lemma_to_double_bounds(n: nat)
    requires
        1_000_000 <= n < 0x1_0000_0000_0000_0000,
    ensures
        1_000_000 <= to_double(n) <= n + 2048,
{
    lemma_bit_length_u64(n);
    if bit_length(n) > 53 {
        let sh = (bit_length(n) - 53) as nat;
        let p = two_pow(sh);
        lemma_two_pow_pos(sh);
        lemma_round_div_even_range(n, p);
        lemma_rounded_shift_bounds(n, sh, p, round_div_even(n, p));
    }
}

/// Below `2^53` a size is its own double.
proof fn lemma_to_double_exact(n: nat)
    requires
        n < 0x20_0000_0000_0000,
    ensures
        to_double(n) == n,
{
    lemma_bit_length_bounds(n);
    if bit_length(n) > 53 {
        assert(two_pow(53) == 0x20_0000_0000_0000) by {
            reveal_with_fuel(two_pow, 54);
        }
        if bit_length(n) > 54 {
            lemma_two_pow_grows(53, (bit_length(n) - 1) as nat);
        }
    }
}

/// Finds the scale of `a`, starting the search at `s`.
#[verifier::spinoff_prover]
proof fn lemma_scale_exists(a: nat, s: nat) -> (r: nat)
    requires
        a >= 1,
        a * two_pow(s) < 2 * SIG_LO * MEGA,
    ensures
        in_scale(a, r),
    decreases 2 * SIG_LO * MEGA - a * two_pow(s),
{
    if a * two_pow(s) >= SIG_LO * MEGA {
        s
    } else {
        let x = two_pow(s);
        assert(a * (2 * x) == 2 * (a * x)) by (nonlinear_arith);
        assert(two_pow(s + 1) == 2 * x);
        lemma_two_pow_pos(s);
        assert(a * x >= 1) by (nonlinear_arith)
            requires
                a >= 1,
                x >= 1,
        ;
        lemma_scale_exists(a, s + 1)
    }
}

/// Above one megabyte the number shown is within 0.052 MB of the size as an
/// `f64` (which below `2^53` bytes is the size itself): the two roundings
/// that formatting makes cost at most half a tenth and a few thousand bytes.
#[verifier::spinoff_prover]
pub proof fn lemma_megabytes_close(bytes: nat)
    requires
        1_000_000 <= bytes < 0x1_0000_0000_0000_0000,
    ensures
        bytes < 0x20_0000_0000_0000 ==> to_double(bytes) == bytes,
        mb_tenths(bytes) * 100_000 <= to_double(bytes) + 52_000,
        to_double(bytes) <= mb_tenths(bytes) * 100_000 + 52_000,
{
    lemma_to_double_bounds(bytes);
    if bytes < 0x20_0000_0000_0000 {
        lemma_to_double_exact(bytes);
    }
    let a = to_double(bytes);
    assert(two_pow(0) == 1);
    let witness = lemma_scale_exists(a, 0);
    assert(in_scale(a, witness));
    let s = quotient_scale(a);
    assert(in_scale(a, s));
    let p = two_pow(s);
    lemma_two_pow_pos(s);
    // The scale is at least 8: a smaller one leaves `a * 2^s` too small.
    if s < 8 {
        if s < 7 {
            lemma_two_pow_grows(s, 7);
        }
        assert(two_pow(7) == 128) by {
            reveal_with_fuel(two_pow, 8);
        }
        assert(a * p <= a * 128) by (nonlinear_arith)
            requires
                p <= 128,
        ;
    }
    assert(p >= 256) by {
        if s >= 8 {
            if s > 8 {
                lemma_two_pow_grows(8, s);
            }
            reveal_with_fuel(two_pow, 9);
        }
    }
    let ap = a * p;
    let m = round_div_even(ap, MEGA as nat);
    let t = round_div_even(10 * m, p);
    lemma_round_error(ap, MEGA as nat);
    lemma_round_error(10 * m, p);
    let tp = t * p;
    // 10 * p * (10^5 t - a) = 10^6 (t p - 10 m) + 10 (10^6 m - a p).
    assert(10 * p * (100_000 * t - a) == 1_000_000 * (tp - 10 * m) + 10 * (1_000_000 * m - ap))
        by (nonlinear_arith)
        requires
            tp == t * p,
            ap == a * p,
    ;
    let x = 100_000 * t - a;
    assert(x * (10 * p) <= 500_000 * p + 5_000_000);
    assert(-x * (10 * p) == -(x * (10 * p))) by (nonlinear_arith);
    assert(-x * (10 * p) <= 500_000 * p + 5_000_000);
    assert(x <= 52_000) by (nonlinear_arith)
        requires
            x * (10 * p) <= 500_000 * p + 5_000_000,
            p >= 256,
    ;
    assert(-x <= 52_000) by (nonlinear_arith)
        requires
            -x * (10 * p) <= 500_000 * p + 5_000_000,
            p >= 256,
    ;
}

/// `n as f64`, as an integer (see `to_double`).
fn to_double_exec(n: u64) -> (a: u128)
    ensures
        a == to_double(n as nat),
        a <= n + 2048,
        n >= 1_000_000 ==> a >= 1_000_000,
{
    let bl = bit_length_exec(n);
    if bl <= 53 {
        n as u128
    } else {
        let sh = bl - 53;
        let p = two_pow_exec(sh);
        let nn = n as u128;
        proof {
            lemma_two_pow_pos(sh as nat);
        }
        let r = round_div_even_exec(nn, p);
        proof {
            lemma_rounded_shift_bounds(nn as nat, sh as nat, p as nat, r as nat);
        }
        r * p
    }
}

/// For `bytes >= 10^6`, the tenths of a megabyte that `{:.1}` prints for
/// `bytes as f64 / 1_000_000.0` (see `mb_tenths`).
#[verifier::spinoff_prover]
fn mb_tenths_exec(bytes: u64) -> (t: u128)
    requires
        bytes >= 1_000_000,
    ensures
        t == mb_tenths(bytes as nat),
{
    let a = to_double_exec(bytes);
    let lo: u128 = SIG_LO * MEGA;
    let mut scaled: u128 = a;
    let mut p: u128 = 1;
    let ghost mut s: nat = 0;
    assert(two_pow(0) == 1);
    while scaled < lo
        invariant
            lo == SIG_LO * MEGA,
            1_000_000 <= a <= 0x1_0000_0000_0000_0000 + 2048,
            scaled == a * two_pow(s),
            p == two_pow(s),
            p >= 1,
            scaled >= a,
            p * MEGA <= scaled,
            scaled < 2 * lo,
        decreases 2 * lo - scaled,
    {
        proof {
            let x = two_pow(s);
            assert(a * (2 * x) == 2 * (a * x)) by (nonlinear_arith);
        }
        scaled = scaled * 2;
        p = p * 2;
        proof {
            s = s + 1;
        }
    }
    proof {
        assert(in_scale(a as nat, s));
        let c = quotient_scale(a as nat);
        assert(in_scale(a as nat, c));
        lemma_scale_unique(a as nat, s, c);
        lemma_two_pow_pos(s);
    }
    let m = round_div_even_exec(scaled, MEGA);
    let t = round_div_even_exec(10 * m, p);
    t
}

/// The text of a size given in bytes, as the welcome screen shows it:
/// below one megabyte the kilobytes rounded half up (`"<n> KB"`), otherwise
/// the megabytes with one decimal (`"<x.y> MB"`) as `{:.1}` writes the
/// `f64` quotient of the bytes by a million.
pub fn fmt_size(bytes: u64) -> (s: String)
    ensures
        s@ == size_text(bytes as nat),
{
    if bytes < 1_000_000 {
        let kb = (bytes + 500) / 1000;
        let mut s = decimal_string(kb as u128);
        push_char(&mut s, ' ');
        push_char(&mut s, 'K');
        push_char(&mut s, 'B');
        assert(s@ =~= decimal(kb as nat) + seq![' ', 'K', 'B']);
        s
    } else {
        let t = mb_tenths_exec(bytes);
        let mut s = decimal_string(t / 10);
        let ghost whole = s@;
        push_char(&mut s, '.');
        push_char(&mut s, digit(t % 10));
        push_char(&mut s, ' ');
        push_char(&mut s, 'M');
        push_char(&mut s, 'B');
        assert(s@ =~= whole + seq!['.', digit_char((t % 10) as nat), ' ', 'M', 'B']);
        s
    }
}


/// Rounding a multiple of the divisor is exact.
proof fn lemma_round_exact(k: nat, d: nat)
    requires
        d > 0,
    ensures
        round_div_even(k * d, d) == k,
{
    assert((k * d) / d == k && (k * d) % d == 0) by (nonlinear_arith)
        requires
            d > 0,
    ;
}

/// When the quotient lies exactly halfway, the rounded value is even.
proof fn lemma_round_tie_even(num: nat, den: nat)
    requires
        den > 0,
    ensures
        2 * (round_div_even(num, den) * den) == 2 * num + den ==> round_div_even(num, den) % 2
            == 0,
        2 * num == 2 * (round_div_even(num, den) * den) + den ==> round_div_even(num, den) % 2
            == 0,
{
    let q = num / den;
    let rem = num % den;
    let r = round_div_even(num, den);
    assert(num == q * den + rem) by (nonlinear_arith)
        requires
            den > 0,
            q == num / den,
            rem == num % den,
    ;
    assert((q + 1) * den == q * den + den) by (nonlinear_arith);
    assert(0 <= rem < den);
}

/// Rounding to the nearest integer, ties to even, is monotone in the
/// quotient: `x1 / d1 <= x2 / d2` rounds to no more than `x2 / d2` does.
#[verifier::spinoff_prover]
proof fn lemma_round_monotone(x1: nat, d1: nat, x2: nat, d2: nat)
    requires
        d1 > 0,
        d2 > 0,
        x1 * d2 <= x2 * d1,
    ensures
        round_div_even(x1, d1) <= round_div_even(x2, d2),
{
    let r1 = round_div_even(x1, d1);
    let r2 = round_div_even(x2, d2);
    lemma_round_error(x1, d1);
    lemma_round_error(x2, d2);
    lemma_round_tie_even(x1, d1);
    lemma_round_tie_even(x2, d2);
    if r1 > r2 {
        let y1 = r1 * d1;
        let y2 = r2 * d2;
        // 2 x1 >= (2 r1 - 1) d1 >= (2 r2 + 1) d1 and 2 x2 <= (2 r2 + 1) d2.
        assert(2 * y1 - d1 >= (2 * r2 + 1) * d1) by (nonlinear_arith)
            requires
                y1 == r1 * d1,
                r1 >= r2 + 1,
                d1 > 0,
        ;
        assert((2 * x1) * d2 >= ((2 * r2 + 1) * d1) * d2) by (nonlinear_arith)
            requires
                2 * x1 >= (2 * r2 + 1) * d1,
                d2 > 0,
        ;
        assert((2 * r2 + 1) * d2 == 2 * y2 + d2) by (nonlinear_arith)
            requires
                y2 == r2 * d2,
        ;
        assert((2 * x2) * d1 <= ((2 * r2 + 1) * d2) * d1) by (nonlinear_arith)
            requires
                2 * x2 <= (2 * r2 + 1) * d2,
                d1 > 0,
        ;
        assert(((2 * r2 + 1) * d1) * d2 == ((2 * r2 + 1) * d2) * d1) by (nonlinear_arith);
        assert((2 * x1) * d2 <= (2 * x2) * d1) by (nonlinear_arith)
            requires
                x1 * d2 <= x2 * d1,
        ;
        // So every step is an equality: both quotients are ties.
        assert(2 * x1 == (2 * r2 + 1) * d1) by (nonlinear_arith)
            requires
                (2 * x1) * d2 == ((2 * r2 + 1) * d1) * d2,
                d2 > 0,
        ;
        assert(2 * x2 == (2 * r2 + 1) * d2) by (nonlinear_arith)
            requires
                (2 * x2) * d1 == ((2 * r2 + 1) * d2) * d1,
                d1 > 0,
        ;
        assert(r1 == r2 + 1) by (nonlinear_arith)
            requires
                2 * y1 <= 2 * x1 + d1,
                y1 == r1 * d1,
                2 * x1 == (2 * r2 + 1) * d1,
                r1 >= r2 + 1,
                d1 > 0,
        ;
        assert(2 * y1 == 2 * x1 + d1) by (nonlinear_arith)
            requires
                y1 == r1 * d1,
                r1 == r2 + 1,
                2 * x1 == (2 * r2 + 1) * d1,
        ;
        assert(2 * x2 == 2 * y2 + d2) by (nonlinear_arith)
            requires
                y2 == r2 * d2,
                2 * x2 == (2 * r2 + 1) * d2,
        ;
    }
}

/// The double of a positive size lies between the powers of two around the
/// size: `2^(b - 1) <= to_double(n) <= 2^b` for `b` its bit length.
#[verifier::spinoff_prover]
proof fn lemma_to_double_between_powers(n: nat)
    requires
        0 < n < 0x1_0000_0000_0000_0000,
    ensures
        two_pow((bit_length(n) - 1) as nat) <= to_double(n) <= two_pow(bit_length(n)),
{
    let b = bit_length(n);
    lemma_bit_length_u64(n);
    lemma_bit_length_bounds(n);
    if b > 53 {
        let sh = (b - 53) as nat;
        let p = two_pow(sh);
        lemma_two_pow_pos(sh);
        lemma_two_pow_add(52, sh);
        lemma_two_pow_add(53, sh);
        assert((b - 1) as nat == 52 + sh);
        let lo = two_pow(52);
        let hi = two_pow(53);
        lemma_round_exact(lo, p);
        lemma_round_exact(hi, p);
        assert(lo * p * p <= n * p) by (nonlinear_arith)
            requires
                lo * p <= n,
                p > 0,
        ;
        lemma_round_monotone(lo * p, p, n, p);
        assert(n * p <= hi * p * p) by (nonlinear_arith)
            requires
                n <= hi * p,
                p > 0,
        ;
        lemma_round_monotone(n, p, hi * p, p);
        let r = round_div_even(n, p);
        assert(lo * p <= r * p <= hi * p) by (nonlinear_arith)
            requires
                lo <= r <= hi,
                p > 0,
        ;
    }
}

/// Sizes of the same bit length round on the same grid, so their doubles
/// keep their order.
#[verifier::spinoff_prover]
proof fn lemma_to_double_monotone_same_length(n1: nat, n2: nat)
    requires
        n1 <= n2,
        bit_length(n1) == bit_length(n2),
    ensures
        to_double(n1) <= to_double(n2),
{
    let b = bit_length(n1);
    if b > 53 {
        let sh = (b - 53) as nat;
        let p = two_pow(sh);
        lemma_two_pow_pos(sh);
        assert(n1 * p <= n2 * p) by (nonlinear_arith)
            requires
                n1 <= n2,
        ;
        lemma_round_monotone(n1, p, n2, p);
        let r1 = round_div_even(n1, p);
        let r2 = round_div_even(n2, p);
        assert(r1 * p <= r2 * p) by (nonlinear_arith)
            requires
                r1 <= r2,
        ;
    }
}

/// The double of a size never falls as the size grows.
proof fn lemma_to_double_monotone(n1: nat, n2: nat)
    requires
        0 < n1 <= n2 < 0x1_0000_0000_0000_0000,
    ensures
        to_double(n1) <= to_double(n2),
{
    lemma_bit_length_monotone(n1, n2);
    let b1 = bit_length(n1);
    let b2 = bit_length(n2);
    if b1 == b2 {
        lemma_to_double_monotone_same_length(n1, n2);
    } else {
        lemma_to_double_between_powers(n1);
        lemma_to_double_between_powers(n2);
        lemma_bit_length_bounds(n1);
        if b1 < (b2 - 1) as nat {
            lemma_two_pow_grows(b1, (b2 - 1) as nat);
        }
    }
}

/// The tenths of a megabyte shown never fall as the size grows.
#[verifier::spinoff_prover]
proof fn lemma_mb_tenths_monotone(b1: nat, b2: nat)
    requires
        1_000_000 <= b1 <= b2 < 0x1_0000_0000_0000_0000,
    ensures
        mb_tenths(b1) <= mb_tenths(b2),
{
    lemma_to_double_bounds(b1);
    lemma_to_double_bounds(b2);
    lemma_to_double_monotone(b1, b2);
    let a1 = to_double(b1);
    let a2 = to_double(b2);
    assert(two_pow(0) == 1);
    let w1 = lemma_scale_exists(a1, 0);
    let w2 = lemma_scale_exists(a2, 0);
    assert(in_scale(a1, w1) && in_scale(a2, w2));
    let s1 = quotient_scale(a1);
    let s2 = quotient_scale(a2);
    assert(in_scale(a1, s1) && in_scale(a2, s2));
    let p1 = two_pow(s1);
    let p2 = two_pow(s2);
    lemma_two_pow_pos(s1);
    lemma_two_pow_pos(s2);
    let mega = MEGA as nat;
    let m1 = round_div_even(a1 * p1, mega);
    let m2 = round_div_even(a2 * p2, mega);
    if s1 < s2 {
        lemma_two_pow_grows(s1, s2);
        assert(a1 * p2 >= 2 * (a1 * p1)) by (nonlinear_arith)
            requires
                p2 >= 2 * p1,
        ;
        assert(a1 * p2 <= a2 * p2) by (nonlinear_arith)
            requires
                a1 <= a2,
        ;
    } else if s1 == s2 {
        assert((a1 * p1) * mega <= (a2 * p2) * mega) by (nonlinear_arith)
            requires
                a1 <= a2,
                p1 == p2,
        ;
        lemma_round_monotone(a1 * p1, mega, a2 * p2, mega);
        assert((10 * m1) * p2 <= (10 * m2) * p1) by (nonlinear_arith)
            requires
                m1 <= m2,
                p1 == p2,
        ;
        lemma_round_monotone(10 * m1, p1, 10 * m2, p2);
    } else {
        lemma_two_pow_grows(s2, s1);
        let lo = SIG_LO as nat;
        lemma_round_exact(2 * lo, mega);
        lemma_round_exact(lo, mega);
        assert((a1 * p1) * mega <= (2 * lo * mega) * mega) by (nonlinear_arith)
            requires
                a1 * p1 <= 2 * lo * mega,
        ;
        lemma_round_monotone(a1 * p1, mega, 2 * lo * mega, mega);
        assert((lo * mega) * mega <= (a2 * p2) * mega) by (nonlinear_arith)
            requires
                lo * mega <= a2 * p2,
        ;
        lemma_round_monotone(lo * mega, mega, a2 * p2, mega);
        // m1 / p1 <= 2^53 / p1 <= 2^52 / p2 <= m2 / p2.
        assert(m1 * p2 <= m2 * p1) by (nonlinear_arith)
            requires
                m1 <= 2 * lo,
                lo <= m2,
                p1 >= 2 * p2,
                p2 > 0,
        ;
        assert((10 * m1) * p2 <= (10 * m2) * p1) by (nonlinear_arith)
            requires
                m1 * p2 <= m2 * p1,
        ;
        lemma_round_monotone(10 * m1, p1, 10 * m2, p2);
    }
}

/// The number of bytes that the text of a size names: `"<n> KB"` names
/// `n * 1000` and `"<x.y> MB"` names `x.y * 1_000_000` (so `"1000 KB"` and
/// `"1.0 MB"` name the same amount).
pub open spec fn shown_amount(bytes: nat) -> nat {
    if bytes < 1_000_000 {
        ((bytes + 500) / 1000) * 1000
    } else {
        mb_tenths(bytes) * 100_000
    }
}

/// A larger size is never shown as a smaller amount.
pub proof fn lemma_shown_amount_monotone(b1: nat, b2: nat)
    requires
        b1 <= b2 < 0x1_0000_0000_0000_0000,
    ensures
        shown_amount(b1) <= shown_amount(b2),
{
    if b2 < 1_000_000 {
        assert((b1 + 500) / 1000 <= (b2 + 500) / 1000);
    } else if b1 < 1_000_000 {
        assert((b1 + 500) / 1000 <= 1000);
        lemma_megabytes_close(b2);
        lemma_to_double_bounds(b2);
        let t = mb_tenths(b2);
        assert(t >= 10) by {
            if t < 10 {
                assert(t * 100_000 <= 900_000);
            }
        }
    } else {
        lemma_mb_tenths_monotone(b1, b2);
    }
}

/// The text of a size writes the amount it names: its thousands before
/// "KB", or its millions, a point and its tenth of a million before "MB".
pub proof fn lemma_size_text_names_amount(bytes: nat)
    ensures
        bytes < 1_000_000 ==> size_text(bytes) == decimal(shown_amount(bytes) / 1000) + seq![
            ' ',
            'K',
            'B',
        ],
        bytes >= 1_000_000 ==> size_text(bytes) == decimal(shown_amount(bytes) / 1_000_000)
            + seq!['.', digit_char((shown_amount(bytes) / 100_000) % 10), ' ', 'M', 'B'],
{
    let t = mb_tenths(bytes);
    assert((t * 100_000) / 1_000_000 == t / 10);
    assert((t * 100_000) / 100_000 == t);
    let k = (bytes + 500) / 1000;
    assert((k * 1000) / 1000 == k);
}

proof fn lemma_bit_length_monotone(x: nat, y: nat)
    requires
        x <= y,
    ensures
        bit_length(x) <= bit_length(y),
    decreases y,
{
    if x > 0 {
        lemma_bit_length_monotone(x / 2, y / 2);
    }
}

} // verus!
