//! The greatest common divisor of two `u32`s, computed with the binary (Stein) algorithm.

use vstd::prelude::*;
use vstd::arithmetic::div_mod::{
    lemma_fundamental_div_mod, lemma_fundamental_div_mod_converse, lemma_add_mod_noop,
    lemma_sub_mod_noop, lemma_mod_multiples_basic, lemma_small_mod, lemma_mul_mod_noop,
    lemma_mod_bound,
};
use vstd::arithmetic::mul::{lemma_mul_is_commutative, lemma_mul_is_associative};
use vstd::arithmetic::power2::{pow2, lemma_pow2_unfold, lemma2_to64};
use vstd::bits::lemma_u32_shl_is_mul;
use vstd::std_specs::bits::{u32_trailing_zeros, axiom_u32_trailing_zeros};

verus! {

/// The greatest common divisor, by Euclid's recursion: `gcd(a, 0) = a` and
/// `gcd(a, b) = gcd(b, a % b)` for `b > 0`.
pub open spec fn spec_gcd(a: nat, b: nat) -> nat
    decreases b,
{
    if b == 0 {
        a
    } else {
        spec_gcd(b, a % b)
    }
}

/// `d` is a positive divisor of `n`.
pub open spec fn divides(d: nat, n: nat) -> bool {
    d > 0 && n % d == 0
}

proof fn lemma_divides_sum(d: nat, x: nat, y: nat)
    requires
        divides(d, x),
        divides(d, y),
    ensures
        divides(d, x + y),
{
    lemma_add_mod_noop(x as int, y as int, d as int);
    lemma_small_mod(0, d);
}

proof fn lemma_divides_diff(d: nat, x: nat, y: nat)
    requires
        divides(d, x),
        divides(d, y),
        y <= x,
    ensures
        divides(d, (x - y) as nat),
{
    lemma_sub_mod_noop(x as int, y as int, d as int);
    lemma_small_mod(0, d);
}

proof fn lemma_divides_multiple(d: nat, x: nat, q: nat)
    requires
        divides(d, x),
    ensures
        divides(d, x * q),
{
    lemma_mul_mod_noop(x as int, q as int, d as int);
    lemma_small_mod(0, d);
}

/// A positive divisor of a positive number is at most that number.
pub proof fn lemma_divisor_le(d: nat, n: nat)
    requires
        divides(d, n),
        n > 0,
    ensures
        d <= n,
{
    lemma_fundamental_div_mod(n as int, d as int);
    let q = n as int / d as int;
    assert(n == d * q);
    if q <= 0 {
        assert(d * q <= 0) by (nonlinear_arith)
            requires
                d > 0,
                q <= 0,
        ;
    } else {
        assert(d * q >= d) by (nonlinear_arith)
            requires
                d > 0,
                q >= 1,
        ;
    }
}

proof fn lemma_divides_antisymmetric(x: nat, y: nat)
    requires
        divides(x, y),
        divides(y, x),
    ensures
        x == y,
{
    lemma_divisor_le(x, y);
    lemma_divisor_le(y, x);
}

/// `gcd(a, b)` is positive unless both `a` and `b` are zero.
pub proof fn lemma_gcd_positive(a: nat, b: nat)
    requires
        a > 0 || b > 0,
    ensures
        spec_gcd(a, b) > 0,
    decreases b,
{
    if b > 0 {
        lemma_gcd_positive(b, a % b);
    }
}

/// `gcd(a, b)` divides both `a` and `b`, when it is positive.
pub proof fn lemma_gcd_divides_both(a: nat, b: nat)
    requires
        a > 0 || b > 0,
    ensures
        divides(spec_gcd(a, b), a),
        divides(spec_gcd(a, b), b),
    decreases b,
{
    lemma_gcd_positive(a, b);
    let g = spec_gcd(a, b);
    if b == 0 {
        lemma_mod_multiples_basic(1, a as int);
        lemma_small_mod(0, g);
    } else {
        let r = a % b;
        lemma_gcd_divides_both(b, r);
        lemma_fundamental_div_mod(a as int, b as int);
        let q = a / b;
        lemma_mul_is_commutative(b as int, q as int);
        lemma_divides_multiple(g, b, q);
        assert(a == b * q + r);
        lemma_divides_sum(g, b * q, r);
    }
}

/// Every common divisor of `a` and `b` divides `gcd(a, b)`.
pub proof fn lemma_common_divisor_divides_gcd(a: nat, b: nat, d: nat)
    requires
        divides(d, a),
        divides(d, b),
    ensures
        divides(d, spec_gcd(a, b)),
    decreases b,
{
    if b > 0 {
        let r = a % b;
        lemma_fundamental_div_mod(a as int, b as int);
        let q = a / b;
        lemma_mul_is_commutative(b as int, q as int);
        lemma_divides_multiple(d, b, q);
        assert(r == a - b * q);
        lemma_divides_diff(d, a, b * q);
        lemma_common_divisor_divides_gcd(b, r, d);
    }
}

/// A positive common divisor of `a` and `b` that every common divisor divides is `gcd(a, b)`.
proof fn lemma_gcd_unique(a: nat, b: nat, g: nat)
    requires
        a > 0 || b > 0,
        divides(g, a),
        divides(g, b),
        forall|d: nat| divides(d, a) && divides(d, b) ==> #[trigger] divides(d, g),
    ensures
        g == spec_gcd(a, b),
{
    let big = spec_gcd(a, b);
    lemma_gcd_divides_both(a, b);
    assert(divides(big, g));
    lemma_common_divisor_divides_gcd(a, b, g);
    lemma_divides_antisymmetric(g, big);
}

/// The gcd does not depend on the order of its arguments.
pub proof fn lemma_gcd_commutative(a: nat, b: nat)
    ensures
        spec_gcd(a, b) == spec_gcd(b, a),
{
    if a > 0 || b > 0 {
        let g = spec_gcd(a, b);
        lemma_gcd_divides_both(a, b);
        assert forall|d: nat| divides(d, b) && divides(d, a) implies #[trigger] divides(d, g) by {
            lemma_common_divisor_divides_gcd(a, b, d);
        }
        lemma_gcd_unique(b, a, g);
    } else {
        assert(spec_gcd(0, 0) == 0);
    }
}

/// Subtracting the smaller argument from the larger keeps the gcd.
proof fn lemma_gcd_sub(u: nat, v: nat)
    requires
        0 < u <= v,
    ensures
        spec_gcd(u, v) == spec_gcd(u, (v - u) as nat),
{
    let w = (v - u) as nat;
    let g = spec_gcd(u, w);
    lemma_gcd_divides_both(u, w);
    lemma_divides_sum(g, w, u);
    assert forall|d: nat| divides(d, u) && divides(d, v) implies #[trigger] divides(d, g) by {
        lemma_divides_diff(d, v, u);
        lemma_common_divisor_divides_gcd(u, w, d);
    }
    lemma_gcd_unique(u, v, g);
}

/// Every divisor of an odd number is odd.
proof fn lemma_divisor_of_odd(u: nat, d: nat)
    requires
        u % 2 == 1,
        divides(d, u),
    ensures
        d % 2 == 1,
{
    lemma_fundamental_div_mod(u as int, d as int);
    let q = u / d;
    assert(u == d * q);
    lemma_mul_mod_noop(d as int, q as int, 2);
    lemma_mod_bound(d as int, 2);
    lemma_mod_bound(q as int, 2);
    if d % 2 == 0 {
        assert((d % 2) * (q % 2) == 0);
        lemma_small_mod(0, 2);
    }
}

/// An odd divisor of `2 * w` divides `w`.
proof fn lemma_odd_divisor_of_double(d: nat, w: nat)
    requires
        d % 2 == 1,
        divides(d, 2 * w),
    ensures
        divides(d, w),
{
    lemma_fundamental_div_mod((2 * w) as int, d as int);
    let q = (2 * w) / d;
    assert(2 * w == d * q);
    lemma_mul_mod_noop(d as int, q as int, 2);
    lemma_mod_bound(q as int, 2);
    lemma_mod_multiples_basic(w as int, 2);
    lemma_mul_is_commutative(w as int, 2);
    if q % 2 == 1 {
        assert((d % 2) * (q % 2) == 1);
        lemma_small_mod(1, 2);
        assert(false);
    }
    lemma_fundamental_div_mod(q as int, 2);
    let h = q / 2;
    assert(q == 2 * h);
    assert(d * q == 2 * (d * h)) by {
        lemma_mul_is_associative(d as int, 2, h as int);
        lemma_mul_is_commutative(d as int, 2);
        lemma_mul_is_associative(2, d as int, h as int);
    }
    assert(w == d * h);
    lemma_mul_is_commutative(d as int, h as int);
    lemma_mod_multiples_basic(h as int, d as int);
}

/// Halving an even argument keeps the gcd with an odd number.
proof fn lemma_gcd_odd_halve(u: nat, w: nat)
    requires
        u % 2 == 1,
    ensures
        spec_gcd(u, 2 * w) == spec_gcd(u, w),
{
    let g = spec_gcd(u, w);
    lemma_gcd_divides_both(u, w);
    lemma_divides_sum(g, w, w);
    assert forall|d: nat| divides(d, u) && divides(d, 2 * w) implies #[trigger] divides(d, g) by {
        lemma_divisor_of_odd(u, d);
        lemma_odd_divisor_of_double(d, w);
        lemma_common_divisor_divides_gcd(u, w, d);
    }
    lemma_gcd_unique(u, 2 * w, g);
}

/// Scaling both arguments by `c` scales the gcd by `c`.
pub proof fn lemma_gcd_scale(c: nat, a: nat, b: nat)
    ensures
        spec_gcd(c * a, c * b) == c * spec_gcd(a, b),
    decreases b,
{
    if c == 0 {
        assert(c * a == 0 && c * b == 0 && c * spec_gcd(a, b) == 0);
    } else if b == 0 {
        assert(c * b == 0);
    } else {
        let r = a % b;
        lemma_fundamental_div_mod(a as int, b as int);
        lemma_mod_bound(a as int, b as int);
        let q = a / b;
        assert(c * a == q * (c * b) + c * r && 0 <= c * r < c * b) by (nonlinear_arith)
            requires
                a == b * q + r,
                0 <= r < b,
                c > 0,
        ;
        lemma_fundamental_div_mod_converse((c * a) as int, (c * b) as int, q as int, (c * r) as int);
        assert(c * b > 0) by (nonlinear_arith)
            requires
                c > 0,
                b > 0,
        ;
        lemma_gcd_scale(c, b, r);
    }
}

/// Doubling both arguments doubles the gcd.
proof fn lemma_gcd_double(a: nat, b: nat)
    ensures
        spec_gcd(2 * a, 2 * b) == 2 * spec_gcd(a, b),
{
    lemma_gcd_scale(2, a, b);
}

/// Dividing two numbers, not both zero, by their gcd leaves numbers whose gcd is one.
pub proof fn lemma_gcd_of_quotients(a: nat, b: nat)
    requires
        a > 0 || b > 0,
    ensures
        spec_gcd(a / spec_gcd(a, b), b / spec_gcd(a, b)) == 1,
{
    let g = spec_gcd(a, b);
    lemma_gcd_positive(a, b);
    lemma_gcd_divides_both(a, b);
    lemma_fundamental_div_mod(a as int, g as int);
    lemma_fundamental_div_mod(b as int, g as int);
    let qa = a / g;
    let qb = b / g;
    assert(a == g * qa && b == g * qb);
    lemma_gcd_scale(g, qa, qb);
    let h = spec_gcd(qa, qb);
    assert(g * h == g * 1);
    assert(h == 1) by (nonlinear_arith)
        requires
            g * h == g * 1,
            g > 0,
    ;
}

/// The lowest `t` bits of `x` are zero.
pub open spec fn low_bits_clear(x: u32, t: u32) -> bool {
    (x >> t) << t == x
}

/// What `trailing_zeros` gives for a nonzero `x`: a count below 32 of zero low bits,
/// above which the next bit is set.
proof fn lemma_trailing_zeros(x: u32)
    requires
        x != 0,
    ensures
        u32_trailing_zeros(x) < 32,
        (x >> u32_trailing_zeros(x)) % 2 == 1,
        low_bits_clear(x, u32_trailing_zeros(x)),
{
    axiom_u32_trailing_zeros(x);
    let t = u32_trailing_zeros(x);
    assert(x << ((32 - t) as u32) == 0);
    assert((x >> t) << t == x) by (bit_vector)
        requires
            t < 32,
            x << ((32 - t) as u32) == 0,
    ;
    assert((x >> t) & 1 == 1 ==> (x >> t) % 2 == 1) by (bit_vector);
}

/// Shifting the zero low bits out of `x` keeps its gcd with an odd number.
proof fn lemma_gcd_odd_shift(u: nat, x: u32, t: u32)
    requires
        u % 2 == 1,
        t < 32,
        low_bits_clear(x, t),
    ensures
        spec_gcd(u, x as nat) == spec_gcd(u, (x >> t) as nat),
    decreases t,
{
    if t == 0 {
        assert(x >> 0 == x) by (bit_vector);
    } else {
        let h = x >> 1;
        let s = (t - 1) as u32;
        assert(x == 2 * h && (h >> s) << s == h && h >> s == x >> t) by (bit_vector)
            requires
                0 < t < 32,
                (x >> t) << t == x,
                h == x >> 1,
                s == t - 1,
        ;
        lemma_gcd_odd_halve(u, h as nat);
        lemma_gcd_odd_shift(u, h, s);
    }
}

/// Shifting common zero low bits out of both arguments divides the gcd by the
/// matching power of two.
proof fn lemma_gcd_common_shift(x: u32, y: u32, k: u32)
    requires
        k < 32,
        low_bits_clear(x, k),
        low_bits_clear(y, k),
    ensures
        spec_gcd(x as nat, y as nat) == pow2(k as nat) * spec_gcd((x >> k) as nat, (y >> k) as nat),
    decreases k,
{
    if k == 0 {
        assert(x >> 0 == x && y >> 0 == y) by (bit_vector);
        lemma2_to64();
    } else {
        let hx = x >> 1;
        let hy = y >> 1;
        let s = (k - 1) as u32;
        assert(x == 2 * hx && (hx >> s) << s == hx && hx >> s == x >> k) by (bit_vector)
            requires
                0 < k < 32,
                (x >> k) << k == x,
                hx == x >> 1,
                s == k - 1,
        ;
        assert(y == 2 * hy && (hy >> s) << s == hy && hy >> s == y >> k) by (bit_vector)
            requires
                0 < k < 32,
                (y >> k) << k == y,
                hy == y >> 1,
                s == k - 1,
        ;
        lemma_gcd_double(hx as nat, hy as nat);
        lemma_gcd_common_shift(hx, hy, s);
        lemma_pow2_unfold(k as nat);
        lemma_mul_is_associative(2, pow2(s as nat) as int, spec_gcd((x >> k) as nat, (y >> k) as nat) as int);
    }
}

/// The gcd of two nonzero numbers is the gcd of their odd parts, times two to the
/// smaller of their counts of trailing zeros.
proof fn lemma_gcd_odd_parts(x: u32, y: u32, k: u32)
    requires
        x != 0,
        y != 0,
        k == if u32_trailing_zeros(x) < u32_trailing_zeros(y) { u32_trailing_zeros(x) } else { u32_trailing_zeros(y) },
    ensures
        k < 32,
        spec_gcd(x as nat, y as nat) == pow2(k as nat) * spec_gcd(
            (x >> u32_trailing_zeros(x)) as nat,
            (y >> u32_trailing_zeros(y)) as nat,
        ),
{
    lemma_trailing_zeros(x);
    lemma_trailing_zeros(y);
    let i = u32_trailing_zeros(x);
    let j = u32_trailing_zeros(y);
    assert((x >> k) << k == x) by (bit_vector)
        requires
            k <= i < 32,
            (x >> i) << i == x,
    ;
    assert((y >> k) << k == y) by (bit_vector)
        requires
            k <= j < 32,
            (y >> j) << j == y,
    ;
    lemma_gcd_common_shift(x, y, k);
    let xk = x >> k;
    let yk = y >> k;
    if k == i {
        let s = (j - k) as u32;
        assert((yk >> s) << s == yk && yk >> s == y >> j) by (bit_vector)
            requires
                k <= j < 32,
                (y >> j) << j == y,
                yk == y >> k,
                s == j - k,
        ;
        lemma_gcd_odd_shift((x >> i) as nat, yk, s);
    } else {
        let s = (i - k) as u32;
        assert((xk >> s) << s == xk && xk >> s == x >> i) by (bit_vector)
            requires
                k <= i < 32,
                (x >> i) << i == x,
                xk == x >> k,
                s == i - k,
        ;
        lemma_gcd_odd_shift((y >> j) as nat, xk, s);
        lemma_gcd_commutative(xk as nat, yk as nat);
        lemma_gcd_commutative((x >> i) as nat, (y >> j) as nat);
    }
}

/// The greatest common divisor of `u` and `v`; `gcd(u, 0) == u` and `gcd(0, v) == v`.
pub fn gcd(u: u32, v: u32) -> (r: u32)
    ensures
        r == spec_gcd(u as nat, v as nat),
{
    if u == 0 {
        assert(spec_gcd(0, v as nat) == spec_gcd(v as nat, 0)) by {
            lemma_gcd_commutative(0, v as nat);
        }
        return v;
    } else if v == 0 {
        return u;
    }

    // Take the factors of two out of both arguments; `k` of them are common.
    let i = u.trailing_zeros();
    proof { lemma_trailing_zeros(u); }
    let mut a = u >> i;
    let j = v.trailing_zeros();
    proof { lemma_trailing_zeros(v); }
    let mut b = v >> j;
    let k = if i < j { i } else { j };
    let ghost g = spec_gcd(a as nat, b as nat);
    proof {
        lemma_gcd_odd_parts(u, v, k);
    }

    // Both are odd from here on: subtract the smaller from the larger, and shift the
    // factors of two out of the (even) difference.
    loop
        invariant
            a % 2 == 1,
            b % 2 == 1,
            spec_gcd(a as nat, b as nat) == g,
            spec_gcd(u as nat, v as nat) == pow2(k as nat) * g,
            k < 32,
            u > 0,
        decreases a + b,
    {
        if a > b {
            proof { lemma_gcd_commutative(a as nat, b as nat); }
            core::mem::swap(&mut a, &mut b);
        }
        let ghost b_before = b;
        b -= a;
        proof { lemma_gcd_sub(a as nat, b_before as nat); }
        if b == 0 {
            proof {
                let big = spec_gcd(u as nat, v as nat);
                lemma_gcd_positive(u as nat, v as nat);
                lemma_gcd_divides_both(u as nat, v as nat);
                lemma_divisor_le(big, u as nat);
                lemma_mul_is_commutative(a as int, pow2(k as nat) as int);
                lemma_u32_shl_is_mul(a, k);
            }
            return a << k;
        }
        let t = b.trailing_zeros();
        proof {
            lemma_trailing_zeros(b);
            lemma_gcd_odd_shift(a as nat, b, t);
        }
        let ghost b_mid = b;
        b >>= t;
        assert(b <= b_mid) by (bit_vector)
            requires
                b == b_mid >> t,
        ;
    }
}

} // verus!
