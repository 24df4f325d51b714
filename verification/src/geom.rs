//! Plane vectors over exact integer world coordinates, and the floor /
//! rounding divisions the simulation is specified with.
//!
//! Ghost `/` and `%` are Euclidean, so for a positive divisor the ghost
//! quotient is the floor quotient; the executable helpers here compute on
//! unsigned magnitudes and are proved against that ghost meaning.

use vstd::arithmetic::div_mod::lemma_basic_div;
use vstd::arithmetic::div_mod::lemma_div_is_ordered;
use vstd::arithmetic::div_mod::lemma_div_multiples_vanish_fancy;
use vstd::arithmetic::div_mod::lemma_div_nonincreasing;
use vstd::arithmetic::div_mod::lemma_div_pos_is_pos;
use vstd::arithmetic::div_mod::lemma_fundamental_div_mod;
use vstd::arithmetic::div_mod::lemma_fundamental_div_mod_converse;
use vstd::arithmetic::div_mod::lemma_hoist_over_denominator;
use vstd::arithmetic::div_mod::lemma_mod_bound;
use vstd::prelude::*;

verus! {

/// A point or displacement in world space, in whole world units.
#[derive(Clone, Copy, PartialEq, Eq, Structural, Debug)]
pub struct Vec2i {
    pub x: i64,
    pub y: i64,
}

/// Floor quotient of `a` by a positive divisor, as ghost `/` computes it.
pub fn floor_div(a: i64, b: i64) -> (q: i64)
    requires
        1 <= b,
        i64::MIN < a,
    ensures
        q == a as int / b as int,
{
    let bu: u64 = b as u64;
    if a >= 0 {
        let qu: u64 = (a as u64) / bu;
        proof {
            lemma_div_nonincreasing(a as int, b as int);
            lemma_div_pos_is_pos(a as int, b as int);
        }
        qu as i64
    } else {
        let na: u64 = (-a) as u64;
        // the ceiling of na / b, negated, is the floor quotient of a / b
        let mag: u64 = (na + bu - 1) / bu;
        proof {
            let k = na as int / b as int;
            let m = na as int % b as int;
            lemma_fundamental_div_mod(na as int, b as int);
            lemma_mod_bound(na as int, b as int);
            lemma_div_pos_is_pos(na as int, b as int);
            assert(na as int == b as int * k + m);
            assert(na as int == -(a as int));
            if m == 0 {
                assert((na + bu - 1) as int == (b - 1) + k * b) by (nonlinear_arith)
                    requires
                        na as int == b as int * k,
                        (na + bu - 1) as int == na as int + b - 1,
                ;
                lemma_hoist_over_denominator(b - 1, k, b as nat);
                lemma_basic_div(b - 1, b as int);
                assert(mag == k);
                assert(a as int == (-k) * (b as int) + 0) by (nonlinear_arith)
                    requires
                        na as int == b as int * k,
                        a as int == -(na as int),
                ;
                lemma_fundamental_div_mod_converse(a as int, b as int, -k, 0);
            } else {
                assert((na + bu - 1) as int == (m - 1) + (k + 1) * b) by (nonlinear_arith)
                    requires
                        na as int == b as int * k + m,
                        (na + bu - 1) as int == na as int + b - 1,
                ;
                lemma_hoist_over_denominator(m - 1, k + 1, b as nat);
                lemma_basic_div(m - 1, b as int);
                assert(mag == k + 1);
                assert(a as int == (-(k + 1)) * (b as int) + (b - m)) by (nonlinear_arith)
                    requires
                        na as int == b as int * k + m,
                        a as int == -(na as int),
                ;
                lemma_fundamental_div_mod_converse(a as int, b as int, -(k + 1), b as int - m);
                assert(k + 1 <= na as int) by (nonlinear_arith)
                    requires
                        na as int == b as int * k + m,
                        1 <= m,
                        0 <= k,
                        1 <= b,
                ;
            }
            lemma_div_nonincreasing(na as int, b as int);
            assert(mag <= na);
        }
        -(mag as i64)
    }
}

/// Euclidean remainder of `a` by a positive divisor: the unique `r` in
/// `[0, b)` with `a == b * (a / b) + r`.
pub fn floor_mod(a: i64, b: i64) -> (r: i64)
    requires
        1 <= b,
        i64::MIN < a,
    ensures
        r == a as int % b as int,
        0 <= r < b,
{
    let bu: u64 = b as u64;
    if a >= 0 {
        let ru: u64 = (a as u64) % bu;
        proof {
            lemma_mod_bound(a as int, b as int);
        }
        ru as i64
    } else {
        let na: u64 = (-a) as u64;
        let m: u64 = na % bu;
        proof {
            let k = na as int / b as int;
            lemma_fundamental_div_mod(na as int, b as int);
            lemma_mod_bound(na as int, b as int);
            assert(na as int == b as int * k + m);
            assert(na as int == -(a as int));
            if m == 0 {
                assert(a as int == (-k) * (b as int) + 0) by (nonlinear_arith)
                    requires
                        na as int == b as int * k,
                        a as int == -(na as int),
                ;
                lemma_fundamental_div_mod_converse(a as int, b as int, -k, 0);
            } else {
                assert(a as int == (-(k + 1)) * (b as int) + (b - m)) by (nonlinear_arith)
                    requires
                        na as int == b as int * k + m,
                        a as int == -(na as int),
                ;
                lemma_fundamental_div_mod_converse(a as int, b as int, -(k + 1), b as int - m);
            }
        }
        if m == 0 {
            0
        } else {
            b - (m as i64)
        }
    }
}

/// Floor of `a * num / den`, exact over wide unsigned intermediates.  The
/// scaling blends and eased motions of the simulation are all of this
/// shape: a span times a tick ratio.
pub fn mul_div_floor(a: i64, num: u64, den: u64) -> (r: i64)
    requires
        1 <= den,
        num <= 1000 * den,
        -4_000_000_000_000_000 <= a <= 4_000_000_000_000_000,
    ensures
        r == (a as int) * (num as int) / (den as int),
        a >= 0 ==> 0 <= r <= 1000 * a,
        a < 0 ==> 1000 * a <= r <= 0,
        num <= den ==> (a >= 0 ==> r <= a) && (a < 0 ==> a <= r),
{
    if a >= 0 {
        proof {
            assert((a as int) * (num as int) < 0x1000_0000_0000_0000_0000_0000_0000_0000
                && 0 <= (a as int) * (num as int)) by (nonlinear_arith)
                requires
                    0 <= a <= 4_000_000_000_000_000,
                    0 <= num < 0x1_0000_0000_0000_0000,
            ;
        }
        let nm: u128 = (a as u128) * (num as u128);
        let q: u128 = nm / (den as u128);
        proof {
            let x = nm as int;
            let dn = den as int;
            lemma_div_pos_is_pos(x, dn);
            assert(x <= (1000 * a) * dn) by (nonlinear_arith)
                requires
                    0 <= a,
                    x == a * (num as int),
                    num <= 1000 * den,
                    dn == den as int,
                    1 <= den,
            ;
            assert((1000 * a) * dn == dn * (1000 * a)) by (nonlinear_arith);
            lemma_div_is_ordered(x, dn * (1000 * a), dn);
            vstd::arithmetic::div_mod::lemma_div_multiples_vanish(1000 * a, dn);
            if num <= den {
                assert(x <= a * dn) by (nonlinear_arith)
                    requires
                        0 <= a,
                        x == a * (num as int),
                        num <= den,
                        dn == den as int,
                ;
                assert(a * dn == dn * a) by (nonlinear_arith);
                lemma_div_is_ordered(x, dn * a, dn);
                vstd::arithmetic::div_mod::lemma_div_multiples_vanish(a as int, dn);
            }
        }
        q as i64
    } else {
        let na: i64 = -a;
        proof {
            assert((na as int) * (num as int) < 0x1000_0000_0000_0000_0000_0000_0000_0000) by (nonlinear_arith)
                requires
                    0 <= na <= 4_000_000_000_000_000,
                    0 <= num < 0x1_0000_0000_0000_0000,
            ;
        }
        let nm: u128 = (na as u128) * (num as u128);
        let du: u128 = den as u128;
        let ceilq: u128 = (nm + (du - 1)) / du;
        proof {
            let x = nm as int;
            let s = den as int;
            let k = x / s;
            let m = x % s;
            lemma_fundamental_div_mod(x, s);
            lemma_mod_bound(x, s);
            lemma_div_pos_is_pos(x, s);
            if m == 0 {
                assert((x + s - 1) == s * k + (s - 1)) by (nonlinear_arith)
                    requires
                        x == s * k + m,
                        m == 0,
                ;
                lemma_div_multiples_vanish_fancy(k, s - 1, s);
                assert(ceilq == k);
                assert((a as int) * (num as int) == (-k) * s + 0) by (nonlinear_arith)
                    requires
                        x == s * k,
                        x == (na as int) * (num as int),
                        a == -na,
                ;
                lemma_fundamental_div_mod_converse((a as int) * (num as int), s, -k, 0);
            } else {
                assert((x + s - 1) == s * (k + 1) + (m - 1)) by (nonlinear_arith)
                    requires
                        x == s * k + m,
                ;
                lemma_div_multiples_vanish_fancy(k + 1, m - 1, s);
                assert(ceilq == k + 1);
                assert((a as int) * (num as int) == (-(k + 1)) * s + (s - m)) by (nonlinear_arith)
                    requires
                        x == s * k + m,
                        x == (na as int) * (num as int),
                        a == -na,
                ;
                lemma_fundamental_div_mod_converse((a as int) * (num as int), s, -(k + 1), s - m);
            }
            // the magnitude of the result never exceeds the scaled span
            assert(x + s - 1 <= s * (1000 * na) + (s - 1)) by (nonlinear_arith)
                requires
                    0 <= na,
                    x == (na as int) * (num as int),
                    num <= 1000 * den,
                    s == den as int,
                    1 <= den,
            ;
            lemma_div_is_ordered(x + s - 1, s * (1000 * na) + (s - 1), s);
            lemma_div_multiples_vanish_fancy(1000 * na, s - 1, s);
            if num <= den {
                assert(x + s - 1 <= s * (na as int) + (s - 1)) by (nonlinear_arith)
                    requires
                        0 <= na,
                        x == (na as int) * (num as int),
                        num <= den,
                        s == den as int,
                ;
                lemma_div_is_ordered(x + s - 1, s * (na as int) + (s - 1), s);
                lemma_div_multiples_vanish_fancy(na as int, s - 1, s);
            }
        }
        -(ceilq as i64)
    }
}

/// The multiple of `d` nearest to `a`, ties away from zero.
pub open spec fn round_mult_spec(a: int, d: int) -> int {
    let m = a % d;
    let base = a - m;
    if 2 * m > d || (2 * m == d && a >= 0) {
        base + d
    } else {
        base
    }
}

/// Snap `a` to the nearest multiple of `d`, ties away from zero.
pub fn round_mult(a: i64, d: i64) -> (r: i64)
    requires
        1 <= d,
        i64::MIN + d < a,
        a <= i64::MAX - d,
    ensures
        r == round_mult_spec(a as int, d as int),
{
    let m = floor_mod(a, d);
    let base = a - m;
    if m > d - m || (m == d - m && a >= 0) {
        base + d
    } else {
        base
    }
}

} // verus!
