//! Exact integer arithmetic used by the pipeline.
//!
//! Scores are fixed-point milli-units, so every division the pipeline
//! performs (mean, pair-score halving, stroke-width scaling) is a floor
//! division by a positive divisor. These helpers implement that division on
//! machine integers and prove it equal to the mathematical `int` division,
//! which for a positive divisor rounds toward negative infinity.

use vstd::arithmetic::div_mod::{
    lemma_fundamental_div_mod, lemma_fundamental_div_mod_converse_div,
};
use vstd::prelude::*;

verus! {

/// Floor division of an `i64` by a positive divisor.
pub fn floor_div_i64(a: i64, d: i64) -> (r: i64)
    requires
        1 <= d,
        i64::MIN < a,
    ensures
        r == a as int / d as int,
{
    if a >= 0 {
        let q: u64 = (a as u64) / (d as u64);
        proof {
            assert(a as u64 == a as int);
            assert(d as u64 == d as int);
            assert(q == a as int / d as int);
            assert(a as int / d as int <= a as int) by {
                lemma_fundamental_div_mod(a as int, d as int);
                let qq = a as int / d as int;
                let rr = a as int % d as int;
                assert(a as int == d as int * qq + rr);
                assert(qq * d as int >= qq * 1) by (nonlinear_arith)
                    requires 1 <= d as int && qq >= 0;
                assert(qq >= 0) by {
                    if qq < 0 {
                        assert(d as int * qq <= -(d as int)) by (nonlinear_arith)
                            requires 1 <= d as int && qq <= -1;
                    }
                }
            }
        }
        q as i64
    } else {
        let n: u64 = (-a) as u64;
        let du: u64 = d as u64;
        let q: u64 = n / du;
        let rem: u64 = n % du;
        proof {
            lemma_fundamental_div_mod(n as int, du as int);
            assert(n as int == du as int * (n as int / du as int) + n as int % du as int);
            assert(q == n as int / du as int);
            assert(rem == n as int % du as int);
            assert(q <= n) by {
                if q as int > n as int {
                    assert(du as int * q as int >= q as int) by (nonlinear_arith)
                        requires 1 <= du as int && q as int >= 0;
                }
            }
            if rem == 0 {
                assert(a as int == (-(q as int)) * (d as int) + 0) by (nonlinear_arith)
                    requires
                        n as int == du as int * (q as int),
                        a as int == -(n as int),
                        du as int == d as int;
                lemma_fundamental_div_mod_converse_div(a as int, d as int, -(q as int), 0);
            } else {
                assert(a as int == (-(q as int) - 1) * (d as int) + (d as int - rem as int))
                    by (nonlinear_arith)
                    requires
                        n as int == du as int * (q as int) + rem as int,
                        a as int == -(n as int),
                        du as int == d as int;
                lemma_fundamental_div_mod_converse_div(
                    a as int,
                    d as int,
                    -(q as int) - 1,
                    d as int - rem as int,
                );
            }
        }
        if rem == 0 {
            -(q as i64)
        } else {
            -(q as i64) - 1
        }
    }
}

/// Floor division of an `i128` by a positive divisor.
pub fn floor_div_i128(a: i128, d: i128) -> (r: i128)
    requires
        1 <= d,
        i128::MIN < a,
    ensures
        r == a as int / d as int,
{
    if a >= 0 {
        let q: u128 = (a as u128) / (d as u128);
        proof {
            assert(a as u128 == a as int);
            assert(d as u128 == d as int);
            assert(q == a as int / d as int);
            assert(a as int / d as int <= a as int) by {
                lemma_fundamental_div_mod(a as int, d as int);
                let qq = a as int / d as int;
                let rr = a as int % d as int;
                assert(a as int == d as int * qq + rr);
                assert(qq * d as int >= qq * 1) by (nonlinear_arith)
                    requires 1 <= d as int && qq >= 0;
                assert(qq >= 0) by {
                    if qq < 0 {
                        assert(d as int * qq <= -(d as int)) by (nonlinear_arith)
                            requires 1 <= d as int && qq <= -1;
                    }
                }
            }
        }
        q as i128
    } else {
        let n: u128 = (-a) as u128;
        let du: u128 = d as u128;
        let q: u128 = n / du;
        let rem: u128 = n % du;
        proof {
            lemma_fundamental_div_mod(n as int, du as int);
            assert(n as int == du as int * (n as int / du as int) + n as int % du as int);
            assert(q == n as int / du as int);
            assert(rem == n as int % du as int);
            assert(q <= n) by {
                if q as int > n as int {
                    assert(du as int * q as int >= q as int) by (nonlinear_arith)
                        requires 1 <= du as int && q as int >= 0;
                }
            }
            if rem == 0 {
                assert(a as int == (-(q as int)) * (d as int) + 0) by (nonlinear_arith)
                    requires
                        n as int == du as int * (q as int),
                        a as int == -(n as int),
                        du as int == d as int;
                lemma_fundamental_div_mod_converse_div(a as int, d as int, -(q as int), 0);
            } else {
                assert(a as int == (-(q as int) - 1) * (d as int) + (d as int - rem as int))
                    by (nonlinear_arith)
                    requires
                        n as int == du as int * (q as int) + rem as int,
                        a as int == -(n as int),
                        du as int == d as int;
                lemma_fundamental_div_mod_converse_div(
                    a as int,
                    d as int,
                    -(q as int) - 1,
                    d as int - rem as int,
                );
            }
        }
        if rem == 0 {
            -(q as i128)
        } else {
            -(q as i128) - 1
        }
    }
}

/// A dividend between `d * lo` and `d * hi` has its floor quotient between
/// `lo` and `hi`.
pub proof fn lemma_floor_div_bounds(a: int, d: int, lo: int, hi: int)
    requires
        1 <= d,
        d * lo <= a <= d * hi,
    ensures
        lo <= a / d <= hi,
{
    lemma_fundamental_div_mod(a, d);
    let q = a / d;
    let r = a % d;
    assert(a == d * q + r);
    if q < lo {
        assert(d * q + r < d * lo) by (nonlinear_arith)
            requires 1 <= d && q < lo && 0 <= r < d;
    }
    if q > hi {
        assert(d * q + r > d * hi) by (nonlinear_arith)
            requires 1 <= d && q > hi && 0 <= r < d;
    }
}

} // verus!
