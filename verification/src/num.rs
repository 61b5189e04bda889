use vstd::prelude::*;

use vstd::arithmetic::div_mod::{lemma_fundamental_div_mod, lemma_fundamental_div_mod_converse};

verus! {

// Sign-correct floored modulo and division.
//
// In specifications, `a % n` and `a / n` on `int` already follow the
// mathematical (floored) convention for a positive divisor: the remainder
// lies in `[0, n)`.  The executable `%` and `/` on `i64` truncate toward
// zero instead, so these helpers compute the floored forms from
// non-negative operands only.  Every cycle-index computation in this crate
// routes through them, which is what keeps queries before the reference
// instant from producing negative indices.

/// `a mod n` in `[0, n)`, matching floor-division modulo.
pub fn floored_mod(a: i64, n: i64) -> (r: i64)
    requires
        0 < n,
        i64::MIN < a,
    ensures
        r == a as int % n as int,
        0 <= r < n,
{
    if a >= 0 {
        a % n
    } else {
        let b = -(a + 1);
        let rb = b % n;
        proof {
            let q = b as int / n as int;
            let r0 = b as int % n as int;
            lemma_fundamental_div_mod(b as int, n as int);
            assert(a as int == (-q - 1) * n as int + (n as int - 1 - r0)) by (nonlinear_arith)
                requires
                    b as int == n as int * q + r0,
                    a as int == -(b as int) - 1,
            ;
            lemma_fundamental_div_mod_converse(a as int, n as int, -q - 1, n as int - 1 - r0);
        }
        n - 1 - rb
    }
}

/// `a div n` rounded toward negative infinity.
pub fn floored_div(a: i64, n: i64) -> (r: i64)
    requires
        0 < n,
        i64::MIN < a,
    ensures
        r == a as int / n as int,
        a >= 0 ==> 0 <= r <= a,
        a < 0 ==> a <= r <= 0,
{
    proof {
        lemma_fundamental_div_mod(a as int, n as int);
        let q = a as int / n as int;
        let rr = a as int % n as int;
        assert((a >= 0 ==> 0 <= q <= a) && (a < 0 ==> a <= q <= 0)) by (nonlinear_arith)
            requires
                a as int == n as int * q + rr,
                0 <= rr < n,
                1 <= n,
        ;
    }
    if a >= 0 {
        a / n
    } else {
        let b = -(a + 1);
        let qb = b / n;
        proof {
            let q = b as int / n as int;
            let r0 = b as int % n as int;
            lemma_fundamental_div_mod(b as int, n as int);
            assert(a as int == (-q - 1) * n as int + (n as int - 1 - r0)) by (nonlinear_arith)
                requires
                    b as int == n as int * q + r0,
                    a as int == -(b as int) - 1,
            ;
            lemma_fundamental_div_mod_converse(a as int, n as int, -q - 1, n as int - 1 - r0);
        }
        -qb - 1
    }
}

} // verus!
