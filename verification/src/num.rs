//! Floor division and remainder on machine integers, proved against the
//! mathematical (Euclidean) `/` and `%` that the contracts use.

use vstd::prelude::*;
use vstd::arithmetic::div_mod::{
    lemma_fundamental_div_mod, lemma_fundamental_div_mod_converse_div,
    lemma_fundamental_div_mod_converse_mod, lemma_div_nonincreasing,
};

verus! {

/// Floor remainder of `a` by `m`: the mathematical `a % m`, non-negative for
/// every `a`.
pub fn floor_mod(a: i64, m: u64) -> (r: u64)
    requires
        2 <= m < 0x1_0000_0000,
    ensures
        r as int == (a as int) % (m as int),
{
    if a >= 0 {
        (a as u64) % m
    } else {
        let s = ((-(a + 1)) as u64) % m;
        let r = m - 1 - s;
        proof {
            let ai = a as int;
            let mi = m as int;
            let si = s as int;
            lemma_fundamental_div_mod(-(ai + 1), mi);
            let t = (-(ai + 1)) / mi;
            assert(ai == (-t - 1) * mi + (mi - 1 - si)) by (nonlinear_arith)
                requires
                    -(ai + 1) == mi * t + si,
            ;
            lemma_fundamental_div_mod_converse_mod(ai, mi, -t - 1, mi - 1 - si);
        }
        r
    }
}

/// Floor quotient of `a` by `m`: the mathematical `a / m`, rounding toward
/// minus infinity.
pub fn floor_div(a: i64, m: u64) -> (q: i64)
    requires
        2 <= m < 0x1_0000_0000,
    ensures
        q as int == (a as int) / (m as int),
{
    if a >= 0 {
        proof {
            lemma_div_nonincreasing(a as int, m as int);
        }
        ((a as u64) / m) as i64
    } else {
        let mag = ((-(a + 1)) as u64) + 1;
        let qe = (mag + (m - 1)) / m;
        proof {
            let ai = a as int;
            let mi = m as int;
            let qi = qe as int;
            lemma_fundamental_div_mod(mag as int + mi - 1, mi);
            let rr = (mag as int + mi - 1) % mi;
            assert(ai == (-qi) * mi + (mi * qi - (mag as int))) by (nonlinear_arith)
                requires
                    ai == -(mag as int),
                    mag as int + mi - 1 == mi * qi + rr,
            ;
            assert(0 <= mi * qi - (mag as int) && mi * qi - (mag as int) < mi) by (nonlinear_arith)
                requires
                    mag as int + mi - 1 == mi * qi + rr,
                    0 <= rr < mi,
            ;
            lemma_fundamental_div_mod_converse_div(ai, mi, -qi, mi * qi - (mag as int));
            assert(2 * qi <= mag as int + 1) by (nonlinear_arith)
                requires
                    mag as int + mi - 1 == mi * qi + rr,
                    0 <= rr < mi,
                    2 <= mi,
                    0 <= qi,
            ;
        }
        -(qe as i64)
    }
}

} // verus!
