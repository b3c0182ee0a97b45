//! Wrapping of fixed-point numbers into a range.

use vstd::prelude::*;
use crate::coords::SUBCELLS;

verus! {

/// Where `val` ends up after wrapping into a range of length `range`: a
/// number that is not negative keeps its remainder; a negative number lies
/// as far below the end of the range as its magnitude lies above a
/// multiple of the range, so that a negative multiple ends up at the end of
/// the range and not at its start.
pub open spec fn wrapped(val: int, range: int) -> int {
    if val < 0 {
        range - ((-val) % range)
    } else {
        val % range
    }
}

/// Wraps a number of sub-cell units into one cell. See `wrapped`.
pub fn wrap_double_norm(val: i64) -> (r: i64)
    ensures
        r == wrapped(val as int, SUBCELLS as int),
        0 <= r <= SUBCELLS,
        val >= 0 ==> r < SUBCELLS,
        val < 0 ==> r > 0,
{
    wrap_double_range(val, SUBCELLS)
}

/// Wraps a number into a range of length `range`. See `wrapped`.
pub fn wrap_double_range(val: i64, range: i64) -> (r: i64)
    requires
        range > 0,
    ensures
        r == wrapped(val as int, range as int),
        0 <= r <= range,
        val >= 0 ==> r < range,
        val < 0 ==> r > 0,
{
    if val < 0 {
        // the magnitude of `val` is one more than that of `val + 1`
        let below: i64 = (-(val + 1)) % range;
        let over: i64 = if below == range - 1 {
            0
        } else {
            below + 1
        };
        proof {
            let b = -(val as int) - 1;
            let q = b / (range as int);
            vstd::arithmetic::div_mod::lemma_fundamental_div_mod(b, range as int);
            if below == range - 1 {
                assert(-(val as int) == (q + 1) * range + 0) by (nonlinear_arith)
                    requires
                        b == range * q + below,
                        below == range - 1,
                        b == -(val as int) - 1,
                ;
                vstd::arithmetic::div_mod::lemma_fundamental_div_mod_converse(
                    -(val as int),
                    range as int,
                    q + 1,
                    0,
                );
            } else {
                assert(-(val as int) == q * range + (below + 1)) by (nonlinear_arith)
                    requires
                        b == range * q + below,
                        b == -(val as int) - 1,
                ;
                vstd::arithmetic::div_mod::lemma_fundamental_div_mod_converse(
                    -(val as int),
                    range as int,
                    q,
                    below + 1,
                );
            }
        }
        range - over
    } else {
        val % range
    }
}

} // verus!
