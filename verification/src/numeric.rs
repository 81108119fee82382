//! Mathematical models of the arithmetic that the built-in aggregations
//! perform: wrapping 64-bit sums, truncating division, and minima and maxima
//! of value sequences.

use vstd::prelude::*;
use vstd::arithmetic::div_mod::{
    lemma_add_mod_noop_right, lemma_mod_add_multiples_vanish,
    lemma_mod_division_less_than_divisor, lemma_mod_multiples_vanish, lemma_mod_twice,
    lemma_small_mod,
};

verus! {

/// The width of the `i64` value space, `2^64`.
pub const I64_SPAN: u128 = 0x1_0000_0000_0000_0000;

/// Reduce an unbounded integer into the `i64` range the way two's-complement
/// wrapping arithmetic does.
pub open spec fn wrap_i64_of(x: int) -> i64 {
    vstd::wrapping::i64_specs::signed_crop(x)
}

/// The mathematical (unwrapped) sum of a sequence of values.
pub open spec fn sum_of(vals: Seq<i64>) -> int
    decreases vals.len(),
{
    if vals.len() == 0 {
        0
    } else {
        sum_of(vals.drop_last()) + vals.last()
    }
}

/// Division that truncates toward zero, as Rust's `/` on signed integers
/// does; it differs from Euclidean (flooring) division only on negative
/// dividends.
pub open spec fn div_trunc(a: int, b: int) -> int
    recommends
        b > 0,
{
    if a >= 0 {
        a / b
    } else {
        -((-a) / b)
    }
}

/// The minimum value in a non-empty sequence.
pub open spec fn min_of(vals: Seq<i64>) -> i64
    recommends
        vals.len() > 0,
    decreases vals.len(),
{
    if vals.len() <= 1 {
        vals[0]
    } else {
        let rest = min_of(vals.drop_last());
        if vals.last() < rest {
            vals.last()
        } else {
            rest
        }
    }
}

/// The maximum value in a non-empty sequence.
pub open spec fn max_of(vals: Seq<i64>) -> i64
    recommends
        vals.len() > 0,
    decreases vals.len(),
{
    if vals.len() <= 1 {
        vals[0]
    } else {
        let rest = max_of(vals.drop_last());
        if vals.last() > rest {
            vals.last()
        } else {
            rest
        }
    }
}

/// Any integer in the `i64` range is its own wrapped image shifted by the
/// span exactly when it is negative.
proof fn lemma_mod_of_in_range(x: int)
    requires
        i64::MIN <= x <= i64::MAX,
    ensures
        x >= 0 ==> x % (I64_SPAN as int) == x,
        x < 0 ==> x % (I64_SPAN as int) == x + I64_SPAN,
{
    let w = I64_SPAN as int;
    if x >= 0 {
        lemma_small_mod(x as nat, w as nat);
    } else {
        lemma_mod_add_multiples_vanish(x, w);
        lemma_small_mod((x + w) as nat, w as nat);
    }
}

/// Wrapping addition of a wrapped partial sum behaves like wrapping the
/// extended mathematical sum: the step a summation loop takes.
pub proof fn lemma_wrap_add(s: int, v: i64)
    ensures
        vstd::wrapping::i64_specs::wrapping_add(wrap_i64_of(s), v) == wrap_i64_of(s + v),
{
    let w = I64_SPAN as int;
    let r = s % w;
    lemma_mod_division_less_than_divisor(s, w);
    let a = wrap_i64_of(s);
    let b = vstd::wrapping::i64_specs::wrapping_add(a, v) as int;
    let d = wrap_i64_of(s + v) as int;
    let vi = v as int;
    lemma_mod_division_less_than_divisor(s + v, w);
    // a is r or r - w, and b shifts a + v by at most one more span, so
    // b == r + v + c * w for some c in {-2, -1, 0, 1}
    assert(b % w == (s + v) % w) by {
        if b == r + vi - 2 * w {
            lemma_mod_multiples_vanish(-2, r + vi, w);
        } else if b == r + vi - w {
            lemma_mod_multiples_vanish(-1, r + vi, w);
        } else if b == r + vi + w {
            lemma_mod_multiples_vanish(1, r + vi, w);
        } else {
            lemma_mod_multiples_vanish(0, r + vi, w);
        }
        lemma_mod_twice(s, w);
        lemma_add_mod_noop_right(vi, s, w);
    }
    // d is (s + v) % w, possibly shifted down by one span
    assert(d % w == (s + v) % w) by {
        lemma_mod_add_multiples_vanish(d, w);
        lemma_mod_twice(s + v, w);
    }
    // b and d agree modulo w and both lie in the i64 window, so they are equal
    lemma_mod_of_in_range(b);
    lemma_mod_of_in_range(d);
}

} // verus!
