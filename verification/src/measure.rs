//! Fixed-point measures and their means.
//!
//! A measure counts millionths of a unit. A mean is taken over the values
//! that are present only; absent values are left out of both the sum and the
//! divisor, and a mean over no value at all is itself absent. Quotients are
//! rounded toward zero.

use vstd::prelude::*;

verus! {

/// How many parts make one unit of a fixed-point measure.
pub const SCALE: i64 = 1_000_000;

/// `a / b` rounded toward zero, for a positive divisor.
pub open spec fn quotient(a: int, b: int) -> int
    recommends
        b > 0,
{
    if a >= 0 {
        a / b
    } else {
        -((-a) / b)
    }
}

/// `x` held to the range of an `i64`.
pub open spec fn clamped(x: int) -> int {
    if x < i64::MIN {
        i64::MIN as int
    } else if x > i64::MAX {
        i64::MAX as int
    } else {
        x
    }
}

/// The sum of the values that are present.
pub open spec fn total(vals: Seq<Option<i64>>) -> int
    decreases vals.len(),
{
    if vals.len() == 0 {
        0
    } else {
        total(vals.drop_last()) + match vals.last() {
            Some(v) => v as int,
            None => 0,
        }
    }
}

/// How many values are present.
pub open spec fn present(vals: Seq<Option<i64>>) -> nat
    decreases vals.len(),
{
    if vals.len() == 0 {
        0
    } else {
        present(vals.drop_last()) + match vals.last() {
            Some(_) => 1nat,
            None => 0nat,
        }
    }
}

/// The mean of the values that are present, absent when none is.
pub open spec fn mean(vals: Seq<Option<i64>>) -> Option<i64> {
    if present(vals) == 0 {
        None
    } else {
        Some(quotient(total(vals), present(vals) as int) as i64)
    }
}

/// The sum of the present values lies between the least and the greatest
/// `i64` taken as many times as there are present values.
pub proof fn total_bounds(vals: Seq<Option<i64>>)
    ensures
        present(vals) <= vals.len(),
        present(vals) * i64::MIN <= total(vals) <= present(vals) * i64::MAX,
    decreases vals.len(),
{
    if vals.len() > 0 {
        total_bounds(vals.drop_last());
        assert(present(vals) * i64::MIN <= total(vals) <= present(vals) * i64::MAX)
            by (nonlinear_arith)
            requires
                present(vals.drop_last()) * i64::MIN <= total(vals.drop_last()) <= present(
                    vals.drop_last(),
                ) * i64::MAX,
                present(vals) == present(vals.drop_last()) + (if vals.last() is Some {
                    1nat
                } else {
                    0nat
                }),
                total(vals) == total(vals.drop_last()) + (match vals.last() {
                    Some(v) => v as int,
                    None => 0,
                }),
                vals.last() is Some ==> i64::MIN <= vals.last()->0 <= i64::MAX,
        ;
    }
}

/// A quotient of a sum of `count` values of `i64` by `count` is an `i64`.
pub proof fn quotient_bounds(sum: int, count: int)
    requires
        count > 0,
        count * i64::MIN <= sum <= count * i64::MAX,
    ensures
        i64::MIN <= quotient(sum, count) <= i64::MAX,
{
    assert(i64::MIN <= quotient(sum, count) <= i64::MAX) by (nonlinear_arith)
        requires
            count > 0,
            count * i64::MIN <= sum <= count * i64::MAX,
    ;
}

/// `a / b` rounded toward zero.
pub(crate) fn divide(a: i128, b: i128) -> (q: i128)
    requires
        b > 0,
        a > i128::MIN,
    ensures
        q == quotient(a as int, b as int),
{
    if a >= 0 {
        a / b
    } else {
        let n: i128 = -a;
        -(n / b)
    }
}

/// `num / den` rounded toward zero, for a divisor of either sign.
pub open spec fn ratio(num: int, den: int) -> int
    recommends
        den != 0,
{
    if den > 0 {
        quotient(num, den)
    } else {
        quotient(-num, -den)
    }
}

/// Appending a value adds it to the sum and, where it is present, one to the
/// count.
pub proof fn total_push(vals: Seq<Option<i64>>, v: Option<i64>)
    ensures
        total(vals.push(v)) == total(vals) + (match v {
            Some(x) => x as int,
            None => 0,
        }),
        present(vals.push(v)) == present(vals) + (match v {
            Some(_) => 1nat,
            None => 0nat,
        }),
{
    assert(vals.push(v).drop_last() =~= vals);
}

/// The mean of the present values, from their sum and their number.
pub(crate) fn mean_of(sum: i128, count: u64, Ghost(vals): Ghost<Seq<Option<i64>>>) -> (m: Option<
    i64,
>)
    requires
        sum == total(vals),
        count == present(vals),
    ensures
        m == mean(vals),
{
    if count == 0 {
        None
    } else {
        proof {
            total_bounds(vals);
            quotient_bounds(sum as int, count as int);
            assert(sum > i128::MIN) by (nonlinear_arith)
                requires
                    count * i64::MIN <= sum,
                    0 < count <= u64::MAX,
            ;
        }
        let q: i128 = divide(sum, count as i128);
        Some(q as i64)
    }
}

/// A sum over no more values than a `u64` counts fits an `i128`.
pub proof fn total_fits(vals: Seq<Option<i64>>)
    requires
        vals.len() <= u64::MAX,
    ensures
        present(vals) <= vals.len(),
        i128::MIN < total(vals) <= i128::MAX,
{
    total_bounds(vals);
    assert(i128::MIN < total(vals) <= i128::MAX) by (nonlinear_arith)
        requires
            present(vals) <= u64::MAX,
            present(vals) * i64::MIN <= total(vals) <= present(vals) * i64::MAX,
    ;
}

} // verus!
