//! A module containing helpful functions that are used throughout
//! this crate.
use vstd::prelude::*;

verus! {

/// The number of fixed-point units that stand for the real value 1.0:
/// scalar factors such as elevation and moisture are carried as signed
/// counts of millionths.
pub const SCALE: i64 = 1_000_000;

/// What normalization means: the value's position within the range
/// min-max, as a fixed-point factor from 0 (at `min`) to [`SCALE`]
/// (at `max`), linear in between up to integer rounding.
pub open spec fn spec_normalize(value: int, min: int, max: int) -> int {
    (value - min) * (SCALE as int) / (max - min)
}

/// Normalizes a value within the range min-max to a value
/// from 0 to [`SCALE`] (the fixed-point image of the real range 0-1).
///
/// The result is exactly `(value - min) * SCALE / (max - min)` with
/// integer division, so `min` maps to 0 and `max` maps to `SCALE`.
pub fn normalize(value: i64, min: i64, max: i64) -> (r: i64)
    requires
        min < max,
        min <= value,
        (value - min) * SCALE <= i64::MAX,
        max - min <= i64::MAX,
    ensures
        r == spec_normalize(value as int, min as int, max as int),
{
    (value - min) * SCALE / (max - min)
}

/// The index of the first element of `s` that does not satisfy `valid`,
/// or the sequence's length when every element does.
pub open spec fn first_invalid<T>(s: Seq<T>, valid: spec_fn(T) -> bool) -> int
    decreases s.len(),
{
    if s.len() == 0 {
        0
    } else if !valid(s[0]) {
        0
    } else {
        1 + first_invalid(s.drop_first(), valid)
    }
}

/// Law: an index whose predecessors are all valid, and which either holds
/// an invalid element or is the length, is the first invalid index.
pub proof fn lemma_first_invalid_is<T>(s: Seq<T>, valid: spec_fn(T) -> bool, i: int)
    requires
        0 <= i <= s.len(),
        forall|j: int| 0 <= j < i ==> valid(#[trigger] s[j]),
        i < s.len() ==> !valid(s[i]),
    ensures
        first_invalid(s, valid) == i,
    decreases s.len(),
{
    if s.len() > 0 && valid(s[0]) {
        assert forall|j: int| 0 <= j < i - 1 implies valid(#[trigger] s.drop_first()[j]) by {
            assert(s.drop_first()[j] == s[j + 1]);
        }
        if i - 1 < s.len() - 1 {
            assert(s.drop_first()[i - 1] == s[i]);
        }
        lemma_first_invalid_is(s.drop_first(), valid, i - 1);
    }
}

/// The sum of a sequence of weights.
pub open spec fn sum_weights(w: Seq<int>) -> int
    decreases w.len(),
{
    if w.len() == 0 {
        0
    } else {
        sum_weights(w.drop_last()) + w.last()
    }
}

/// Law: adding the next weight to a prefix sum gives the next prefix sum.
pub proof fn lemma_sum_weights_step(w: Seq<int>, k: int)
    requires
        0 <= k < w.len(),
    ensures
        sum_weights(w.take(k + 1)) == sum_weights(w.take(k)) + w[k],
{
    assert(w.take(k + 1).drop_last() =~= w.take(k));
    assert(w.take(k + 1).last() == w[k]);
}

/// Law: when every weight is positive, each prefix sum lies between 0 and
/// the total, and prefix sums strictly grow.
pub proof fn lemma_sum_weights_bounds(w: Seq<int>, k: int)
    requires
        0 <= k <= w.len(),
        forall|j: int| 0 <= j < w.len() ==> #[trigger] w[j] > 0,
    ensures
        sum_weights(w.take(k)) <= sum_weights(w),
        k > 0 ==> sum_weights(w.take(k)) > 0,
        sum_weights(w.take(k)) >= 0,
        k < w.len() ==> sum_weights(w.take(k)) < sum_weights(w.take(k + 1)),
    decreases w.len() - k, k,
{
    if k < w.len() {
        lemma_sum_weights_step(w, k);
        lemma_sum_weights_bounds(w, k + 1);
    } else {
        assert(w.take(k) =~= w);
    }
    if k > 0 {
        lemma_sum_weights_step(w, k - 1);
        lemma_sum_weights_nonneg_below(w, k - 1);
    }
}

/// Law: a prefix sum of positive weights is never negative.
proof fn lemma_sum_weights_nonneg_below(w: Seq<int>, k: int)
    requires
        0 <= k <= w.len(),
        forall|j: int| 0 <= j < w.len() ==> #[trigger] w[j] > 0,
    ensures
        sum_weights(w.take(k)) >= 0,
    decreases k,
{
    if k > 0 {
        lemma_sum_weights_step(w, k - 1);
        lemma_sum_weights_nonneg_below(w, k - 1);
    } else {
        assert(w.take(0) =~= Seq::<int>::empty());
    }
}

/// Law: normalization is linear. `min` maps to 0, `max` maps to `SCALE`
/// (the image of 1.0), the result grows monotonically with the value, and
/// a value inside the range lands inside 0..=SCALE.
pub proof fn lemma_normalize_linear(value: i64, other: i64, min: i64, max: i64)
    requires
        min < max,
        min <= value,
        min <= other,
    ensures
        spec_normalize(min as int, min as int, max as int) == 0,
        spec_normalize(max as int, min as int, max as int) == SCALE,
        value <= other ==> spec_normalize(value as int, min as int, max as int) <= spec_normalize(
            other as int,
            min as int,
            max as int,
        ),
        spec_normalize(value as int, min as int, max as int) >= 0,
        value <= max ==> spec_normalize(value as int, min as int, max as int) <= SCALE,
{
    let d = max - min;
    vstd::arithmetic::div_mod::lemma_div_by_multiple(SCALE as int, d);
    assert(d * SCALE == (max - min) * SCALE) by {
        vstd::arithmetic::mul::lemma_mul_is_commutative(d, SCALE as int);
    }
    if value <= other {
        vstd::arithmetic::mul::lemma_mul_inequality(value - min, other - min, SCALE as int);
        vstd::arithmetic::div_mod::lemma_div_is_ordered(
            (value - min) * SCALE,
            (other - min) * SCALE,
            d,
        );
    }
    vstd::arithmetic::mul::lemma_mul_nonnegative(value - min, SCALE as int);
    vstd::arithmetic::div_mod::lemma_div_pos_is_pos((value - min) * SCALE, d);
    if value <= max {
        vstd::arithmetic::mul::lemma_mul_inequality(value - min, max - min, SCALE as int);
        vstd::arithmetic::div_mod::lemma_div_is_ordered(
            (value - min) * SCALE,
            (max - min) * SCALE,
            d,
        );
    }
}

} // verus!
