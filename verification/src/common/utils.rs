//! Helpers shared by the calculations: running powers, sums, and the trimming
//! of zero cash flows.

use crate::scalar::{equals_zero, is_zero, one, zero, Scalar};
use vstd::prelude::*;

verus! {

/// `first` multiplied `i` times by `base`, one factor at a time.
pub open spec fn nth_power<R: Scalar>(first: R, base: R, i: nat) -> R
    decreases i,
{
    if i == 0 {
        first
    } else {
        nth_power(first, base, (i - 1) as nat).spec_times(base)
    }
}

/// The running powers of `base`: from the zeroth to the `n`th, or from the
/// first to the `n`th (the first alone where `n` is zero).
pub open spec fn powers_of<R: Scalar>(base: R, n: nat, start_from_zero: bool) -> Seq<R> {
    if start_from_zero {
        Seq::new(n + 1, |i: int| nth_power(one(), base, i as nat))
    } else {
        Seq::new(
            if n == 0 {
                1
            } else {
                n
            },
            |i: int| nth_power(base, base, i as nat),
        )
    }
}

/// The sum of the first `n` values, added from the left onto zero.
pub open spec fn sum_to<R: Scalar>(values: Seq<R>, n: nat) -> R
    decreases n,
{
    if n == 0 {
        zero()
    } else {
        sum_to(values, (n - 1) as nat).spec_plus(values[n - 1])
    }
}

/// The sum of all the values.
pub open spec fn total<R: Scalar>(values: Seq<R>) -> R {
    sum_to(values, values.len())
}

/// The index of the first value at or after `i` that is not zero, or the
/// length where there is none.
pub open spec fn first_nonzero<R: Scalar>(values: Seq<R>, i: int) -> int
    decreases values.len() - i,
{
    if 0 <= i < values.len() && is_zero(values[i]) {
        first_nonzero(values, i + 1)
    } else {
        i
    }
}

/// One past the index of the last value before `j` that is not zero, or zero
/// where there is none.
pub open spec fn past_last_nonzero<R: Scalar>(values: Seq<R>, j: int) -> int
    decreases j,
{
    if 0 < j <= values.len() && is_zero(values[j - 1]) {
        past_last_nonzero(values, j - 1)
    } else {
        j
    }
}

/// The values without the zeros that lead and trail them. A series of zeros
/// alone loses its last value.
pub open spec fn trimmed<R: Scalar>(values: Seq<R>) -> Seq<R> {
    if first_nonzero(values, 0) >= values.len() {
        values.subrange(0, values.len() - 1)
    } else {
        values.subrange(first_nonzero(values, 0), past_last_nonzero(values, values.len() as int))
    }
}

/// The values without the zeros that trail them.
pub open spec fn end_trimmed<R: Scalar>(values: Seq<R>) -> Seq<R> {
    values.subrange(0, past_last_nonzero(values, values.len() as int))
}

/// The end of the trimmed values lies in range, and after their start where
/// some value is not zero.
pub proof fn lemma_past_last_nonzero_in_range<R: Scalar>(values: Seq<R>, j: int)
    requires
        0 <= j <= values.len(),
    ensures
        0 <= past_last_nonzero(values, j) <= j,
        first_nonzero(values, 0) < j ==> first_nonzero(values, 0) < past_last_nonzero(values, j),
    decreases j,
{
    if 0 < j && is_zero(values[j - 1]) {
        lemma_past_last_nonzero_in_range(values, j - 1);
        lemma_first_nonzero_is_nonzero(values, 0);
    }
}

/// The first value that is not zero is not zero.
pub proof fn lemma_first_nonzero_is_nonzero<R: Scalar>(values: Seq<R>, i: int)
    requires
        0 <= i <= values.len(),
    ensures
        first_nonzero(values, i) < values.len() ==> !is_zero(values[first_nonzero(values, i)]),
    decreases values.len() - i,
{
    if i < values.len() && is_zero(values[i]) {
        lemma_first_nonzero_is_nonzero(values, i + 1);
    }
}

/// The running powers of `base`, each the product of the one before and
/// `base`.
pub fn powers<R: Scalar>(base: R, n: usize, start_from_zero: bool) -> (pows: Vec<R>)
    requires
        start_from_zero ==> n < usize::MAX,
    ensures
        pows@ == powers_of(base, n as nat, start_from_zero),
{
    let start: usize = if start_from_zero {
        0
    } else {
        1
    };
    let p0 = if start_from_zero {
        R::from_int(1)
    } else {
        base
    };
    let mut pows: Vec<R> = Vec::new();
    pows.push(p0);
    let mut last = p0;
    let mut i: usize = start;
    while i < n
        invariant
            start <= i,
            n > start ==> i <= n,
            n <= start ==> i == start,
            pows@.len() == i - start + 1,
            last == pows@[pows@.len() - 1],
            forall|k: int| 0 <= k < pows@.len() ==> pows@[k] == nth_power(p0, base, k as nat),
        decreases n - i,
    {
        last = last.times(base);
        pows.push(last);
        i = i + 1;
    }
    pows
}

/// Adds the values up from the left.
pub fn sum<R: Scalar>(values: &[R]) -> (r: R)
    ensures
        r == total(values@),
{
    let mut acc = R::from_int(0);
    let mut i: usize = 0;
    while i < values.len()
        invariant
            i <= values@.len(),
            acc == sum_to(values@, i as nat),
        decreases values@.len() - i,
    {
        acc = acc.plus(values[i]);
        i = i + 1;
    }
    acc
}

/// Drops the zeros that lead and trail the values.
pub fn trim_zeros<R: Scalar>(values: &[R]) -> (r: &[R])
    requires
        values@.len() > 0,
    ensures
        r@ == trimmed(values@),
{
    let len = values.len();
    let mut begin: usize = 0;
    while begin < len && equals_zero(values[begin])
        invariant
            len == values@.len(),
            begin <= len,
            first_nonzero(values@, 0) == first_nonzero(values@, begin as int),
        decreases len - begin,
    {
        begin = begin + 1;
    }
    if begin == len {
        return &values[0..len - 1];
    }
    let mut end: usize = len;
    while end > 0 && equals_zero(values[end - 1])
        invariant
            len == values@.len(),
            end <= len,
            past_last_nonzero(values@, len as int) == past_last_nonzero(values@, end as int),
        decreases end,
    {
        end = end - 1;
    }
    proof {
        lemma_past_last_nonzero_in_range(values@, len as int);
    }
    &values[begin..end]
}

/// Drops the zeros that trail the values.
pub fn trim_end_zeros<R: Scalar>(values: &[R]) -> (r: &[R])
    ensures
        r@ == end_trimmed(values@),
{
    let len = values.len();
    let mut end: usize = len;
    while end > 0 && equals_zero(values[end - 1])
        invariant
            len == values@.len(),
            end <= len,
            past_last_nonzero(values@, len as int) == past_last_nonzero(values@, end as int),
        decreases end,
    {
        end = end - 1;
    }
    &values[0..end]
}

} // verus!
