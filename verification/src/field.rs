//! Whole-field operations on raw samples: the observed range and the
//! rescaling of a sample into the unit interval.

use vstd::prelude::*;
use crate::scalar::{Scalar, ZERO_BITS, HALF_BITS, ONE_BITS};

verus! {

/// The least of the samples that are numbers, or nothing where no sample is
/// a number. The scan runs from the left: the first number starts it, and a
/// later number replaces the running least only when it is below it.
pub open spec fn lowest(samples: Seq<Scalar>) -> Option<Scalar>
    decreases samples.len(),
{
    if samples.len() == 0 {
        None
    } else {
        let before = lowest(samples.drop_last());
        let sample = samples.last();
        if sample.spec_is_nan() {
            before
        } else {
            match before {
                None => Some(sample),
                Some(least) => if sample.spec_lt(least) {
                    Some(sample)
                } else {
                    Some(least)
                },
            }
        }
    }
}

/// The greatest of the samples that are numbers, or nothing where no sample
/// is a number. The scan runs from the left: the first number starts it, and
/// a later number replaces the running greatest only when it is above it.
pub open spec fn highest(samples: Seq<Scalar>) -> Option<Scalar>
    decreases samples.len(),
{
    if samples.len() == 0 {
        None
    } else {
        let before = highest(samples.drop_last());
        let sample = samples.last();
        if sample.spec_is_nan() {
            before
        } else {
            match before {
                None => Some(sample),
                Some(greatest) => if sample.spec_gt(greatest) {
                    Some(sample)
                } else {
                    Some(greatest)
                },
            }
        }
    }
}

/// The range that a field is observed to span: its least and its greatest
/// sample, or nothing where no sample is a number.
pub open spec fn observed_range(samples: Seq<Scalar>) -> Option<(Scalar, Scalar)> {
    match (lowest(samples), highest(samples)) {
        (Some(lo), Some(hi)) => Some((lo, hi)),
        _ => None,
    }
}

/// A range is degenerate when it has no extent: there is none, or its lower
/// end is not below its upper end. The observed range of a field is
/// degenerate exactly when no sample is a number or the least and the
/// greatest sample have one value.
pub open spec fn degenerate(range: Option<(Scalar, Scalar)>) -> bool {
    match range {
        None => true,
        Some((lo, hi)) => !lo.spec_lt(hi),
    }
}

/// What the least of a field is: there is none exactly when no sample is a
/// number; else it is a number, one of the samples, and at most every sample
/// that is a number.
pub proof fn lemma_lowest(samples: Seq<Scalar>)
    ensures
        lowest(samples) is None <==> forall|i: int|
            0 <= i < samples.len() ==> (#[trigger] samples[i]).spec_is_nan(),
        lowest(samples) is Some ==> {
            &&& !lowest(samples)->Some_0.spec_is_nan()
            &&& forall|i: int|
                0 <= i < samples.len() && !(#[trigger] samples[i]).spec_is_nan() ==> lowest(
                    samples,
                )->Some_0.rank() <= samples[i].rank()
            &&& exists|i: int|
                0 <= i < samples.len() && #[trigger] samples[i] == lowest(samples)->Some_0
        },
    decreases samples.len(),
{
    if samples.len() > 0 {
        let front = samples.drop_last();
        let last = samples.len() - 1;
        lemma_lowest(front);
        if lowest(samples) is None {
            assert forall|i: int| 0 <= i < samples.len() implies (
            #[trigger] samples[i]).spec_is_nan() by {
                if i < front.len() {
                    assert(front[i] == samples[i]);
                }
            }
        } else {
            let least = lowest(samples)->Some_0;
            assert forall|i: int|
                0 <= i < samples.len() && !(#[trigger] samples[i]).spec_is_nan() implies least.rank()
                <= samples[i].rank() by {
                if i < front.len() {
                    assert(front[i] == samples[i]);
                }
            }
            if least == samples[last] && !samples[last].spec_is_nan() {
                assert(samples[last] == least);
            } else {
                let i = choose|i: int|
                    0 <= i < front.len() && #[trigger] front[i] == lowest(front)->Some_0;
                assert(samples[i] == least);
            }
        }
    }
}

/// What the greatest of a field is: there is none exactly when no sample is
/// a number; else it is a number, one of the samples, and at least every
/// sample that is a number.
pub proof fn lemma_highest(samples: Seq<Scalar>)
    ensures
        highest(samples) is None <==> forall|i: int|
            0 <= i < samples.len() ==> (#[trigger] samples[i]).spec_is_nan(),
        highest(samples) is Some ==> {
            &&& !highest(samples)->Some_0.spec_is_nan()
            &&& forall|i: int|
                0 <= i < samples.len() && !(#[trigger] samples[i]).spec_is_nan() ==> highest(
                    samples,
                )->Some_0.rank() >= samples[i].rank()
            &&& exists|i: int|
                0 <= i < samples.len() && #[trigger] samples[i] == highest(samples)->Some_0
        },
    decreases samples.len(),
{
    if samples.len() > 0 {
        let front = samples.drop_last();
        let last = samples.len() - 1;
        lemma_highest(front);
        if highest(samples) is None {
            assert forall|i: int| 0 <= i < samples.len() implies (
            #[trigger] samples[i]).spec_is_nan() by {
                if i < front.len() {
                    assert(front[i] == samples[i]);
                }
            }
        } else {
            let greatest = highest(samples)->Some_0;
            assert forall|i: int|
                0 <= i < samples.len() && !(#[trigger] samples[i]).spec_is_nan() implies greatest.rank()
                >= samples[i].rank() by {
                if i < front.len() {
                    assert(front[i] == samples[i]);
                }
            }
            if greatest == samples[last] && !samples[last].spec_is_nan() {
                assert(samples[last] == greatest);
            } else {
                let i = choose|i: int|
                    0 <= i < front.len() && #[trigger] front[i] == highest(front)->Some_0;
                assert(samples[i] == greatest);
            }
        }
    }
}

/// The observed range of a field: there is none exactly when no sample is a
/// number; else both ends are samples, every sample that is a number lies
/// from the lower end to the upper, and the range is degenerate exactly when
/// the two ends have one value.
pub proof fn lemma_observed_range(samples: Seq<Scalar>)
    ensures
        observed_range(samples) is None <==> forall|i: int|
            0 <= i < samples.len() ==> (#[trigger] samples[i]).spec_is_nan(),
        observed_range(samples) is Some ==> {
            let (lo, hi) = observed_range(samples)->Some_0;
            &&& !lo.spec_is_nan()
            &&& !hi.spec_is_nan()
            &&& lo.rank() <= hi.rank()
            &&& forall|i: int|
                0 <= i < samples.len() && !(#[trigger] samples[i]).spec_is_nan() ==> lo.rank()
                    <= samples[i].rank() <= hi.rank()
            &&& exists|i: int| 0 <= i < samples.len() && #[trigger] samples[i] == lo
            &&& exists|i: int| 0 <= i < samples.len() && #[trigger] samples[i] == hi
            &&& degenerate(observed_range(samples)) <==> lo.spec_same_value(hi)
        },
{
    lemma_lowest(samples);
    lemma_highest(samples);
    if observed_range(samples) is Some {
        let (lo, hi) = observed_range(samples)->Some_0;
        let i = choose|i: int| 0 <= i < samples.len() && #[trigger] samples[i] == lo;
        assert(lo.rank() <= hi.rank());
    }
}

/// A constant field is degenerate: where every sample that is a number has
/// the value of `c`, the observed range has no extent.
pub proof fn lemma_constant_field_is_degenerate(samples: Seq<Scalar>, c: Scalar)
    requires
        forall|i: int|
            0 <= i < samples.len() ==> (#[trigger] samples[i]).spec_is_nan()
                || samples[i].spec_same_value(c),
    ensures
        degenerate(observed_range(samples)),
{
    lemma_observed_range(samples);
}

/// The least and the greatest of the samples that are numbers, or nothing
/// where no sample is a number.
pub fn range_of(samples: &Vec<Scalar>) -> (r: Option<(Scalar, Scalar)>)
    ensures
        r == observed_range(samples@),
{
    let mut lo: Option<Scalar> = None;
    let mut hi: Option<Scalar> = None;
    let mut i: usize = 0;
    while i < samples.len()
        invariant
            i <= samples.len(),
            lo == lowest(samples@.take(i as int)),
            hi == highest(samples@.take(i as int)),
        decreases samples.len() - i,
    {
        let v: Scalar = samples[i];
        proof {
            assert(samples@.take(i + 1).drop_last() =~= samples@.take(i as int));
            assert(samples@.take(i + 1).last() == v);
        }
        if !v.is_nan() {
            lo = match lo {
                None => Some(v),
                Some(least) => if v.lt(least) {
                    Some(v)
                } else {
                    Some(least)
                },
            };
            hi = match hi {
                None => Some(v),
                Some(greatest) => if v.gt(greatest) {
                    Some(v)
                } else {
                    Some(greatest)
                },
            };
        }
        i = i + 1;
    }
    proof {
        assert(samples@.take(samples.len() as int) =~= samples@);
    }
    match (lo, hi) {
        (Some(least), Some(greatest)) => Some((least, greatest)),
        _ => None,
    }
}

/// Whether `r` is the sample `raw` rescaled from `range` to the unit
/// interval, with `divide` as the arithmetic:
/// - in a degenerate range every sample becomes `0.5`;
/// - a sample equal to the lower end becomes `0.0` and one equal to the
///   upper end becomes `1.0`;
/// - any other becomes what `divide` gives for the sample and the two ends,
///   brought into the unit interval, a NaN counting as `0.5`.
pub open spec fn rescaled<D: Fn(Scalar, Scalar, Scalar) -> Scalar>(
    r: Scalar,
    raw: Scalar,
    range: Option<(Scalar, Scalar)>,
    divide: D,
) -> bool {
    if degenerate(range) {
        r == (Scalar { bits: HALF_BITS })
    } else {
        let (lo, hi) = range->Some_0;
        if raw.spec_same_value(lo) {
            r == (Scalar { bits: ZERO_BITS })
        } else if raw.spec_same_value(hi) {
            r == (Scalar { bits: ONE_BITS })
        } else {
            exists|q: Scalar| #[trigger]
                divide.ensures((raw, lo, hi), q) && r == q.spec_clamp_unit(
                    Scalar { bits: HALF_BITS },
                )
        }
    }
}

/// Rescales the sample `raw` from `range` to the unit interval. `divide` is
/// asked for `(raw - lo) / (hi - lo)` only where the range is not degenerate
/// and the sample is neither of its ends.
pub fn rescale<D: Fn(Scalar, Scalar, Scalar) -> Scalar>(
    raw: Scalar,
    range: Option<(Scalar, Scalar)>,
    divide: &D,
) -> (r: Scalar)
    requires
        forall|lo: Scalar, hi: Scalar| divide.requires((raw, lo, hi)),
    ensures
        rescaled(r, raw, range, *divide),
        r.in_unit(),
{
    match range {
        None => Scalar::half(),
        Some((lo, hi)) => {
            if !lo.lt(hi) {
                Scalar::half()
            } else if raw.same_value(lo) {
                Scalar::zero()
            } else if raw.same_value(hi) {
                Scalar::one()
            } else {
                let q: Scalar = divide(raw, lo, hi);
                q.clamp_unit(Scalar::half())
            }
        },
    }
}

/// In a field that is not degenerate some sample is rescaled to exactly
/// `0.0` and some sample to exactly `1.0`, whatever the arithmetic.
pub proof fn lemma_rescaled_ends<D: Fn(Scalar, Scalar, Scalar) -> Scalar>(
    samples: Seq<Scalar>,
    divide: D,
)
    requires
        !degenerate(observed_range(samples)),
    ensures
        exists|i: int|
            0 <= i < samples.len() && forall|r: Scalar|
                rescaled(r, #[trigger] samples[i], observed_range(samples), divide) ==> r == (
                Scalar { bits: ZERO_BITS }),
        exists|j: int|
            0 <= j < samples.len() && forall|r: Scalar|
                rescaled(r, #[trigger] samples[j], observed_range(samples), divide) ==> r == (
                Scalar { bits: ONE_BITS }),
{
    lemma_observed_range(samples);
    let (lo, hi) = observed_range(samples)->Some_0;
    let i = choose|i: int| 0 <= i < samples.len() && #[trigger] samples[i] == lo;
    let j = choose|j: int| 0 <= j < samples.len() && #[trigger] samples[j] == hi;
    assert(samples[i].spec_same_value(lo));
    assert(samples[j].spec_same_value(hi) && !samples[j].spec_same_value(lo));
}

/// A vector of `n` copies of `value`.
pub fn filled<T: Copy>(value: T, n: usize) -> (r: Vec<T>)
    ensures
        r@.len() == n,
        forall|i: int| 0 <= i < n ==> r@[i] == value,
{
    let mut r: Vec<T> = Vec::new();
    let mut i: usize = 0;
    while i < n
        invariant
            i <= n,
            r@.len() == i,
            forall|j: int| 0 <= j < i ==> r@[j] == value,
        decreases n - i,
    {
        r.push(value);
        i = i + 1;
    }
    r
}

} // verus!
