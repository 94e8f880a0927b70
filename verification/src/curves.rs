//! Fan curves: which pair of curve points a sensor value falls between,
//! and the modes and operations that curve configurations name.

use vstd::prelude::*;

verus! {

/// How to interpolate between the points of a curve.
#[derive(Clone, Copy, Debug, PartialEq, Eq, Structural)]
pub enum InterpolationMode {
    /// Interpolate linearly along subsequent pairs of points.
    LinearInterpolation,
    /// Snap to the value of the highest point below the sensor input.
    SnapLow,
    /// Snap to the value of the lowest point above the sensor input.
    SnapHigh,
}

/// The interpolation mode of a curve that names none.
pub fn default_interpolation_mode() -> (r: InterpolationMode)
    ensures
        r == InterpolationMode::LinearInterpolation,
{
    InterpolationMode::LinearInterpolation
}

/// How several sensor values are combined into one.
#[derive(Clone, Copy, Debug, PartialEq, Eq, Structural)]
pub enum SensorMergeOperation {
    /// The minimum value; nothing if there are no values.
    MIN,
    /// The maximum value; nothing if there are no values.
    MAX,
    /// The average value; nothing if there are no values.
    AVERAGE,
    /// The median value; nothing if there are no values.
    MEDIAN,
    /// The sum of all values; the additive identity if there are none.
    SUM,
    /// The product of all values; the multiplicative identity if there are none.
    PRODUCT,
}

impl SensorMergeOperation {
    /// Whether this operation gives a value even when there are no values to merge.
    pub fn has_identity(self) -> (r: bool)
        ensures
            r == (self == SensorMergeOperation::SUM || self == SensorMergeOperation::PRODUCT),
    {
        match self {
            SensorMergeOperation::SUM | SensorMergeOperation::PRODUCT => true,
            _ => false,
        }
    }
}

/// The position of the last `true` in `s`, if there is one.
pub open spec fn last_true(s: Seq<bool>) -> Option<int>
    decreases s.len(),
{
    if s.len() == 0 {
        None
    } else if s.last() {
        Some(s.len() - 1)
    } else {
        last_true(s.drop_last())
    }
}

/// The curve points to interpolate between, for a curve of `at_or_below.len()` points where
/// `at_or_below[i]` tells whether point `i` lies at or below the sensor value:
/// the low point is the last one at or below the value (none if the value is below them all);
/// the high point is the one after it (none if the low point is the last point), or the first
/// point if there is no low point.
pub open spec fn curve_indices(at_or_below: Seq<bool>) -> (Option<int>, Option<int>) {
    match last_true(at_or_below) {
        None => (None, Some(0)),
        Some(low) => (Some(low), if low < at_or_below.len() - 1 { Some(low + 1) } else { None }),
    }
}

/// The low curve point lies at or below the sensor value and every point after it lies above;
/// with no low point, every point lies above the value.
pub proof fn last_true_bounds(s: Seq<bool>)
    ensures
        last_true(s) matches Some(i) ==> 0 <= i < s.len() && s[i] && forall|j: int| i < j < s.len() ==> !s[j],
        last_true(s) is None ==> forall|j: int| 0 <= j < s.len() ==> !s[j],
    decreases s.len(),
{
    if s.len() > 0 && !s.last() {
        last_true_bounds(s.drop_last());
        assert forall|j: int| 0 <= j < s.len() - 1 implies s[j] == s.drop_last()[j] by {}
    }
}

/// Finds the curve points to interpolate between (see [`curve_indices`]):
/// returns the low and the high index.
pub fn interpolation_indices(at_or_below: &Vec<bool>) -> (r: (Option<usize>, Option<usize>))
    ensures
        (match r.0 {
            Some(i) => Some(i as int),
            None => None::<int>,
        }, match r.1 {
            Some(i) => Some(i as int),
            None => None::<int>,
        }) == curve_indices(at_or_below@),
{
    let n = at_or_below.len();
    let mut i = n;
    assert(at_or_below@.take(n as int) == at_or_below@);
    while i > 0 && !at_or_below[i - 1]
        invariant
            i <= n,
            n == at_or_below@.len(),
            last_true(at_or_below@.take(i as int)) == last_true(at_or_below@),
        decreases i,
    {
        proof {
            assert(at_or_below@.take(i as int).drop_last() == at_or_below@.take(i - 1));
        }
        i = i - 1;
    }
    if i == 0 {
        proof {
            assert(at_or_below@.take(0) =~= Seq::<bool>::empty());
        }
        (None, Some(0))
    } else {
        let low = i - 1;
        proof {
            assert(at_or_below@.take(i as int).last() == at_or_below@[low as int]);
        }
        if low < n - 1 {
            (Some(low), Some(low + 1))
        } else {
            (Some(low), None)
        }
    }
}

/// For a curve whose points are sorted, the points at or below the sensor value are the first
/// `k`: the low point is then point `k - 1` (none when `k` is 0) and the high point is point
/// `k` (none when all points lie at or below the value).
pub proof fn sorted_curve_indices(at_or_below: Seq<bool>, k: int)
    requires
        0 <= k <= at_or_below.len(),
        forall|i: int| 0 <= i < at_or_below.len() ==> (at_or_below[i] <==> i < k),
    ensures
        curve_indices(at_or_below) == (if k == 0 {
            (None::<int>, Some(0int))
        } else {
            (Some(k - 1), if k < at_or_below.len() { Some(k) } else { None::<int> })
        }),
{
    last_true_bounds(at_or_below);
    if k > 0 {
        assert(at_or_below[k - 1]);
    }
}

} // verus!
