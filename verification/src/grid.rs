//! The sample grid: equally spaced points between the two corners of a tile, the first on
//! one corner and the last on the other.

use vstd::prelude::*;
use crate::projection::Fraction;
use crate::request::{MAX_EDGE_SIZE, MIN_EDGE_SIZE};

verus! {

/// Largest magnitude of numerator and denominator that interpolation accepts, `2^100`: the
/// products it forms then fit 128 bits.
pub const FRACTION_LIMIT: i128 = 0x10_0000_0000_0000_0000_0000_0000;

impl Fraction {
    /// Well formed, and small enough to interpolate from.
    pub open spec fn bounded(self) -> bool {
        &&& -FRACTION_LIMIT <= self.num <= FRACTION_LIMIT
        &&& 0 < self.den <= FRACTION_LIMIT
    }
}

/// Numerator of sample `index` out of `edge_size` samples from `lo / den` to `hi / den`,
/// over `sample_denominator(den, edge_size)`: the value is `lo + (hi - lo) * index / (edge_size - 1)`.
pub open spec fn sample_numerator(lo: int, hi: int, index: int, edge_size: int) -> int {
    lo * (edge_size - 1) + (hi - lo) * index
}

/// Denominator of every sample between two fractions over `den`.
pub open spec fn sample_denominator(den: int, edge_size: int) -> int {
    den * (edge_size - 1)
}

/// Sample `index` out of `edge_size` samples that run from `lo` to `hi`, two fractions over
/// one denominator.
pub open spec fn sample(lo: Fraction, hi: Fraction, index: int, edge_size: int) -> Fraction {
    Fraction {
        num: sample_numerator(lo.num as int, hi.num as int, index, edge_size) as i128,
        den: sample_denominator(lo.den as int, edge_size) as i128,
    }
}

/// The products that a sample is made of stay far inside 128 bits.
proof fn lemma_sample_fits(lo: Fraction, hi: Fraction, index: int, edge_size: int)
    requires
        lo.bounded(),
        hi.bounded(),
        lo.den == hi.den,
        MIN_EDGE_SIZE <= edge_size <= MAX_EDGE_SIZE,
        0 <= index < edge_size,
    ensures
        -4095 * FRACTION_LIMIT <= lo.num * (edge_size - 1) <= 4095 * FRACTION_LIMIT,
        -8190 * FRACTION_LIMIT <= (hi.num - lo.num) * index <= 8190 * FRACTION_LIMIT,
        0 < lo.den * (edge_size - 1) <= 4095 * FRACTION_LIMIT,
        sample(lo, hi, index, edge_size).num == sample_numerator(
            lo.num as int,
            hi.num as int,
            index,
            edge_size,
        ),
        sample(lo, hi, index, edge_size).den == sample_denominator(lo.den as int, edge_size),
        sample(lo, hi, index, edge_size).wf(),
{
    let a = lo.num as int;
    let d = lo.den as int;
    let w = hi.num - lo.num;
    let m = edge_size - 1;
    let limit = FRACTION_LIMIT as int;
    assert(-4095 * limit <= a * m <= 4095 * limit) by (nonlinear_arith)
        requires
            -limit <= a <= limit,
            1 <= m <= 4095,
            limit > 0,
    ;
    assert(-8190 * limit <= w * index <= 8190 * limit) by (nonlinear_arith)
        requires
            -2 * limit <= w <= 2 * limit,
            0 <= index <= 4095,
            limit > 0,
    ;
    assert(0 < d * m <= 4095 * limit) by (nonlinear_arith)
        requires
            0 < d <= limit,
            1 <= m <= 4095,
    ;
}

/// Sample `index` out of `edge_size` equally spaced samples from `lo` to `hi`: the first
/// sample is `lo`, the last is `hi`, and those between divide the way evenly.
pub fn interpolate(lo: Fraction, hi: Fraction, index: usize, edge_size: usize) -> (point: Fraction)
    requires
        lo.bounded(),
        hi.bounded(),
        lo.den == hi.den,
        MIN_EDGE_SIZE <= edge_size <= MAX_EDGE_SIZE,
        index < edge_size,
    ensures
        point == sample(lo, hi, index as int, edge_size as int),
        point.num == sample_numerator(lo.num as int, hi.num as int, index as int, edge_size as int),
        point.den == sample_denominator(lo.den as int, edge_size as int),
        point.wf(),
        point.between(lo, hi),
{
    proof {
        lemma_sample_fits(lo, hi, index as int, edge_size as int);
        lemma_sample_between(lo, hi, index as int, edge_size as int);
    }
    let steps: i128 = (edge_size - 1) as i128;
    let num: i128 = lo.num * steps + (hi.num - lo.num) * (index as i128);
    let den: i128 = lo.den * steps;
    Fraction { num, den }
}

/// All `edge_size` samples from `lo` to `hi`, in order.
pub fn axis_samples(lo: Fraction, hi: Fraction, edge_size: usize) -> (samples: Vec<Fraction>)
    requires
        lo.bounded(),
        hi.bounded(),
        lo.den == hi.den,
        MIN_EDGE_SIZE <= edge_size <= MAX_EDGE_SIZE,
    ensures
        samples.len() == edge_size,
        forall|i: int| 0 <= i < edge_size ==> #[trigger] samples[i] == sample(lo, hi, i, edge_size as int),
{
    let mut samples: Vec<Fraction> = Vec::new();
    let mut index: usize = 0;
    while index < edge_size
        invariant
            lo.bounded(),
            hi.bounded(),
            lo.den == hi.den,
            MIN_EDGE_SIZE <= edge_size <= MAX_EDGE_SIZE,
            index <= edge_size,
            samples.len() == index,
            forall|i: int| 0 <= i < index ==> #[trigger] samples[i] == sample(lo, hi, i, edge_size as int),
        decreases edge_size - index,
    {
        samples.push(interpolate(lo, hi, index, edge_size));
        index = index + 1;
    }
    samples
}

/// Every sample lies between the two ends, whichever of them is the larger; the first
/// sample has the value of `lo` and the last that of `hi`.
pub proof fn lemma_sample_between(lo: Fraction, hi: Fraction, index: int, edge_size: int)
    requires
        lo.bounded(),
        hi.bounded(),
        lo.den == hi.den,
        MIN_EDGE_SIZE <= edge_size <= MAX_EDGE_SIZE,
        0 <= index < edge_size,
    ensures
        sample(lo, hi, index, edge_size).between(lo, hi),
        index == 0 ==> sample(lo, hi, index, edge_size).same_value(lo),
        index == edge_size - 1 ==> sample(lo, hi, index, edge_size).same_value(hi),
{
    lemma_sample_fits(lo, hi, index, edge_size);
    let a = lo.num as int;
    let b = hi.num as int;
    let d = lo.den as int;
    let m = edge_size - 1;
    let s = sample(lo, hi, index, edge_size);
    assert(s.num == a * m + (b - a) * index);
    assert(s.den == d * m);
    // s - lo has the sign of (b - a) * index * d, hi - s that of (b - a) * (m - index) * d
    assert(s.num * d - a * (d * m) == ((b - a) * index) * d) by (nonlinear_arith)
        requires
            s.num == a * m + (b - a) * index,
    ;
    assert(b * (d * m) - s.num * d == ((b - a) * (m - index)) * d) by (nonlinear_arith)
        requires
            s.num == a * m + (b - a) * index,
    ;
    if a <= b {
        assert(((b - a) * index) * d >= 0) by (nonlinear_arith)
            requires
                b - a >= 0,
                index >= 0,
                d > 0,
        ;
        assert(((b - a) * (m - index)) * d >= 0) by (nonlinear_arith)
            requires
                b - a >= 0,
                m - index >= 0,
                d > 0,
        ;
        assert(lo.le(s));
        assert(s.le(hi));
    } else {
        assert(((b - a) * index) * d <= 0) by (nonlinear_arith)
            requires
                b - a <= 0,
                index >= 0,
                d > 0,
        ;
        assert(((b - a) * (m - index)) * d <= 0) by (nonlinear_arith)
            requires
                b - a <= 0,
                m - index >= 0,
                d > 0,
        ;
        assert(s.le(lo));
        assert(hi.le(s));
    }
    if index == 0 {
        assert(((b - a) * index) * d == 0) by (nonlinear_arith)
            requires
                index == 0,
        ;
    }
    if index == m {
        assert(((b - a) * (m - index)) * d == 0) by (nonlinear_arith)
            requires
                m - index == 0,
        ;
    }
}

} // verus!
