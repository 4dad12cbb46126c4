//! Projection: from tile addresses to exact points of the complex plane.
//!
//! A tile grid of zoom level `z` has `n = 2^z` tiles a side. The tile corner at column `c`
//! and row `r` lies at the point with real part `2r/n - 3/2` and imaginary part `1 - 2c/n`:
//! the real part grows with the row, the imaginary part falls as the column grows. Both are
//! kept as exact fractions over the common denominator `2n`.

use vstd::arithmetic::power2::{
    lemma2_to64, lemma2_to64_rest, lemma_pow2_pos, lemma_pow2_strictly_increases, lemma_pow2_unfold,
    pow2,
};
use vstd::prelude::*;
use crate::request::{TileAddress, ZOOM_LIMIT};

verus! {

/// An exact rational number, `num / den`. It is well formed when `den` is positive; it need
/// not be in lowest terms.
#[derive(Clone, Copy, Debug, PartialEq, Eq, Structural)]
pub struct Fraction {
    pub num: i128,
    pub den: i128,
}

/// A point of the complex plane.
#[derive(Clone, Copy, Debug, PartialEq, Eq, Structural)]
pub struct PlanePoint {
    pub re: Fraction,
    pub im: Fraction,
}

/// The part of the plane that a tile covers, given by two opposite corners: `min` is the
/// corner of the tile itself, `max` that of its diagonal neighbour. Neither is promised to be
/// the numerically smaller one.
#[derive(Clone, Copy, Debug, PartialEq, Eq, Structural)]
pub struct PlaneRectangle {
    pub min: PlanePoint,
    pub max: PlanePoint,
}

impl Fraction {
    /// The denominator is positive.
    pub open spec fn wf(self) -> bool {
        self.den > 0
    }

    /// `self <= other` as rational numbers, for well-formed fractions.
    pub open spec fn le(self, other: Fraction) -> bool {
        self.num * other.den <= other.num * self.den
    }

    /// `self == other` as rational numbers, for well-formed fractions.
    pub open spec fn same_value(self, other: Fraction) -> bool {
        self.num * other.den == other.num * self.den
    }

    /// `self` lies in the closed interval that `a` and `b` span, whichever of the two is
    /// larger.
    pub open spec fn between(self, a: Fraction, b: Fraction) -> bool {
        (a.le(self) && self.le(b)) || (b.le(self) && self.le(a))
    }
}

/// Numerator, over `plane_denominator(zoom)`, of the real part at a row: `2r/n - 3/2`.
pub open spec fn real_numerator(row: int, zoom: nat) -> int {
    4 * row - 3 * (pow2(zoom) as int)
}

/// Numerator, over `plane_denominator(zoom)`, of the imaginary part at a column: `1 - 2c/n`.
pub open spec fn imaginary_numerator(column: int, zoom: nat) -> int {
    2 * (pow2(zoom) as int) - 4 * column
}

/// The denominator that both parts of a projected point have: `2n`.
pub open spec fn plane_denominator(zoom: nat) -> int {
    2 * (pow2(zoom) as int)
}

/// The point that a tile corner is projected to.
pub open spec fn projected(column: int, row: int, zoom: nat) -> PlanePoint {
    PlanePoint {
        re: Fraction {
            num: real_numerator(row, zoom) as i128,
            den: plane_denominator(zoom) as i128,
        },
        im: Fraction {
            num: imaginary_numerator(column, zoom) as i128,
            den: plane_denominator(zoom) as i128,
        },
    }
}

/// A projected point holds exactly the numerators and the denominator of its definition:
/// for every corner of a grid of a zoom level below the limit, and of its neighbours, they
/// fit 128 bits with room to spare.
pub proof fn lemma_projected_exact(column: int, row: int, zoom: nat)
    requires
        zoom < 63,
        i64::MIN <= column <= i64::MAX + 1,
        i64::MIN <= row <= i64::MAX + 1,
    ensures
        projected(column, row, zoom).re.num == real_numerator(row, zoom),
        projected(column, row, zoom).im.num == imaginary_numerator(column, zoom),
        projected(column, row, zoom).re.den == plane_denominator(zoom),
        projected(column, row, zoom).im.den == plane_denominator(zoom),
        0 < plane_denominator(zoom) <= 0x8000_0000_0000_0000,
        -0x4_0000_0000_0000_0000 <= real_numerator(row, zoom) <= 0x4_0000_0000_0000_0000,
        -0x4_0000_0000_0000_0000 <= imaginary_numerator(column, zoom) <= 0x4_0000_0000_0000_0000,
{
    lemma2_to64_rest();
    lemma_pow2_pos(zoom);
    if zoom < 62 {
        lemma_pow2_strictly_increases(zoom, 62);
    }
}

/// Two to the power `exponent`.
pub(crate) fn power_of_two(exponent: u32) -> (power: i128)
    requires
        exponent < 63,
    ensures
        power == pow2(exponent as nat),
        1 <= power <= 0x4000_0000_0000_0000,
{
    let mut power: i128 = 1;
    let mut done: u32 = 0;
    proof {
        lemma2_to64();
        lemma2_to64_rest();
    }
    while done < exponent
        invariant
            done <= exponent < 63,
            power == pow2(done as nat),
            1 <= power <= 0x4000_0000_0000_0000,
            pow2(62) == 0x4000_0000_0000_0000,
        decreases exponent - done,
    {
        proof {
            lemma_pow2_unfold((done + 1) as nat);
            if done + 1 < 62 {
                lemma_pow2_strictly_increases((done + 1) as nat, 62);
            }
        }
        power = power * 2;
        done = done + 1;
    }
    power
}

/// Projects a corner given in wide integers, so that the far corner of the last tile of a
/// grid can be asked for.
fn project_corner(column: i128, row: i128, zoom: u32) -> (point: PlanePoint)
    requires
        zoom < 63,
        i64::MIN <= column <= i64::MAX + 1,
        i64::MIN <= row <= i64::MAX + 1,
    ensures
        point == projected(column as int, row as int, zoom as nat),
        point.re.num == real_numerator(row as int, zoom as nat),
        point.im.num == imaginary_numerator(column as int, zoom as nat),
        point.re.den == plane_denominator(zoom as nat),
        point.im.den == plane_denominator(zoom as nat),
        point.re.wf(),
        point.im.wf(),
{
    let side: i128 = power_of_two(zoom);
    let den: i128 = 2 * side;
    PlanePoint {
        re: Fraction { num: 4 * row - 3 * side, den },
        im: Fraction { num: den - 4 * column, den },
    }
}

/// Maps the corner of the tile at `column` and `row` of zoom level `zoom` to its point of the
/// plane, as the pair of real and imaginary part. With `n = 2^zoom` the real part is
/// `2 * row / n - 3/2` and the imaginary part `1 - 2 * column / n`, both exact and over the
/// denominator `2n`.
pub fn project(column: i64, row: i64, zoom: i64) -> (point: (Fraction, Fraction))
    requires
        0 <= zoom < ZOOM_LIMIT,
    ensures
        point.0 == projected(column as int, row as int, zoom as nat).re,
        point.1 == projected(column as int, row as int, zoom as nat).im,
        point.0.num == real_numerator(row as int, zoom as nat),
        point.1.num == imaginary_numerator(column as int, zoom as nat),
        point.0.den == plane_denominator(zoom as nat),
        point.1.den == plane_denominator(zoom as nat),
        point.0.wf(),
        point.1.wf(),
{
    let corner = project_corner(column as i128, row as i128, zoom as u32);
    (corner.re, corner.im)
}

/// The rectangle that a tile covers: from its own corner to the corner of the tile one
/// column and one row further.
pub open spec fn rectangle_of(tile: TileAddress) -> PlaneRectangle {
    PlaneRectangle {
        min: projected(tile.column as int, tile.row as int, tile.zoom as nat),
        max: projected(tile.column + 1, tile.row + 1, tile.zoom as nat),
    }
}

/// The rectangle of the plane that a tile covers.
pub fn tile_rectangle(tile: TileAddress) -> (rectangle: PlaneRectangle)
    requires
        tile.zoom_in_range(),
    ensures
        rectangle == rectangle_of(tile),
        rectangle.min.re.num == real_numerator(tile.row as int, tile.zoom as nat),
        rectangle.max.re.num == real_numerator(tile.row + 1, tile.zoom as nat),
        rectangle.min.im.num == imaginary_numerator(tile.column as int, tile.zoom as nat),
        rectangle.max.im.num == imaginary_numerator(tile.column + 1, tile.zoom as nat),
        rectangle.min.re.den == plane_denominator(tile.zoom as nat),
        rectangle.max.re.den == plane_denominator(tile.zoom as nat),
        rectangle.min.im.den == plane_denominator(tile.zoom as nat),
        rectangle.max.im.den == plane_denominator(tile.zoom as nat),
{
    let zoom: u32 = tile.zoom as u32;
    let min = project_corner(tile.column as i128, tile.row as i128, zoom);
    let max = project_corner(tile.column as i128 + 1, tile.row as i128 + 1, zoom);
    PlaneRectangle { min, max }
}

} // verus!
