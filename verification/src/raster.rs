//! The tile rasterizer: one pixel for every point of the sample grid.
//!
//! The horizontal pixel index sweeps the real axis and the vertical one the imaginary axis.
//! Pixels are stored row by row, four bytes each: red, green, blue, alpha.

use vstd::prelude::*;
use crate::grid::{axis_samples, lemma_sample_between, sample};
use crate::palette::{color, color_of, IterationResult};
use crate::projection::{lemma_projected_exact, rectangle_of, tile_rectangle, Fraction};
use crate::request::{FractalKind, RenderRequest, MAX_EDGE_SIZE, MIN_EDGE_SIZE};

verus! {

/// What a raster holds: its size in pixels and its bytes.
pub struct Raster {
    pub width: nat,
    pub height: nat,
    pub bytes: Seq<u8>,
}

impl Raster {
    /// There are four bytes for every pixel, and no others.
    pub open spec fn wf(self) -> bool {
        self.bytes.len() == 4 * (self.width * self.height)
    }

    /// The four bytes of the pixel at `column` of `row`.
    pub open spec fn pixel(self, column: int, row: int) -> Seq<u8> {
        pixel_in(self.bytes, self.width as int, column, row)
    }
}

/// The four bytes of the pixel at `column` of `row` in rows of `width` pixels.
pub open spec fn pixel_in(bytes: Seq<u8>, width: int, column: int, row: int) -> Seq<u8> {
    bytes.subrange(4 * (row * width + column), 4 * (row * width + column) + 4)
}

/// A grid of RGBA pixels, stored row by row. It always holds exactly
/// `width * height` pixels.
#[derive(Debug)]
pub struct RasterBuffer {
    width: usize,
    height: usize,
    pixels: Vec<u8>,
}

impl View for RasterBuffer {
    type V = Raster;

    closed spec fn view(&self) -> Raster {
        Raster { width: self.width as nat, height: self.height as nat, bytes: self.pixels@ }
    }
}

impl RasterBuffer {
    #[verifier::type_invariant]
    spec fn complete(self) -> bool {
        self.pixels@.len() == 4 * (self.width * self.height)
    }

    /// Width in pixels.
    pub fn width(&self) -> (width: usize)
        ensures
            width == self@.width,
    {
        self.width
    }

    /// Height in pixels.
    pub fn height(&self) -> (height: usize)
        ensures
            height == self@.height,
    {
        self.height
    }

    /// The bytes of all pixels, row by row.
    pub fn as_bytes(&self) -> (bytes: &Vec<u8>)
        ensures
            bytes@ == self@.bytes,
            self@.wf(),
    {
        proof {
            use_type_invariant(self);
        }
        &self.pixels
    }

    /// The pixel at `column` of `row`.
    pub fn pixel(&self, column: usize, row: usize) -> (pixel: [u8; 4])
        requires
            column < self@.width,
            row < self@.height,
        ensures
            pixel@ == self@.pixel(column as int, row as int),
    {
        proof {
            use_type_invariant(self);
            lemma_cell_offset(column as int, row as int, self.width as int, self.height as int);
            assert(self.pixels@.len() == self.pixels.len());
        }
        let start: usize = 4 * (row * self.width + column);
        let pixel: [u8; 4] = [
            self.pixels[start],
            self.pixels[start + 1],
            self.pixels[start + 2],
            self.pixels[start + 3],
        ];
        assert(pixel@ =~= self@.pixel(column as int, row as int));
        pixel
    }
}

/// The bytes of a pixel inside a raster lie inside its bytes.
proof fn lemma_cell_offset(column: int, row: int, width: int, height: int)
    requires
        0 <= column < width,
        0 <= row < height,
    ensures
        0 <= row * width,
        row * width + column < width * height,
        4 * (row * width + column) + 4 <= 4 * (width * height),
{
    assert(0 <= row * width && (row + 1) * width <= height * width && (row + 1) * width == row
        * width + width && height * width == width * height) by (nonlinear_arith)
        requires
            0 <= row < height,
            0 <= width,
    ;
}

/// A cell that comes before another in row-major order starts at least four bytes earlier.
proof fn lemma_cell_precedes(column: int, row: int, next_column: int, next_row: int, width: int)
    requires
        0 <= column < width,
        0 <= row,
        0 <= next_column <= width,
        row < next_row || (row == next_row && column < next_column),
    ensures
        0 <= row * width + column,
        row * width + column + 1 <= next_row * width + next_column,
{
    assert(0 <= row * width && (row < next_row ==> (row + 1) * width <= next_row * width) && (row
        + 1) * width == row * width + width) by (nonlinear_arith)
        requires
            0 <= row,
            0 <= width,
    ;
}

/// Real part of the plane point under pixel column `column`: the samples run from the real
/// part of the tile's own corner to that of the opposite corner.
pub open spec fn sample_re(request: RenderRequest, column: int) -> Fraction {
    sample(
        rectangle_of(request.tile).min.re,
        rectangle_of(request.tile).max.re,
        column,
        request.edge_size as int,
    )
}

/// Imaginary part of the plane point under pixel row `row`.
pub open spec fn sample_im(request: RenderRequest, row: int) -> Fraction {
    sample(
        rectangle_of(request.tile).min.im,
        rectangle_of(request.tile).max.im,
        row,
        request.edge_size as int,
    )
}

/// The evaluator may be asked about every point of the request's sample grid.
pub open spec fn covers_grid<F: Fn(FractalKind, Fraction, Fraction, usize) -> IterationResult>(
    request: RenderRequest,
    evaluate: F,
) -> bool {
    forall|column: int, row: int|
        #![trigger sample_re(request, column), sample_im(request, row)]
        0 <= column < request.edge_size && 0 <= row < request.edge_size ==> call_requires(
            evaluate,
            (
                request.kind,
                sample_re(request, column),
                sample_im(request, row),
                request.max_iterations,
            ),
        )
}

/// `pixel` is the colour of an outcome that the evaluator can give for the point under
/// `column` and `row`.
pub open spec fn painted<F: Fn(FractalKind, Fraction, Fraction, usize) -> IterationResult>(
    request: RenderRequest,
    evaluate: F,
    pixel: Seq<u8>,
    column: int,
    row: int,
) -> bool {
    exists|outcome: IterationResult|
        #![trigger color_of(outcome)]
        call_ensures(
            evaluate,
            (
                request.kind,
                sample_re(request, column),
                sample_im(request, row),
                request.max_iterations,
            ),
            outcome,
        ) && pixel == color_of(outcome)
}

/// `raster` is a rendering of the request with the evaluator: it has `edge_size` pixels a
/// side, and the pixel at every column and row is the colour of what the evaluator gives for
/// the point under it.
pub open spec fn rasterized<F: Fn(FractalKind, Fraction, Fraction, usize) -> IterationResult>(
    request: RenderRequest,
    evaluate: F,
    raster: Raster,
) -> bool {
    &&& raster.width == request.edge_size
    &&& raster.height == request.edge_size
    &&& raster.wf()
    &&& forall|column: int, row: int|
        0 <= column < request.edge_size && 0 <= row < request.edge_size ==> #[trigger] painted(
            request,
            evaluate,
            raster.pixel(column, row),
            column,
            row,
        )
}

/// The cells before `(next_column, next_row)` in row-major order are painted in `bytes`.
spec fn painted_before<F: Fn(FractalKind, Fraction, Fraction, usize) -> IterationResult>(
    request: RenderRequest,
    evaluate: F,
    bytes: Seq<u8>,
    next_column: int,
    next_row: int,
) -> bool {
    forall|column: int, row: int|
        0 <= column < request.edge_size && 0 <= row && (row < next_row || (row == next_row
            && column < next_column)) ==> #[trigger] painted(
            request,
            evaluate,
            pixel_in(bytes, request.edge_size as int, column, row),
            column,
            row,
        )
}

/// Renders the tile of a valid request into a raster of `edge_size` by `edge_size` pixels.
/// The pixel at each column and row is the colour of an outcome of the evaluator at the
/// point of the sample grid under it. The evaluator need accept the points of the sample
/// grid only, which all lie in the rectangle of the tile.
pub fn rasterize<F: Fn(FractalKind, Fraction, Fraction, usize) -> IterationResult>(
    request: &RenderRequest,
    evaluate: F,
) -> (buffer: RasterBuffer)
    requires
        request.valid(),
        covers_grid(*request, evaluate),
    ensures
        rasterized(*request, evaluate, buffer@),
        buffer@.width == request.edge_size,
        buffer@.height == request.edge_size,
        buffer@.bytes.len() == 4 * (request.edge_size * request.edge_size),
        forall|column: int|
            0 <= column < request.edge_size ==> (#[trigger] sample_re(*request, column)).between(
                rectangle_of(request.tile).min.re,
                rectangle_of(request.tile).max.re,
            ),
        forall|row: int|
            0 <= row < request.edge_size ==> (#[trigger] sample_im(*request, row)).between(
                rectangle_of(request.tile).min.im,
                rectangle_of(request.tile).max.im,
            ),
{
    let edge: usize = request.edge_size;
    proof {
        assert forall|column: int| 0 <= column < request.edge_size implies (#[trigger] sample_re(
            *request,
            column,
        )).between(rectangle_of(request.tile).min.re, rectangle_of(request.tile).max.re) by {
            lemma_grid_within_rectangle(*request, column, 0);
        }
        assert forall|row: int| 0 <= row < request.edge_size implies (#[trigger] sample_im(
            *request,
            row,
        )).between(rectangle_of(request.tile).min.im, rectangle_of(request.tile).max.im) by {
            lemma_grid_within_rectangle(*request, 0, row);
        }
    }
    let rectangle = tile_rectangle(request.tile);
    proof {
        lemma_projected_exact(
            request.tile.column as int,
            request.tile.row as int,
            request.tile.zoom as nat,
        );
        lemma_projected_exact(
            request.tile.column + 1,
            request.tile.row + 1,
            request.tile.zoom as nat,
        );
    }
    let re_range = axis_samples(rectangle.min.re, rectangle.max.re, edge);
    let im_range = axis_samples(rectangle.min.im, rectangle.max.im, edge);
    let mut pixels: Vec<u8> = Vec::new();
    let mut row: usize = 0;
    while row < edge
        invariant
            edge == request.edge_size,
            MIN_EDGE_SIZE <= edge <= MAX_EDGE_SIZE,
            row <= edge,
            covers_grid(*request, evaluate),
            re_range.len() == edge,
            im_range.len() == edge,
            forall|i: int| 0 <= i < edge ==> #[trigger] re_range[i] == sample_re(*request, i),
            forall|i: int| 0 <= i < edge ==> #[trigger] im_range[i] == sample_im(*request, i),
            pixels.len() == 4 * (row * edge),
            painted_before(*request, evaluate, pixels@, 0, row as int),
        decreases edge - row,
    {
        let mut column: usize = 0;
        while column < edge
            invariant
                edge == request.edge_size,
                MIN_EDGE_SIZE <= edge <= MAX_EDGE_SIZE,
                row < edge,
                column <= edge,
                covers_grid(*request, evaluate),
                re_range.len() == edge,
                im_range.len() == edge,
                forall|i: int| 0 <= i < edge ==> #[trigger] re_range[i] == sample_re(*request, i),
                forall|i: int| 0 <= i < edge ==> #[trigger] im_range[i] == sample_im(*request, i),
                pixels.len() == 4 * (row * edge + column),
                painted_before(*request, evaluate, pixels@, column as int, row as int),
            decreases edge - column,
        {
            let re = re_range[column];
            let im = im_range[row];
            assert(re == sample_re(*request, column as int));
            assert(im == sample_im(*request, row as int));
            let outcome = evaluate(request.kind, re, im, request.max_iterations);
            let pixel = color(outcome);
            let ghost before = pixels@;
            proof {
                lemma_cell_offset(column as int, row as int, edge as int, edge as int);
                assert(edge * edge <= 4096 * 4096) by (nonlinear_arith)
                    requires
                        0 <= edge <= 4096,
                ;
            }
            pixels.push(pixel[0]);
            pixels.push(pixel[1]);
            pixels.push(pixel[2]);
            pixels.push(pixel[3]);
            proof {
                let width = edge as int;
                assert(pixel_in(pixels@, width, column as int, row as int) =~= pixel@);
                assert(painted(*request, evaluate, pixel@, column as int, row as int));
                assert forall|c: int, r: int|
                    0 <= c < request.edge_size && 0 <= r && (r < row || (r == row && c < column
                        + 1)) implies #[trigger] painted(
                    *request,
                    evaluate,
                    pixel_in(pixels@, width, c, r),
                    c,
                    r,
                ) by {
                    if r == row && c == column {
                    } else {
                        lemma_cell_precedes(c, r, column as int, row as int, width);
                        assert(pixel_in(pixels@, width, c, r) =~= pixel_in(before, width, c, r));
                        assert(painted(*request, evaluate, pixel_in(before, width, c, r), c, r));
                    }
                }
            }
            column = column + 1;
        }
        proof {
            assert((row + 1) * edge == row * edge + edge) by (nonlinear_arith);
            assert forall|c: int, r: int|
                0 <= c < request.edge_size && 0 <= r && (r < row + 1 || (r == row + 1 && c
                    < 0)) implies #[trigger] painted(
                *request,
                evaluate,
                pixel_in(pixels@, edge as int, c, r),
                c,
                r,
            ) by {
                assert(r < row || (r == row && c < column));
            }
        }
        row = row + 1;
    }
    let buffer = RasterBuffer { width: edge, height: edge, pixels };
    proof {
        assert forall|c: int, r: int|
            0 <= c < request.edge_size && 0 <= r < request.edge_size implies #[trigger] painted(
            *request,
            evaluate,
            buffer@.pixel(c, r),
            c,
            r,
        ) by {
            assert(painted(*request, evaluate, pixel_in(pixels@, edge as int, c, r), c, r));
        }
    }
    buffer
}

/// Every point of the sample grid of a valid request lies in the rectangle that its tile
/// covers: between the real parts of the two corners, and between their imaginary parts.
pub proof fn lemma_grid_within_rectangle(request: RenderRequest, column: int, row: int)
    requires
        request.valid(),
        0 <= column < request.edge_size,
        0 <= row < request.edge_size,
    ensures
        sample_re(request, column).between(
            rectangle_of(request.tile).min.re,
            rectangle_of(request.tile).max.re,
        ),
        sample_im(request, row).between(
            rectangle_of(request.tile).min.im,
            rectangle_of(request.tile).max.im,
        ),
{
    let tile = request.tile;
    let edge = request.edge_size as int;
    let rectangle = rectangle_of(tile);
    lemma_projected_exact(tile.column as int, tile.row as int, tile.zoom as nat);
    lemma_projected_exact(tile.column + 1, tile.row + 1, tile.zoom as nat);
    lemma_sample_between(rectangle.min.re, rectangle.max.re, column, edge);
    lemma_sample_between(rectangle.min.im, rectangle.max.im, row, edge);
}

/// Where the evaluator never lets the point under a pixel escape, every rendering shows that
/// pixel black and fully transparent.
pub proof fn lemma_bounded_point_is_transparent<
    F: Fn(FractalKind, Fraction, Fraction, usize) -> IterationResult,
>(request: RenderRequest, evaluate: F, raster: Raster, column: int, row: int)
    requires
        rasterized(request, evaluate, raster),
        0 <= column < request.edge_size,
        0 <= row < request.edge_size,
        forall|outcome: IterationResult|
            call_ensures(
                evaluate,
                (
                    request.kind,
                    sample_re(request, column),
                    sample_im(request, row),
                    request.max_iterations,
                ),
                outcome,
            ) ==> outcome == IterationResult::Bounded,
    ensures
        raster.pixel(column, row) == seq![0u8, 0u8, 0u8, 0u8],
{
    assert(painted(request, evaluate, raster.pixel(column, row), column, row));
}

/// The evaluator gives one outcome only for each point it is asked about.
pub open spec fn single_valued<F: Fn(FractalKind, Fraction, Fraction, usize) -> IterationResult>(
    evaluate: F,
) -> bool {
    forall|
        kind: FractalKind,
        re: Fraction,
        im: Fraction,
        max_iterations: usize,
        one: IterationResult,
        other: IterationResult,
    |
        #![trigger call_ensures(evaluate, (kind, re, im, max_iterations), one), call_ensures(evaluate, (kind, re, im, max_iterations), other)]
        call_ensures(evaluate, (kind, re, im, max_iterations), one) && call_ensures(
            evaluate,
            (kind, re, im, max_iterations),
            other,
        ) ==> one == other
}

/// Rendering is a function of the request: with an evaluator that gives one outcome for
/// each point, any two renderings of one request are the same raster, pixel for pixel.
pub proof fn lemma_rasterize_deterministic<
    F: Fn(FractalKind, Fraction, Fraction, usize) -> IterationResult,
>(request: RenderRequest, evaluate: F, first: Raster, second: Raster)
    requires
        single_valued(evaluate),
        rasterized(request, evaluate, first),
        rasterized(request, evaluate, second),
    ensures
        first == second,
{
    let edge = request.edge_size as int;
    assert(first.bytes.len() == second.bytes.len());
    assert forall|at: int| 0 <= at < first.bytes.len() implies first.bytes[at] == second.bytes[at] by {
        let cell = at / 4;
        let part = at % 4;
        assert(0 <= cell < edge * edge);
        assert(edge > 0) by (nonlinear_arith)
            requires
                0 <= cell < edge * edge,
                0 <= edge,
        ;
        let row = cell / edge;
        let column = cell % edge;
        assert(cell == row * edge + column && 0 <= column < edge && 0 <= row < edge)
            by (nonlinear_arith)
            requires
                0 <= cell < edge * edge,
                edge > 0,
                row == cell / edge,
                column == cell % edge,
        ;
        let one = first.pixel(column, row);
        let other = second.pixel(column, row);
        assert(painted(request, evaluate, one, column, row));
        assert(painted(request, evaluate, other, column, row));
        assert(one == other);
        assert(one[part] == first.bytes[at]);
        assert(other[part] == second.bytes[at]);
    }
    assert(first.bytes =~= second.bytes);
}

} // verus!
