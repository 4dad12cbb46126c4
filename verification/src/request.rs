//! Render requests: what is asked for, and which requests are refused.

use vstd::arithmetic::power2::pow2;
use vstd::prelude::*;
use vstd::string::StringSliceAdditionalSpecFns;
use crate::projection::Fraction;
use crate::text::same_bytes;

verus! {

/// Smallest zoom level that is refused: the grid of a level has `2^zoom` tiles a side,
/// which has to fit a signed 64-bit integer.
pub const ZOOM_LIMIT: i64 = 63;

/// Smallest accepted edge, in pixels: the sample grid divides by `edge_size - 1`.
pub const MIN_EDGE_SIZE: usize = 2;

/// Largest accepted edge, in pixels.
pub const MAX_EDGE_SIZE: usize = 4096;

/// The escape-time function that a tile is rendered with.
#[derive(Clone, Copy, Debug, PartialEq, Eq, Structural)]
pub enum FractalKind {
    Mandelbrot,
    Julia,
}

/// A tile of the plane: its column and row in the grid of `2^zoom` by `2^zoom` tiles.
#[derive(Clone, Copy, Debug, PartialEq, Eq, Structural)]
pub struct TileAddress {
    pub column: i64,
    pub row: i64,
    pub zoom: i64,
}

/// Everything that determines a rendered tile.
#[derive(Clone, Copy, Debug, PartialEq, Eq, Structural)]
pub struct RenderRequest {
    pub kind: FractalKind,
    pub tile: TileAddress,
    /// Width and height of the tile, in pixels.
    pub edge_size: usize,
    /// Number of steps after which a point counts as not escaping.
    pub max_iterations: usize,
}

/// Why a request was not rendered.
#[derive(Clone, Copy, Debug, PartialEq, Eq, Structural)]
pub enum RenderError {
    /// The zoom level is negative or at least `ZOOM_LIMIT`.
    InvalidZoom,
    /// Column or row lies outside the grid of the zoom level.
    TileAddressOutOfRange,
    /// The edge is shorter than `MIN_EDGE_SIZE` or longer than `MAX_EDGE_SIZE`.
    InvalidEdgeSize,
    /// The name is not that of a supported fractal.
    UnknownFractalKind,
    /// The image encoder refused the raster.
    EncodingFailure,
}

/// Square of the radius of the bailout disc: an orbit has escaped once the square of its
/// distance from the origin is larger than this.
pub const BAILOUT: u8 = 4;

/// The name of the Mandelbrot set, `mandelbrot`, in bytes.
pub const MANDELBROT_NAME: [u8; 10] = [109, 97, 110, 100, 101, 108, 98, 114, 111, 116];

/// The name of the Julia set, `julia`, in bytes.
pub const JULIA_NAME: [u8; 5] = [106, 117, 108, 105, 97];

impl FractalKind {
    /// The kind that a name stands for. Names are told apart byte by byte: capitals and
    /// surrounding blanks make another name.
    pub open spec fn named(name: Seq<u8>) -> Option<FractalKind> {
        if name == MANDELBROT_NAME@ {
            Some(FractalKind::Mandelbrot)
        } else if name == JULIA_NAME@ {
            Some(FractalKind::Julia)
        } else {
            None
        }
    }

    /// Resolves the name of a fractal, given as bytes: `mandelbrot` and `julia` are known;
    /// every other name is refused with `UnknownFractalKind`.
    pub fn from_bytes(name: &[u8]) -> (kind: Result<FractalKind, RenderError>)
        ensures
            kind == (match FractalKind::named(name@) {
                Some(k) => Ok::<FractalKind, RenderError>(k),
                None => Err::<FractalKind, RenderError>(RenderError::UnknownFractalKind),
            }),
    {
        if same_bytes(name, &MANDELBROT_NAME) {
            Ok(FractalKind::Mandelbrot)
        } else if same_bytes(name, &JULIA_NAME) {
            Ok(FractalKind::Julia)
        } else {
            Err(RenderError::UnknownFractalKind)
        }
    }

    /// Resolves the name of a fractal by the bytes of its UTF-8 form: `mandelbrot` and
    /// `julia` are known; every other name is refused with `UnknownFractalKind`.
    pub fn from_name(name: &str) -> (kind: Result<FractalKind, RenderError>)
        ensures
            kind == (match FractalKind::named(name.spec_bytes()) {
                Some(k) => Ok::<FractalKind, RenderError>(k),
                None => Err::<FractalKind, RenderError>(RenderError::UnknownFractalKind),
            }),
    {
        FractalKind::from_bytes(name.as_bytes())
    }

    /// The constant `c` of the recurrence `z -> z * z + c`, where the kind fixes one: for
    /// the Julia set it is `-2/5 + 3/5 i`. For the Mandelbrot set there is none: the
    /// constant is the point that is iterated.
    pub fn constant(self) -> (c: Option<(Fraction, Fraction)>)
        ensures
            c == (match self {
                FractalKind::Mandelbrot => None::<(Fraction, Fraction)>,
                FractalKind::Julia => Some(
                    (Fraction { num: -2i128, den: 5i128 }, Fraction { num: 3i128, den: 5i128 }),
                ),
            }),
    {
        match self {
            FractalKind::Mandelbrot => None,
            FractalKind::Julia => Some((Fraction { num: -2, den: 5 }, Fraction { num: 3, den: 5 })),
        }
    }
}

impl TileAddress {
    /// The zoom level is one that a grid exists for.
    pub open spec fn zoom_in_range(self) -> bool {
        0 <= self.zoom < ZOOM_LIMIT
    }

    /// Column and row lie inside the grid of the zoom level.
    pub open spec fn in_grid(self) -> bool {
        &&& 0 <= self.column < pow2(self.zoom as nat)
        &&& 0 <= self.row < pow2(self.zoom as nat)
    }

    /// The address names a tile.
    pub open spec fn valid(self) -> bool {
        self.zoom_in_range() && self.in_grid()
    }
}

impl RenderRequest {
    /// The edge is neither too short to interpolate over nor longer than the cap.
    pub open spec fn edge_in_range(self) -> bool {
        MIN_EDGE_SIZE <= self.edge_size <= MAX_EDGE_SIZE
    }

    /// The request can be rendered.
    pub open spec fn valid(self) -> bool {
        self.edge_in_range() && self.tile.valid()
    }

    /// The error that a request is refused with, if it is refused. The edge is looked at
    /// first, then the zoom level, then column and row.
    pub open spec fn rejection(self) -> Option<RenderError> {
        if !self.edge_in_range() {
            Some(RenderError::InvalidEdgeSize)
        } else if !self.tile.zoom_in_range() {
            Some(RenderError::InvalidZoom)
        } else if !self.tile.in_grid() {
            Some(RenderError::TileAddressOutOfRange)
        } else {
            None
        }
    }

    /// Accepts the request, or says why it is refused.
    pub fn validate(&self) -> (checked: Result<(), RenderError>)
        ensures
            checked == (match self.rejection() {
                Some(e) => Err::<(), RenderError>(e),
                None => Ok::<(), RenderError>(()),
            }),
            checked is Ok <==> self.valid(),
            self.edge_size < 2 ==> checked == Err::<(), RenderError>(RenderError::InvalidEdgeSize),
    {
        if self.edge_size < MIN_EDGE_SIZE || self.edge_size > MAX_EDGE_SIZE {
            return Err(RenderError::InvalidEdgeSize);
        }
        if self.tile.zoom < 0 || self.tile.zoom >= ZOOM_LIMIT {
            return Err(RenderError::InvalidZoom);
        }
        let side: i128 = crate::projection::power_of_two(self.tile.zoom as u32);
        if self.tile.column < 0 || self.tile.column as i128 >= side || self.tile.row < 0
            || self.tile.row as i128 >= side {
            return Err(RenderError::TileAddressOutOfRange);
        }
        Ok(())
    }
}

/// A request whose edge is shorter than two pixels is refused as `InvalidEdgeSize`, whatever
/// else it holds.
pub proof fn lemma_short_edge_is_refused(request: RenderRequest)
    requires
        request.edge_size < 2,
    ensures
        request.rejection() == Some(RenderError::InvalidEdgeSize),
        !request.valid(),
{
}

} // verus!
