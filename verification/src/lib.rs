//! The logic behind a small site: tiles of escape-time fractals rendered on request, a
//! counter of days, and the routing between the two.

pub mod elapsed;
pub mod encode;
pub mod grid;
pub mod palette;
pub mod projection;
pub mod raster;
pub mod request;
pub mod route;
pub mod text;

pub use elapsed::{
    age_at, days_elapsed_between_timestamps, is_timestamp_in_range, Age, FixedOffset,
};
pub use encode::{encode, encoding_outcome, render};
pub use grid::{axis_samples, interpolate};
pub use palette::{coarse_color_map, color, wikipedia, IterationResult};
pub use projection::{project, tile_rectangle, Fraction, PlanePoint, PlaneRectangle};
pub use raster::{rasterize, RasterBuffer};
pub use request::{FractalKind, RenderError, RenderRequest, TileAddress};
pub use route::{requested_edge_size, route, Route, DEFAULT_EDGE_SIZE, DEFAULT_MAX_ITERATIONS};
pub use text::{parse_decimal, parse_integer};
