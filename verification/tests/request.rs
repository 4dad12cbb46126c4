use then_backend::{FractalKind, RenderError, RenderRequest, TileAddress};

fn request(column: i64, row: i64, zoom: i64, edge_size: usize) -> RenderRequest {
    RenderRequest {
        kind: FractalKind::Mandelbrot,
        tile: TileAddress { column, row, zoom },
        edge_size,
        max_iterations: 256,
    }
}

#[test]
fn a_tile_of_the_grid_is_accepted() {
    assert_eq!(Ok(()), request(0, 0, 0, 4).validate());
    assert_eq!(Ok(()), request(0, 0, 0, 256).validate());
    assert_eq!(Ok(()), request(3, 2, 2, 2).validate());
    assert_eq!(Ok(()), request(7, 7, 3, 4096).validate());
    let last = (1i64 << 62) - 1;
    assert_eq!(Ok(()), request(last, last, 62, 2).validate());
    assert_eq!(Ok(()), request(0, last, 62, 2).validate());
}

#[test]
fn a_short_edge_is_refused() {
    assert_eq!(Err(RenderError::InvalidEdgeSize), request(0, 0, 0, 0).validate());
    assert_eq!(Err(RenderError::InvalidEdgeSize), request(0, 0, 0, 1).validate());
    assert_eq!(Ok(()), request(0, 0, 0, 2).validate());
}

#[test]
fn a_long_edge_is_refused() {
    assert_eq!(Ok(()), request(0, 0, 0, 4096).validate());
    assert_eq!(Err(RenderError::InvalidEdgeSize), request(0, 0, 0, 4097).validate());
    assert_eq!(Err(RenderError::InvalidEdgeSize), request(0, 0, 0, usize::MAX).validate());
}

#[test]
fn a_zoom_without_a_grid_is_refused() {
    assert_eq!(Err(RenderError::InvalidZoom), request(0, 0, -1, 4).validate());
    assert_eq!(Err(RenderError::InvalidZoom), request(0, 0, 63, 4).validate());
    assert_eq!(Err(RenderError::InvalidZoom), request(0, 0, 64, 4).validate());
    assert_eq!(Err(RenderError::InvalidZoom), request(0, 0, i64::MAX, 4).validate());
    assert_eq!(Err(RenderError::InvalidZoom), request(0, 0, i64::MIN, 4).validate());
    assert_eq!(Ok(()), request(0, 0, 62, 4).validate());
}

#[test]
fn a_tile_outside_the_grid_is_refused() {
    assert_eq!(Err(RenderError::TileAddressOutOfRange), request(1, 0, 0, 4).validate());
    assert_eq!(Err(RenderError::TileAddressOutOfRange), request(0, 1, 0, 4).validate());
    assert_eq!(Err(RenderError::TileAddressOutOfRange), request(-1, 0, 3, 4).validate());
    assert_eq!(Err(RenderError::TileAddressOutOfRange), request(0, -1, 3, 4).validate());
    assert_eq!(Err(RenderError::TileAddressOutOfRange), request(8, 0, 3, 4).validate());
    assert_eq!(Err(RenderError::TileAddressOutOfRange), request(0, 8, 3, 4).validate());
    assert_eq!(Err(RenderError::TileAddressOutOfRange), request(1i64 << 62, 0, 62, 4).validate());
    assert_eq!(Err(RenderError::TileAddressOutOfRange), request(0, i64::MAX, 62, 4).validate());
    assert_eq!(Err(RenderError::TileAddressOutOfRange), request(i64::MIN, 0, 62, 4).validate());
}

#[test]
fn the_edge_is_looked_at_first_then_the_zoom_then_the_tile() {
    assert_eq!(Err(RenderError::InvalidEdgeSize), request(9, 9, 99, 1).validate());
    assert_eq!(Err(RenderError::InvalidEdgeSize), request(9, 9, 0, 0).validate());
    assert_eq!(Err(RenderError::InvalidEdgeSize), request(-1, -1, -1, 5000).validate());
    assert_eq!(Err(RenderError::InvalidZoom), request(-1, -1, -1, 4).validate());
    assert_eq!(Err(RenderError::InvalidZoom), request(9, 9, 63, 4).validate());
    assert_eq!(Err(RenderError::TileAddressOutOfRange), request(9, 9, 3, 4).validate());
}

#[test]
fn the_kind_and_the_iteration_cap_are_never_a_reason_to_refuse() {
    let mut julia = request(0, 0, 0, 4);
    julia.kind = FractalKind::Julia;
    julia.max_iterations = 0;
    assert_eq!(Ok(()), julia.validate());
    julia.max_iterations = usize::MAX;
    assert_eq!(Ok(()), julia.validate());
}

#[test]
fn the_two_fractals_are_known_by_name() {
    assert_eq!(Ok(FractalKind::Mandelbrot), FractalKind::from_name("mandelbrot"));
    assert_eq!(Ok(FractalKind::Julia), FractalKind::from_name("julia"));
    assert_eq!(Ok(FractalKind::Mandelbrot), FractalKind::from_bytes(b"mandelbrot"));
    assert_eq!(Ok(FractalKind::Julia), FractalKind::from_bytes(b"julia"));
    assert_eq!(Err(RenderError::UnknownFractalKind), FractalKind::from_bytes(b"juli\xff"));
    assert_eq!(Err(RenderError::UnknownFractalKind), FractalKind::from_bytes(b""));
}

#[test]
fn the_julia_set_has_a_fixed_constant_and_the_mandelbrot_set_has_none() {
    assert_eq!(None, FractalKind::Mandelbrot.constant());
    let (re, im) = FractalKind::Julia.constant().unwrap();
    assert_eq!((-2, 5, 3, 5), (re.num, re.den, im.num, im.den));
    assert_eq!((-0.4, 0.6), (re.num as f64 / re.den as f64, im.num as f64 / im.den as f64));
    assert_eq!(4, then_backend::request::BAILOUT);
}

#[test]
fn any_other_name_is_unknown() {
    for name in [
        "", "Julia", "JULIA", "Mandelbrot", "julia ", " julia", "juli", "julias", "mandelbro",
        "mandelbrot2", "burning_ship", "mandelbrot\n", "julia\0", "jul\u{131}a", "flora",
    ] {
        assert_eq!(Err(RenderError::UnknownFractalKind), FractalKind::from_name(name));
    }
}
