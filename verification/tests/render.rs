use then_backend::{
    encode, encoding_outcome, rasterize, render, FractalKind, Fraction, IterationResult,
    RenderError, RenderRequest, TileAddress,
};

fn request(column: i64, row: i64, zoom: i64, edge_size: usize) -> RenderRequest {
    RenderRequest {
        kind: FractalKind::Mandelbrot,
        tile: TileAddress { column, row, zoom },
        edge_size,
        max_iterations: 256,
    }
}

fn value(fraction: Fraction) -> f64 {
    fraction.num as f64 / fraction.den as f64
}

fn mandelbrot(_kind: FractalKind, re: Fraction, im: Fraction, max: usize) -> IterationResult {
    let (re_0, im_0) = (value(re), value(im));
    let mut z = (re_0, im_0);
    for n in 0..max {
        let t_re = z.0 * z.0;
        let t_im = z.1 * z.1;
        if t_re + t_im > 4.0 {
            return IterationResult::Escaped(n);
        }
        z.1 = 2.0 * z.0 * z.1 + im_0;
        z.0 = t_re - t_im + re_0;
    }
    IterationResult::Bounded
}

fn never_asked(_: FractalKind, _: Fraction, _: Fraction, _: usize) -> IterationResult {
    panic!("a refused request must not reach the evaluator")
}

const PNG_SIGNATURE: [u8; 8] = [0x89, b'P', b'N', b'G', 0x0d, 0x0a, 0x1a, 0x0a];

#[test]
fn an_edge_of_one_or_of_no_pixel_is_refused() {
    assert_eq!(Err(RenderError::InvalidEdgeSize), render(&request(0, 0, 0, 1), never_asked));
    assert_eq!(Err(RenderError::InvalidEdgeSize), render(&request(0, 0, 0, 0), never_asked));
    assert_eq!(Err(RenderError::InvalidEdgeSize), render(&request(5, 5, 70, 1), never_asked));
    assert_eq!(Err(RenderError::InvalidEdgeSize), render(&request(-5, 5, -1, 0), never_asked));
}

#[test]
fn a_refused_request_is_not_rendered() {
    assert_eq!(Err(RenderError::InvalidEdgeSize), render(&request(0, 0, 0, 4097), never_asked));
    assert_eq!(Err(RenderError::InvalidZoom), render(&request(0, 0, 63, 4), never_asked));
    assert_eq!(Err(RenderError::InvalidZoom), render(&request(0, 0, -1, 4), never_asked));
    assert_eq!(Err(RenderError::TileAddressOutOfRange), render(&request(4, 0, 2, 4), never_asked));
    assert_eq!(Err(RenderError::TileAddressOutOfRange), render(&request(0, -1, 2, 4), never_asked));
}

#[test]
fn a_rendered_tile_is_a_png_file_that_holds_the_raster() {
    let asked = request(0, 0, 0, 4);
    let bytes = render(&asked, mandelbrot).unwrap();
    assert_eq!(PNG_SIGNATURE[..], bytes[..8]);
    let decoded = image::load_from_memory_with_format(&bytes, image::ImageFormat::Png).unwrap();
    assert_eq!(image::ColorType::Rgba8, decoded.color());
    let decoded = decoded.to_rgba8();
    assert_eq!((4, 4), decoded.dimensions());
    let raster = rasterize(&asked, mandelbrot);
    assert_eq!(raster.as_bytes(), decoded.as_raw());
    // transparency survives: the pixel at column 2 of row 1 belongs to the set
    assert_eq!([0, 0, 0, 0], decoded.get_pixel(2, 1).0);
    assert_eq!([25, 7, 26, 255], decoded.get_pixel(0, 0).0);
    assert_eq!([57, 125, 209, 255], decoded.get_pixel(1, 1).0);
}

#[test]
fn encoding_loses_no_pixel() {
    for (edge, zoom, column, row) in [(2usize, 0i64, 0i64, 0i64), (3, 1, 1, 0), (16, 2, 1, 2), (33, 3, 5, 2)] {
        let asked = request(column, row, zoom, edge);
        let raster = rasterize(&asked, mandelbrot);
        let pixels = raster.as_bytes().clone();
        let bytes = encode(raster).unwrap();
        assert_ne!(pixels, bytes);
        assert_eq!(PNG_SIGNATURE[..], bytes[..8]);
        let decoded = image::load_from_memory(&bytes).unwrap().to_rgba8();
        assert_eq!((edge as u32, edge as u32), decoded.dimensions());
        assert_eq!(&pixels, decoded.as_raw());
    }
}

#[test]
fn one_raster_has_one_encoding() {
    let asked = request(1, 1, 1, 24);
    let first = render(&asked, mandelbrot).unwrap();
    let second = render(&asked, mandelbrot).unwrap();
    let third = encode(rasterize(&asked, mandelbrot)).unwrap();
    assert_eq!(first, second);
    assert_eq!(first, third);
}

#[test]
fn what_the_encoder_wrote_is_handed_on() {
    assert_eq!(Ok(vec![1, 2, 3]), encoding_outcome(Ok(vec![1, 2, 3])));
    assert_eq!(Ok(vec![]), encoding_outcome(Ok(vec![])));
}

#[test]
fn any_refusal_of_the_encoder_is_an_encoding_failure() {
    let io = image::ImageError::IoError(std::io::Error::new(std::io::ErrorKind::Other, "full"));
    assert_eq!(Err(RenderError::EncodingFailure), encoding_outcome(Err(io)));
    let undecodable = image::load_from_memory(&[0u8; 4]).unwrap_err();
    assert_eq!(Err(RenderError::EncodingFailure), encoding_outcome(Err(undecodable)));
}
