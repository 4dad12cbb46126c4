//! The image encoder, and rendering from request to encoded bytes.

use vstd::prelude::*;
use crate::palette::IterationResult;
use crate::projection::Fraction;
use crate::raster::{covers_grid, rasterize, rasterized, Raster, RasterBuffer};
use crate::request::{FractalKind, RenderError, RenderRequest};

verus! {

/// The error of the `image` crate, `image::ImageError`. Nothing is read from it: it is
/// carried from the encoder to `encoding_outcome`.
#[verifier::external_type_specification]
#[verifier::external_body]
pub struct ExImageError(image::ImageError);

/// What `image::write_buffer_with_format` makes of a raster of `width` by `height` RGBA
/// pixels with the bytes `rgba`, when asked for the PNG format: the file that it writes, or
/// `None` where it answers with an error.
pub uninterp spec fn png_encoding(width: int, height: int, rgba: Seq<u8>) -> Option<Seq<u8>>;

/// Calls `image::write_buffer_with_format` for the PNG format on a writer in memory.
/// Believed of it: what it writes, and whether it writes, depends on the size and the bytes
/// alone, so that its outcome has the name `png_encoding`. Nothing is claimed of what the
/// file holds. The encoder stops the program when the buffer holds another number of bytes
/// than four for each pixel, which the precondition excludes.
#[verifier::external_body]
fn write_png(width: u32, height: u32, rgba: &Vec<u8>) -> (written: Result<
    Vec<u8>,
    image::ImageError,
>)
    requires
        rgba@.len() == 4 * (width * height),
    ensures
        match written {
            Ok(bytes) => png_encoding(width as int, height as int, rgba@) == Some(bytes@),
            Err(_) => png_encoding(width as int, height as int, rgba@) is None,
        },
{
    let mut bytes: Vec<u8> = Vec::new();
    image::write_buffer_with_format(
        &mut std::io::Cursor::new(&mut bytes),
        rgba,
        width,
        height,
        image::ColorType::Rgba8,
        image::ImageOutputFormat::Png,
    )?;
    Ok(bytes)
}

/// What the encoder's answer means to the caller: the bytes where it wrote them,
/// `EncodingFailure` where it refused, whatever its reason.
pub fn encoding_outcome(written: Result<Vec<u8>, image::ImageError>) -> (encoded: Result<
    Vec<u8>,
    RenderError,
>)
    ensures
        match written {
            Ok(bytes) => encoded == Ok::<Vec<u8>, RenderError>(bytes),
            Err(_) => encoded == Err::<Vec<u8>, RenderError>(RenderError::EncodingFailure),
        },
{
    match written {
        Ok(bytes) => Ok(bytes),
        Err(_) => Err(RenderError::EncodingFailure),
    }
}

/// The encoder can be asked about a raster of this size: both sides fit 32 bits.
pub open spec fn encodable(raster: Raster) -> bool {
    raster.width <= u32::MAX && raster.height <= u32::MAX
}

/// What encoding a raster gives: the PNG file, or nothing where the raster is too large to
/// hand to the encoder or the encoder refuses it.
pub open spec fn encoding_of(raster: Raster) -> Option<Seq<u8>> {
    if encodable(raster) {
        png_encoding(raster.width as int, raster.height as int, raster.bytes)
    } else {
        None
    }
}

/// Encodes a raster as a PNG file with an alpha channel. Fails with `EncodingFailure`
/// where there is no encoding.
pub fn encode(buffer: RasterBuffer) -> (encoded: Result<Vec<u8>, RenderError>)
    ensures
        match encoded {
            Ok(bytes) => encoding_of(buffer@) == Some(bytes@),
            Err(e) => e == RenderError::EncodingFailure && encoding_of(buffer@) is None,
        },
{
    let width = buffer.width();
    let height = buffer.height();
    if width > u32::MAX as usize || height > u32::MAX as usize {
        return Err(RenderError::EncodingFailure);
    }
    let written = write_png(width as u32, height as u32, buffer.as_bytes());
    encoding_outcome(written)
}

/// Renders a request: the PNG file of the tile, or the reason why there is none. An invalid
/// request is refused with the error of `RenderRequest::rejection`, and the evaluator need
/// not accept anything then. A valid one is rasterized with the evaluator, and the raster
/// is encoded.
pub fn render<F: Fn(FractalKind, Fraction, Fraction, usize) -> IterationResult>(
    request: &RenderRequest,
    evaluate: F,
) -> (rendered: Result<Vec<u8>, RenderError>)
    requires
        request.valid() ==> covers_grid(*request, evaluate),
    ensures
        match request.rejection() {
            Some(refusal) => rendered == Err::<Vec<u8>, RenderError>(refusal),
            None => exists|raster: Raster| #[trigger]
                rasterized(*request, evaluate, raster) && (match rendered {
                    Ok(bytes) => encoding_of(raster) == Some(bytes@),
                    Err(e) => e == RenderError::EncodingFailure && encoding_of(raster) is None,
                }),
        },
        request.edge_size < 2 ==> rendered == Err::<Vec<u8>, RenderError>(
            RenderError::InvalidEdgeSize,
        ),
{
    match request.validate() {
        Err(refusal) => Err(refusal),
        Ok(_) => {
            let buffer = rasterize(request, evaluate);
            assert(rasterized(*request, evaluate, buffer@));
            encode(buffer)
        },
    }
}

} // verus!
