//! The boundary to the `image` codec crate: decoding a byte stream into
//! a raster and encoding a raster as PNG.
//!
//! Decoding and encoding are pure computations on bytes, but their exact
//! results would take pages to state, so each is given a name: the
//! wrappers below promise only that they return those named values, and
//! the verified code around them is proved against the names.

use vstd::prelude::*;

use crate::raster::Image;

verus! {

/// The codec library's error type, carried through opaquely: the
/// verified code only tells success from failure and never reads it.
#[verifier::external_type_specification]
#[verifier::external_body]
pub struct ExImageError(image::ImageError);

/// What the codec library decodes a byte stream to: the width, height
/// and flat RGBA samples of the raster, four samples per pixel in
/// row-major order, or nothing when the bytes decode as no supported
/// image. Decoding depends on the bytes alone as long as no
/// process-global decoding hook is registered with the codec library;
/// this crate registers none, and a program that does so forfeits this
/// name's determinism.
pub uninterp spec fn decoded_rgba(bytes: Seq<u8>) -> Option<(u32, u32, Seq<u8>)>;

/// What the codec library's PNG encoder writes for a raster of the given
/// width, height and flat RGBA samples. Encoding depends on these three
/// arguments alone.
pub uninterp spec fn png_encoding(width: u32, height: u32, data: Seq<u8>) -> Seq<u8>;

/// Relies on `image::load_from_memory` and `DynamicImage::to_rgba8`:
/// decoding guesses the format from the bytes and depends on nothing but
/// them, and the RGBA8 buffer it converts to holds exactly four samples
/// per pixel of the decoded dimensions.
#[verifier::external_body]
pub(crate) fn decode_image(bytes: &Vec<u8>) -> (r: Result<Image, image::ImageError>)
    ensures
        r is Ok <==> decoded_rgba(bytes@) is Some,
        r is Ok ==> ({
            let decoded = decoded_rgba(bytes@)->Some_0;
            r->Ok_0.width == decoded.0 && r->Ok_0.height == decoded.1 && r->Ok_0.data@
                == decoded.2 && r->Ok_0.wf()
        }),
{
    let dynimg = image::load_from_memory(bytes.as_slice())?;
    let buf = dynimg.to_rgba8();
    let width = buf.width();
    let height = buf.height();
    Ok(Image { width, height, data: buf.into_raw() })
}

/// Relies on `PngEncoder::write_image` with RGBA8 samples: the encoding
/// depends on the dimensions and samples alone, and a buffer of exactly
/// four samples per pixel is never refused for its length. With both
/// dimensions nonzero it succeeds: the PNG writer refuses only zero
/// width, zero height, an invalid colour combination (RGBA8 is valid)
/// or a wrong buffer length, and every other failure path only passes
/// on an error of the sink, which here is an in-memory vector that
/// never fails to write.
#[verifier::external_body]
pub(crate) fn encode_png(img: &Image) -> (r: Result<Vec<u8>, image::ImageError>)
    requires
        img.wf(),
    ensures
        r is Ok ==> r->Ok_0@ == png_encoding(img.width, img.height, img.data@),
        img.width > 0 && img.height > 0 ==> r is Ok,
{
    let mut out: Vec<u8> = Vec::new();
    let enc = image::codecs::png::PngEncoder::new(&mut out);
    let color = image::ExtendedColorType::Rgba8;
    match image::ImageEncoder::write_image(enc, img.data.as_slice(), img.width, img.height, color) {
        Ok(()) => Ok(out),
        Err(e) => Err(e),
    }
}

} // verus!
