//! The JPEG encoder of the `jpeg_encoder` crate, as far as this library
//! uses it. Verus takes what is said here on trust.

use jpeg_encoder::{ColorType, Encoder, EncodingError};
use vstd::prelude::*;

verus! {

/// The most pixels of an image that is handed to the encoder.
///
/// The encoder fits its Huffman tables to the image and builds them in a
/// table with room for codes of up to 32 bits. A code of 33 bits takes
/// 9,227,465 coded symbols in one table; an image within this limit gives
/// every table fewer, whatever its content. Beyond the limit the encoder may
/// stop with a panic.
pub const MAX_PIXELS: usize = 4_000_000;

/// The most bytes of an RGB buffer that is handed to the encoder: three for
/// each of `MAX_PIXELS` pixels.
pub const MAX_RGB_LEN: usize = 12_000_000;

/// The error type of the encoder. Nothing is known of a value of it.
#[verifier::external_type_specification]
#[verifier::external_body]
pub struct ExEncodingError(EncodingError);

/// The JPEG stream that the encoder writes for an RGB image of `width` by
/// `height` pixels at quality `quality`, with Huffman tables fitted to the
/// image.
pub uninterp spec fn jpeg_stream(rgb: Seq<u8>, width: u16, height: u16, quality: u8) -> Seq<u8>;

/// Calls `Encoder::new` on the sink, `set_optimized_huffman_tables(true)`
/// and `encode` with `ColorType::Rgb`.
///
/// Trusted, for a buffer of three bytes per pixel and of at most
/// `MAX_RGB_LEN` bytes: the encoder returns; it refuses only an image without
/// pixels, and does so before it writes; otherwise it appends the whole
/// stream, which depends on the four arguments alone, to the sink, which,
/// being a vector, takes every byte.
#[verifier::external_body]
pub(crate) fn jpeg_encode(
    rgb: &[u8],
    width: u16,
    height: u16,
    quality: u8,
    sink: &mut Vec<u8>,
) -> (r: Result<(), EncodingError>)
    requires
        rgb@.len() == 3 * (width * height),
        rgb@.len() <= MAX_RGB_LEN,
    ensures
        match r {
            Ok(()) => {
                &&& width > 0 && height > 0
                &&& final(sink)@ == old(sink)@ + jpeg_stream(rgb@, width, height, quality)
            },
            Err(_) => {
                &&& width == 0 || height == 0
                &&& final(sink)@ == old(sink)@
            },
        },
{
    let mut encoder = Encoder::new(sink, quality);
    encoder.set_optimized_huffman_tables(true);
    encoder.encode(rgb, width, height, ColorType::Rgb)
}

} // verus!
