//! The pipeline: a framebuffer is converted and the result encoded.

use crate::convert::{convert, straight_rgb};
use crate::encode::{encode, rgb_len, EncodeError};
use crate::jpeg::{jpeg_stream, MAX_PIXELS};
use vstd::prelude::*;

verus! {

/// A finished frame: packed premultiplied ARGB words, row after row, and
/// the dimensions they are declared to fill.
#[derive(Clone, Debug)]
pub struct Framebuffer {
    pub width: u16,
    pub height: u16,
    pub pixels: Vec<u32>,
}

impl Framebuffer {
    /// The frame holds one word for every pixel of its dimensions.
    pub open spec fn is_dense(&self) -> bool {
        self.pixels@.len() == self.width * self.height
    }
}

/// Converts a frame to straight RGB and appends its JPEG stream to `sink`.
///
/// A frame whose pixel count differs from its dimensions is refused before
/// anything is written. The frame is read and never changed. A frame of more
/// than `MAX_PIXELS` pixels is not for this function.
pub fn render_chunked(sink: &mut Vec<u8>, frame: &Framebuffer, quality: u8) -> (r: Result<(), EncodeError>)
    requires
        frame.pixels@.len() <= MAX_PIXELS,
    ensures
        !frame.is_dense() ==> r == Err::<(), EncodeError>(
            EncodeError::DimensionMismatch {
                expected: rgb_len(frame.width, frame.height) as u64,
                actual: (3 * frame.pixels@.len()) as u64,
            },
        ),
        frame.is_dense() && (frame.width == 0 || frame.height == 0) ==> r == Err::<
            (),
            EncodeError,
        >(EncodeError::EncodeFailure),
        frame.is_dense() && frame.width > 0 && frame.height > 0 ==> r == Ok::<(), EncodeError>(()),
        r is Ok ==> final(sink)@ == old(sink)@ + jpeg_stream(
            straight_rgb(frame.pixels@),
            frame.width,
            frame.height,
            quality,
        ),
        r is Err ==> final(sink)@ == old(sink)@,
{
    let data: Vec<u8> = convert(frame.pixels.as_slice());
    encode(data.as_slice(), frame.width, frame.height, quality, sink)
}

} // verus!
