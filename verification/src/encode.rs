//! The encoder stage: converted bytes and their dimensions go in, a JPEG
//! stream is appended to the sink, or an error says why not.

use crate::jpeg::{jpeg_encode, jpeg_stream, MAX_RGB_LEN};
use vstd::prelude::*;

verus! {

/// Why a buffer was not encoded, or not delivered.
#[derive(Clone, Copy, Debug, PartialEq, Eq, Structural)]
pub enum EncodeError {
    /// The buffer holds `actual` bytes where the dimensions ask for
    /// `expected`.
    DimensionMismatch { expected: u64, actual: u64 },
    /// The encoder refused the image, or the sink took nothing of the
    /// stream.
    EncodeFailure,
    /// The sink took `written` bytes of the stream and then no more. What it
    /// took stays where it is.
    SinkWriteFailure { written: usize },
}

/// The number of bytes of an RGB image of `width` by `height` pixels.
pub open spec fn rgb_len(width: u16, height: u16) -> int {
    3 * (width * height)
}

/// Encodes an RGB buffer as JPEG and appends the stream to `sink`.
///
/// The length of `rgb` is held against the dimensions first; on a mismatch
/// nothing reaches the encoder or the sink. `quality` goes to the encoder as
/// it is. A buffer of more than `MAX_RGB_LEN` bytes is not for this
/// function: the encoder may panic on an image of that size.
pub fn encode(rgb: &[u8], width: u16, height: u16, quality: u8, sink: &mut Vec<u8>) -> (r: Result<(), EncodeError>)
    requires
        rgb@.len() <= MAX_RGB_LEN,
    ensures
        rgb@.len() != rgb_len(width, height) ==> r == Err::<(), EncodeError>(
            EncodeError::DimensionMismatch {
                expected: rgb_len(width, height) as u64,
                actual: rgb@.len() as u64,
            },
        ),
        rgb@.len() == rgb_len(width, height) && (width == 0 || height == 0) ==> r == Err::<
            (),
            EncodeError,
        >(EncodeError::EncodeFailure),
        rgb@.len() == rgb_len(width, height) && width > 0 && height > 0 ==> r == Ok::<
            (),
            EncodeError,
        >(()),
        r is Ok ==> final(sink)@ == old(sink)@ + jpeg_stream(rgb@, width, height, quality),
        r is Err ==> final(sink)@ == old(sink)@,
{
    assert(width * height <= 0xffff * 0xffff) by (nonlinear_arith)
        requires
            width <= 0xffff,
            height <= 0xffff,
    ;
    let expected: u64 = 3 * (width as u64 * height as u64);
    let actual: u64 = rgb.len() as u64;
    if actual != expected {
        return Err(EncodeError::DimensionMismatch { expected, actual });
    }
    match jpeg_encode(rgb, width, height, quality, sink) {
        Ok(()) => Ok(()),
        Err(_) => Err(EncodeError::EncodeFailure),
    }
}

/// Judges the delivery of a stream of `length` bytes to a sink that took
/// `written` of them: all is success, none is a failed encode, a part is a
/// partial write.
pub fn delivery_outcome(length: usize, written: usize) -> (r: Result<(), EncodeError>)
    ensures
        written >= length ==> r == Ok::<(), EncodeError>(()),
        written < length && written == 0 ==> r == Err::<(), EncodeError>(
            EncodeError::EncodeFailure,
        ),
        0 < written < length ==> r == Err::<(), EncodeError>(
            EncodeError::SinkWriteFailure { written },
        ),
{
    if written >= length {
        Ok(())
    } else if written == 0 {
        Err(EncodeError::EncodeFailure)
    } else {
        Err(EncodeError::SinkWriteFailure { written })
    }
}

} // verus!
