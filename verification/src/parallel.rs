//! The two maps that run on rayon's thread pool. Verus takes the contracts
//! of these functions on trust: each says that the parallel iterator gives
//! what the sequential iterator of the same shape would give.

use crate::convert::straight_rgb;
use crate::pack::{pack_rgba, packed_argb};
use crate::pixel::unpremultiply;
use rayon::iter::{IndexedParallelIterator, IntoParallelRefIterator, ParallelIterator};
use rayon::slice::ParallelSlice;
use vstd::prelude::*;

verus! {

/// Runs `unpremultiply` over the pixels with rayon's `par_iter`, `flat_map`
/// and `collect`. Trusted: the collected vector holds the three bytes of
/// each pixel in the order of the pixels, as the sequential `iter`,
/// `flat_map` and `collect` would leave them.
#[verifier::external_body]
pub(crate) fn par_unpremultiply(pixels: &[u32]) -> (out: Vec<u8>)
    ensures
        out@ == straight_rgb(pixels@),
{
    pixels.par_iter().flat_map(|&pixel| unpremultiply(pixel)).collect::<Vec<u8>>()
}

/// Runs `pack_rgba` over the chunks of four bytes with rayon's `par_chunks`,
/// `map` and `collect_into_vec`. Trusted: with a length that four divides
/// every chunk has four bytes, and the target, cleared first, then holds one
/// word per chunk in the order of the chunks.
#[verifier::external_body]
pub(crate) fn par_pack(bytes: &[u8], target: &mut Vec<u32>)
    requires
        bytes@.len() % 4 == 0,
    ensures
        final(target)@ == packed_argb(bytes@),
{
    bytes.par_chunks(4).map(|chunk| pack_rgba(chunk)).collect_into_vec(target);
}

} // verus!
