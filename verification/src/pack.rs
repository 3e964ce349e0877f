//! Packing of a bitmap that holds red, green, blue and alpha bytes for each
//! pixel into ARGB words.

use crate::parallel::par_pack;
use crate::pixel::pack_argb;
use vstd::prelude::*;

verus! {

/// The words packed from a buffer of RGBA bytes: word `i` holds bytes
/// `4 * i` to `4 * i + 3`, with the alpha moved to the top.
pub open spec fn packed_argb(bytes: Seq<u8>) -> Seq<u32> {
    Seq::new(
        bytes.len() / 4,
        |i: int| pack_argb(bytes[4 * i + 3], bytes[4 * i], bytes[4 * i + 1], bytes[4 * i + 2]),
    )
}

/// Packs the first four bytes of a chunk, read as red, green, blue, alpha.
pub fn pack_rgba(chunk: &[u8]) -> (word: u32)
    requires
        chunk@.len() >= 4,
    ensures
        word == pack_argb(chunk@[3], chunk@[0], chunk@[1], chunk@[2]),
{
    let r: u32 = chunk[0] as u32;
    let g: u32 = chunk[1] as u32;
    let b: u32 = chunk[2] as u32;
    let a: u32 = chunk[3] as u32;
    (a << 24) | (r << 16) | (g << 8) | b
}

/// Packs a whole RGBA bitmap, one word per pixel, on the worker threads of
/// the parallel iterator. The bitmap holds whole pixels only.
pub fn u8rgba_u32argb(img: &[u8]) -> (out: Vec<u32>)
    requires
        img@.len() % 4 == 0,
    ensures
        out@ == packed_argb(img@),
        4 * out@.len() == img@.len(),
{
    let mut target: Vec<u32> = Vec::with_capacity(img.len());
    par_pack(img, &mut target);
    target
}

} // verus!
