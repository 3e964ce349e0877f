//! The pixel format converter: a buffer of packed premultiplied ARGB words
//! becomes three straight bytes per pixel, in the order of the input.

use crate::parallel::par_unpremultiply;
use crate::pixel::{pixel_rgb, unpremultiply};
use vstd::prelude::*;

verus! {

/// The converted buffer. Byte `3 * i + k` is channel `k` of pixel `i`, so
/// every byte depends on one input word and on nothing else.
pub open spec fn straight_rgb(pixels: Seq<u32>) -> Seq<u8> {
    Seq::new(3 * pixels.len(), |j: int| pixel_rgb(pixels[j / 3])[j % 3])
}

/// Converts a buffer on the worker threads of the parallel iterator. The
/// bytes come out in the order of the pixels, however the work was split.
pub fn convert(pixels: &[u32]) -> (out: Vec<u8>)
    ensures
        out@ == straight_rgb(pixels@),
        out@.len() == 3 * pixels@.len(),
{
    par_unpremultiply(pixels)
}

/// Converts a buffer pixel by pixel on the calling thread.
pub fn convert_sequential(pixels: &[u32]) -> (out: Vec<u8>)
    ensures
        out@ == straight_rgb(pixels@),
        out@.len() == 3 * pixels@.len(),
{
    let mut out: Vec<u8> = Vec::new();
    let mut i: usize = 0;
    while i < pixels.len()
        invariant
            i <= pixels@.len(),
            out@ == straight_rgb(pixels@.take(i as int)),
        decreases pixels@.len() - i,
    {
        let rgb: [u8; 3] = unpremultiply(pixels[i]);
        out.push(rgb[0]);
        out.push(rgb[1]);
        out.push(rgb[2]);
        proof {
            let done: Seq<u32> = pixels@.take(i as int);
            lemma_straight_rgb_push(done, pixels@[i as int]);
            assert(pixels@.take(i + 1) =~= done.push(pixels@[i as int]));
            assert(out@ =~= straight_rgb(done) + pixel_rgb(pixels@[i as int]));
        }
        i += 1;
    }
    assert(pixels@.take(i as int) =~= pixels@);
    out
}

/// The converted buffer holds exactly three bytes for every pixel.
pub proof fn lemma_straight_rgb_len(pixels: Seq<u32>)
    ensures
        straight_rgb(pixels).len() == 3 * pixels.len(),
{
}

/// A buffer is the conversion of `pixels` exactly when it has three bytes
/// per pixel and the bytes of pixel `i` stand at `3 * i`, `3 * i + 1` and
/// `3 * i + 2`.
pub proof fn lemma_straight_rgb_pointwise(pixels: Seq<u32>, out: Seq<u8>)
    ensures
        out == straight_rgb(pixels) <==> {
            &&& out.len() == 3 * pixels.len()
            &&& forall|i: int|
                #![trigger pixels[i]]
                0 <= i < pixels.len() ==> {
                    &&& out[3 * i] == pixel_rgb(pixels[i])[0]
                    &&& out[3 * i + 1] == pixel_rgb(pixels[i])[1]
                    &&& out[3 * i + 2] == pixel_rgb(pixels[i])[2]
                }
        },
{
    let want: Seq<u8> = straight_rgb(pixels);
    if out == want {
        assert forall|i: int| #![trigger pixels[i]] 0 <= i < pixels.len() implies {
            &&& out[3 * i] == pixel_rgb(pixels[i])[0]
            &&& out[3 * i + 1] == pixel_rgb(pixels[i])[1]
            &&& out[3 * i + 2] == pixel_rgb(pixels[i])[2]
        } by {
            assert((3 * i) / 3 == i && (3 * i) % 3 == 0);
            assert((3 * i + 1) / 3 == i && (3 * i + 1) % 3 == 1);
            assert((3 * i + 2) / 3 == i && (3 * i + 2) % 3 == 2);
        }
    }
    if out.len() == 3 * pixels.len() && (forall|i: int|
        #![trigger pixels[i]]
        0 <= i < pixels.len() ==> {
            &&& out[3 * i] == pixel_rgb(pixels[i])[0]
            &&& out[3 * i + 1] == pixel_rgb(pixels[i])[1]
            &&& out[3 * i + 2] == pixel_rgb(pixels[i])[2]
        }) {
        assert forall|j: int| 0 <= j < out.len() implies out[j] == want[j] by {
            let i: int = j / 3;
            assert(0 <= i < pixels.len());
            assert(j == 3 * i || j == 3 * i + 1 || j == 3 * i + 2);
        }
        assert(out =~= want);
    }
}

/// Converting a buffer in two parts and joining the results gives the
/// conversion of the whole: no split of the work changes a byte or its
/// place.
pub proof fn lemma_straight_rgb_concat(left: Seq<u32>, right: Seq<u32>)
    ensures
        straight_rgb(left + right) == straight_rgb(left) + straight_rgb(right),
{
    let whole: Seq<u8> = straight_rgb(left + right);
    let joined: Seq<u8> = straight_rgb(left) + straight_rgb(right);
    assert(whole.len() == joined.len());
    assert forall|j: int| 0 <= j < whole.len() implies whole[j] == joined[j] by {
        if j < 3 * left.len() {
            assert(j / 3 < left.len());
        } else {
            let k: int = j - 3 * left.len();
            assert(k / 3 == j / 3 - left.len());
            assert(k % 3 == j % 3);
            assert((left + right)[j / 3] == right[k / 3]);
        }
    }
    assert(whole =~= joined);
}

/// Appending one pixel appends its three bytes.
pub proof fn lemma_straight_rgb_push(pixels: Seq<u32>, pixel: u32)
    ensures
        straight_rgb(pixels.push(pixel)) == straight_rgb(pixels) + pixel_rgb(pixel),
{
    lemma_straight_rgb_concat(pixels, seq![pixel]);
    assert(pixels.push(pixel) =~= pixels + seq![pixel]);
    assert(straight_rgb(seq![pixel]) =~= pixel_rgb(pixel));
}

/// The parts of a buffer taken up to `at` and from `at` on convert to the
/// matching parts of the converted buffer.
pub proof fn lemma_straight_rgb_split(pixels: Seq<u32>, at: int)
    requires
        0 <= at <= pixels.len(),
    ensures
        straight_rgb(pixels.take(at)) == straight_rgb(pixels).take(3 * at),
        straight_rgb(pixels.skip(at)) == straight_rgb(pixels).skip(3 * at),
{
    lemma_straight_rgb_concat(pixels.take(at), pixels.skip(at));
    assert(pixels.take(at) + pixels.skip(at) =~= pixels);
    let whole: Seq<u8> = straight_rgb(pixels);
    assert(whole.take(3 * at) =~= straight_rgb(pixels.take(at)));
    assert(whole.skip(3 * at) =~= straight_rgb(pixels.skip(at)));
}

/// However a buffer is cut into chunks, converting the chunks one by one and
/// joining the results in the order of the chunks gives the conversion of the
/// whole buffer.
pub proof fn lemma_straight_rgb_chunks(chunks: Seq<Seq<u32>>)
    ensures
        straight_rgb(chunks.flatten()) == chunks.map_values(
            |chunk: Seq<u32>| straight_rgb(chunk),
        ).flatten(),
    decreases chunks.len(),
{
    let converted: Seq<Seq<u8>> = chunks.map_values(|chunk: Seq<u32>| straight_rgb(chunk));
    if chunks.len() == 0 {
        assert(straight_rgb(chunks.flatten()) =~= converted.flatten());
    } else {
        let rest: Seq<Seq<u32>> = chunks.drop_first();
        lemma_straight_rgb_chunks(rest);
        lemma_straight_rgb_concat(chunks.first(), rest.flatten());
        assert(converted.drop_first() =~= rest.map_values(
            |chunk: Seq<u32>| straight_rgb(chunk),
        ));
        assert(converted.first() == straight_rgb(chunks.first()));
    }
}

/// Two conversions of one buffer agree byte for byte.
pub proof fn lemma_conversion_is_repeatable(pixels: Seq<u32>, first: Seq<u8>, second: Seq<u8>)
    requires
        first == straight_rgb(pixels),
        second == straight_rgb(pixels),
    ensures
        first == second,
{
}

} // verus!
