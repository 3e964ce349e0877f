//! One pixel: the four lanes of a packed ARGB word and the reversal of
//! alpha premultiplication on a single colour channel.

use vstd::prelude::*;

verus! {

/// Bits 24 to 31 of a packed word: its alpha.
pub open spec fn alpha_of(pixel: u32) -> u8 {
    ((pixel >> 24) & 0xff) as u8
}

/// Bits 16 to 23 of a packed word: its red channel.
pub open spec fn red_of(pixel: u32) -> u8 {
    ((pixel >> 16) & 0xff) as u8
}

/// Bits 8 to 15 of a packed word: its green channel.
pub open spec fn green_of(pixel: u32) -> u8 {
    ((pixel >> 8) & 0xff) as u8
}

/// Bits 0 to 7 of a packed word: its blue channel.
pub open spec fn blue_of(pixel: u32) -> u8 {
    (pixel & 0xff) as u8
}

/// The word that holds alpha, red, green and blue in that order, alpha in
/// the top byte.
pub open spec fn pack_argb(a: u8, r: u8, g: u8, b: u8) -> u32 {
    ((a as u32) << 24) | ((r as u32) << 16) | ((g as u32) << 8) | (b as u32)
}

/// The straight value of a channel stored as `channel` under `alpha`:
/// `255 * channel / alpha`, the fraction dropped, and never above 255.
/// Under alpha 0 there is no colour to recover and the value is 0.
pub open spec fn straight_channel(alpha: u8, channel: u8) -> u8 {
    if alpha == 0 {
        0u8
    } else if 255 * channel / (alpha as int) >= 255 {
        255u8
    } else {
        (255 * channel / (alpha as int)) as u8
    }
}

/// The three straight bytes of a pixel: red, green, blue.
pub open spec fn pixel_rgb(pixel: u32) -> Seq<u8> {
    seq![
        straight_channel(alpha_of(pixel), red_of(pixel)),
        straight_channel(alpha_of(pixel), green_of(pixel)),
        straight_channel(alpha_of(pixel), blue_of(pixel)),
    ]
}

/// `n / d` rounded to the nearest whole number, a half rounded up.
pub open spec fn nearest_quotient(n: int, d: int) -> int {
    (2 * n + d) / (2 * d)
}

/// Reads the alpha lane.
pub fn alpha(pixel: u32) -> (a: u8)
    ensures
        a == alpha_of(pixel),
{
    assert((pixel >> 24) & 0xff < 256) by (bit_vector);
    ((pixel >> 24) & 0xff) as u8
}

/// Reads the red lane.
pub fn red(pixel: u32) -> (c: u8)
    ensures
        c == red_of(pixel),
{
    assert((pixel >> 16) & 0xff < 256) by (bit_vector);
    ((pixel >> 16) & 0xff) as u8
}

/// Reads the green lane.
pub fn green(pixel: u32) -> (c: u8)
    ensures
        c == green_of(pixel),
{
    assert((pixel >> 8) & 0xff < 256) by (bit_vector);
    ((pixel >> 8) & 0xff) as u8
}

/// Reads the blue lane.
pub fn blue(pixel: u32) -> (c: u8)
    ensures
        c == blue_of(pixel),
{
    assert(pixel & 0xff < 256) by (bit_vector);
    (pixel & 0xff) as u8
}

/// Reverses premultiplication on one channel. Every pair of bytes is
/// accepted: a channel above its alpha comes out as 255.
pub fn unpremultiply_channel(alpha: u8, channel: u8) -> (s: u8)
    ensures
        s == straight_channel(alpha, channel),
{
    if alpha == 0 {
        return 0;
    }
    let quotient: u32 = (channel as u32 * 255) / (alpha as u32);
    if quotient >= 255 {
        255
    } else {
        quotient as u8
    }
}

/// Reverses premultiplication on a whole pixel and drops its alpha.
pub fn unpremultiply(pixel: u32) -> (rgb: [u8; 3])
    ensures
        rgb@ == pixel_rgb(pixel),
{
    let a: u8 = alpha(pixel);
    let rgb: [u8; 3] = [
        unpremultiply_channel(a, red(pixel)),
        unpremultiply_channel(a, green(pixel)),
        unpremultiply_channel(a, blue(pixel)),
    ];
    assert(rgb@ =~= pixel_rgb(pixel));
    rgb
}

/// A fully transparent pixel renders as black, whatever its colour lanes
/// hold.
pub proof fn lemma_transparent_is_black(pixel: u32)
    requires
        alpha_of(pixel) == 0,
    ensures
        pixel_rgb(pixel) == seq![0u8, 0u8, 0u8],
{
    assert(pixel_rgb(pixel) =~= seq![0u8, 0u8, 0u8]);
}

/// Under a nonzero alpha the straight value is the whole part of
/// `255 * channel / alpha` as long as that stays below 255: premultiplying
/// it again does not overshoot the stored channel, and the next value up
/// would.
pub proof fn lemma_straight_channel_is_floor(alpha: u8, channel: u8)
    requires
        alpha > 0,
        channel <= alpha,
    ensures
        straight_channel(alpha, channel) * alpha <= 255 * channel,
        255 * channel < (straight_channel(alpha, channel) + 1) * alpha || straight_channel(
            alpha,
            channel,
        ) == 255,
        channel == alpha ==> straight_channel(alpha, channel) == 255,
{
    let a: int = alpha as int;
    let n: int = 255 * channel;
    let q: int = n / a;
    assert(q * a <= n && n < (q + 1) * a && (channel == alpha ==> q == 255) && q <= 255)
        by (nonlinear_arith)
        requires
            a > 0,
            n == 255 * channel,
            channel <= a,
            q == n / a,
            a == alpha,
    ;
}

/// Where `255 * channel / alpha` lies less than one half above a whole
/// number, the straight value is that quotient rounded to the nearest
/// whole number.
pub proof fn lemma_straight_channel_rounds(alpha: u8, channel: u8)
    requires
        alpha > 0,
        channel <= alpha,
        2 * ((255 * channel) % (alpha as int)) < alpha,
    ensures
        straight_channel(alpha, channel) == nearest_quotient(255 * channel, alpha as int),
{
    let a: int = alpha as int;
    let n: int = 255 * channel;
    let q: int = n / a;
    let m: int = n % a;
    assert(q <= 255 && (2 * n + a) / (2 * a) == q) by (nonlinear_arith)
        requires
            a > 0,
            0 <= n <= 255 * a,
            q == n / a,
            m == n % a,
            2 * m < a,
    ;
}

/// A channel that is at least its nonzero alpha, which premultiplication
/// never produces, is clamped to 255.
pub proof fn lemma_straight_channel_saturates(alpha: u8, channel: u8)
    requires
        0 < alpha <= channel,
    ensures
        straight_channel(alpha, channel) == 255,
{
    let a: int = alpha as int;
    let n: int = 255 * channel;
    assert(n / a >= 255) by (nonlinear_arith)
        requires
            a > 0,
            n >= 255 * a,
    ;
}

/// Under full alpha a channel is already straight.
pub proof fn lemma_opaque_is_unchanged(channel: u8)
    ensures
        straight_channel(255, channel) == channel,
{
}

/// A larger stored channel never gives a smaller straight value.
pub proof fn lemma_straight_channel_monotonic(alpha: u8, low: u8, high: u8)
    requires
        low <= high,
    ensures
        straight_channel(alpha, low) <= straight_channel(alpha, high),
{
    if alpha > 0 {
        let a: int = alpha as int;
        let x: int = 255 * low;
        let y: int = 255 * high;
        assert(x / a <= y / a) by (nonlinear_arith)
            requires
                a > 0,
                0 <= x <= y,
        ;
    }
}

/// Each lane read from a packed word is the byte that was packed into it.
pub proof fn lemma_lanes_of_packed(a: u8, r: u8, g: u8, b: u8)
    ensures
        alpha_of(pack_argb(a, r, g, b)) == a,
        red_of(pack_argb(a, r, g, b)) == r,
        green_of(pack_argb(a, r, g, b)) == g,
        blue_of(pack_argb(a, r, g, b)) == b,
{
    assert(alpha_of(pack_argb(a, r, g, b)) == a) by (bit_vector);
    assert(red_of(pack_argb(a, r, g, b)) == r) by (bit_vector);
    assert(green_of(pack_argb(a, r, g, b)) == g) by (bit_vector);
    assert(blue_of(pack_argb(a, r, g, b)) == b) by (bit_vector);
}

/// Packing the four lanes of a word gives the word back.
pub proof fn lemma_packed_lanes(pixel: u32)
    ensures
        pack_argb(alpha_of(pixel), red_of(pixel), green_of(pixel), blue_of(pixel)) == pixel,
{
    assert(pack_argb(alpha_of(pixel), red_of(pixel), green_of(pixel), blue_of(pixel)) == pixel)
        by (bit_vector);
}

} // verus!
