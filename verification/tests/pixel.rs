use share_card::{alpha, blue, green, red, unpremultiply, unpremultiply_channel};

fn expected_channel(a: u8, c: u8) -> u8 {
    if a == 0 {
        0
    } else {
        let q = (c as u32 * 255) / a as u32;
        if q > 255 {
            255
        } else {
            q as u8
        }
    }
}

#[test]
fn lanes_are_read_from_their_bytes() {
    let pixel: u32 = 0x8040_2010;
    assert_eq!(alpha(pixel), 0x80);
    assert_eq!(red(pixel), 0x40);
    assert_eq!(green(pixel), 0x20);
    assert_eq!(blue(pixel), 0x10);
}

#[test]
fn lanes_of_the_extreme_words() {
    assert_eq!(alpha(0), 0);
    assert_eq!(red(0), 0);
    assert_eq!(green(0), 0);
    assert_eq!(blue(0), 0);
    assert_eq!(alpha(u32::MAX), 255);
    assert_eq!(red(u32::MAX), 255);
    assert_eq!(green(u32::MAX), 255);
    assert_eq!(blue(u32::MAX), 255);
    assert_eq!(alpha(0xFF00_0000), 255);
    assert_eq!(red(0x00FF_0000), 255);
    assert_eq!(green(0x0000_FF00), 255);
    assert_eq!(blue(0x0000_00FF), 255);
}

#[test]
fn channel_under_full_alpha_is_unchanged() {
    for c in 0..=255u8 {
        assert_eq!(unpremultiply_channel(255, c), c);
    }
}

#[test]
fn channel_under_zero_alpha_is_zero() {
    for c in 0..=255u8 {
        assert_eq!(unpremultiply_channel(0, c), 0);
    }
}

#[test]
fn channel_values_are_truncated_quotients() {
    assert_eq!(unpremultiply_channel(128, 64), 127);
    assert_eq!(unpremultiply_channel(128, 32), 63);
    assert_eq!(unpremultiply_channel(128, 16), 31);
    assert_eq!(unpremultiply_channel(2, 1), 127);
    assert_eq!(unpremultiply_channel(3, 1), 85);
    assert_eq!(unpremultiply_channel(3, 2), 170);
    assert_eq!(unpremultiply_channel(9, 3), 85);
    assert_eq!(unpremultiply_channel(200, 100), 127);
    assert_eq!(unpremultiply_channel(254, 1), 1);
    assert_eq!(unpremultiply_channel(255, 1), 1);
    assert_eq!(unpremultiply_channel(7, 0), 0);
}

#[test]
fn channel_equal_to_alpha_is_full() {
    for a in 1..=255u8 {
        assert_eq!(unpremultiply_channel(a, a), 255);
    }
}

#[test]
fn channel_above_alpha_is_clamped() {
    for a in 1..=254u8 {
        for c in (a + 1)..=255u8 {
            assert_eq!(unpremultiply_channel(a, c), 255);
        }
    }
    assert_eq!(unpremultiply_channel(10, 200), 255);
    assert_eq!(unpremultiply_channel(1, 255), 255);
}

#[test]
fn channel_matches_the_formula_on_every_pair() {
    for a in 0..=255u8 {
        for c in 0..=255u8 {
            assert_eq!(unpremultiply_channel(a, c), expected_channel(a, c));
        }
    }
}

#[test]
fn channel_is_the_rounded_quotient_below_one_half() {
    let mut seen = 0u32;
    for a in 1..=255u8 {
        for c in 0..=a {
            let rest = (255 * c as u32) % a as u32;
            if 2 * rest < a as u32 {
                let rounded = (c as f64 * 255.0 / a as f64).round();
                assert_eq!(unpremultiply_channel(a, c) as f64, rounded);
                seen += 1;
            }
        }
    }
    assert!(seen > 255);
}

#[test]
fn channel_is_one_below_the_rounded_quotient_from_one_half_on() {
    assert_eq!((1.0f64 * 255.0 / 2.0).round(), 128.0);
    assert_eq!(unpremultiply_channel(2, 1), 127);
    for a in 1..=255u8 {
        for c in 0..=a {
            let rest = (255 * c as u32) % a as u32;
            if 2 * rest >= a as u32 {
                let rounded = (c as f64 * 255.0 / a as f64).round();
                assert_eq!(unpremultiply_channel(a, c) as f64 + 1.0, rounded);
            }
        }
    }
}

#[test]
fn channel_never_falls_when_the_stored_value_rises() {
    for a in 0..=255u8 {
        let mut last = 0u8;
        for c in 0..=255u8 {
            let s = unpremultiply_channel(a, c);
            assert!(s >= last);
            last = s;
        }
    }
}

#[test]
fn opaque_red_pixel() {
    assert_eq!(unpremultiply(0xFFFF_0000), [255, 0, 0]);
}

#[test]
fn transparent_pixel_is_black() {
    assert_eq!(unpremultiply(0x0000_0000), [0, 0, 0]);
    assert_eq!(unpremultiply(0x00FF_FFFF), [0, 0, 0]);
    assert_eq!(unpremultiply(0x0012_3456), [0, 0, 0]);
}

#[test]
fn half_transparent_pixel() {
    assert_eq!(unpremultiply(0x8040_2010), [127, 63, 31]);
    assert_eq!(unpremultiply(0x8080_8080), [255, 255, 255]);
    assert_eq!(unpremultiply(0x8000_0000), [0, 0, 0]);
}

#[test]
fn pixel_with_channels_above_alpha() {
    assert_eq!(unpremultiply(0x10FF_2008), [255, 255, 127]);
    assert_eq!(unpremultiply(0x01FF_FFFF), [255, 255, 255]);
}

#[test]
fn pixel_bytes_are_red_green_blue() {
    let pixel: u32 = 0xFF01_0203;
    assert_eq!(unpremultiply(pixel), [1, 2, 3]);
    for pixel in [0xFF10_2030u32, 0x7F10_2030, 0x0110_2030, 0xC8C8_6432] {
        let a = alpha(pixel);
        assert_eq!(
            unpremultiply(pixel),
            [
                unpremultiply_channel(a, red(pixel)),
                unpremultiply_channel(a, green(pixel)),
                unpremultiply_channel(a, blue(pixel)),
            ]
        );
    }
}
