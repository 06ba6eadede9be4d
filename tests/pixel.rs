use rcrosshair::pixel::{premultiply_pixel, process_buffer, OPACITY_ONE};

#[test]
fn opaque_pixels_keep_colour_at_full_opacity() {
    for &(r, g, b) in &[(0u8, 0u8, 0u8), (255, 255, 255), (12, 200, 99), (1, 128, 254)] {
        assert_eq!(premultiply_pixel((r, g, b, 255), OPACITY_ONE), (b, g, r, 255));
    }
}

#[test]
fn zero_opacity_gives_transparent_black() {
    for &px in &[(255u8, 255u8, 255u8, 255u8), (10, 20, 30, 40), (0, 0, 0, 0)] {
        assert_eq!(premultiply_pixel(px, 0), (0, 0, 0, 0));
    }
}

#[test]
fn half_opacity_rounds_each_channel() {
    // a' = round(128 * 0.5) = 64; r' = round(200 * 64 / 255) = 50;
    // g' = round(100 * 64 / 255) = 25; b' = round(50 * 64 / 255) = 13.
    assert_eq!(premultiply_pixel((200, 100, 50, 128), OPACITY_ONE / 2), (13, 25, 50, 64));
}

#[test]
fn translucent_pixel_is_scaled_by_its_alpha() {
    assert_eq!(premultiply_pixel((255, 0, 255, 128), OPACITY_ONE), (128, 0, 128, 128));
}

#[test]
fn halves_round_up() {
    // 1 * 0.5 = 0.5 rounds to 1.
    assert_eq!(premultiply_pixel((0, 0, 0, 1), OPACITY_ONE / 2).3, 1);
}

#[test]
fn buffer_is_converted_pixel_by_pixel() {
    let src = vec![10, 20, 30, 255, 200, 100, 50, 128];
    let out = process_buffer(&src, OPACITY_ONE);
    assert_eq!(out, vec![30, 20, 10, 255, 25, 50, 100, 128]);
}

#[test]
fn buffer_drops_partial_pixel() {
    let out = process_buffer(&vec![1, 2, 3, 255, 9, 9], OPACITY_ONE);
    assert_eq!(out, vec![3, 2, 1, 255]);
}

#[test]
fn empty_buffer_stays_empty() {
    assert!(process_buffer(&Vec::new(), OPACITY_ONE / 2).is_empty());
}
