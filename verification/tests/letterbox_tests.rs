use cargo_slide::letterbox::{detect_background, letterbox_surface};

#[test]
fn margin_colour_comes_from_the_first_opaque_sample() {
    // A 4 by 4 image: transparent everywhere except pixel (0, 2) (the top-left sample, two rows down).
    let mut data = vec![0u8; 4 * 4 * 4];
    assert_eq!(detect_background(&data, 4, 4), 0xFF0F111A);
    let i = (2 * 4 + 2) * 4;
    data[i] = 0x11;
    data[i + 1] = 0x22;
    data[i + 2] = 0x33;
    data[i + 3] = 0xFF;
    assert_eq!(detect_background(&data, 4, 4), 0xFF112233);
    assert_eq!(detect_background(&[], 0, 0), 0xFF0F111A);
}

#[test]
fn image_is_centred_with_margins() {
    // A 2 by 1 image of red and green placed at (1, 1) in a 4 by 3 window.
    let data = vec![0xFF, 0, 0, 0xFF, 0, 0xFF, 0, 0xFF];
    let s = letterbox_surface(&data, 2, 1, 4, 3, 1, 1, 0xFF000000);
    assert_eq!(s.width, 4);
    assert_eq!(s.pixels.len(), 12);
    assert_eq!(s.pixels[4 + 1], 0xFFFF0000);
    assert_eq!(s.pixels[4 + 2], 0xFF00FF00);
    assert_eq!(s.pixels[0], 0xFF000000);
    assert_eq!(s.pixels[4 + 3], 0xFF000000);
    // An image wider than the room left is clipped.
    let s2 = letterbox_surface(&data, 2, 1, 2, 1, 1, 0, 7);
    assert_eq!(s2.pixels, vec![7, 0xFFFF0000]);
}
