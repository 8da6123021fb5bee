use repose_scene::frame::covered_pixels;

#[test]
fn counts_pixels_with_alpha() {
    let rgba = [9, 9, 9, 0, 0, 0, 0, 1, 0, 0, 0, 255, 7, 7, 7, 0];
    assert_eq!(covered_pixels(&rgba), 2);
}

#[test]
fn ignores_a_partial_last_pixel() {
    assert_eq!(covered_pixels(&[]), 0);
    assert_eq!(covered_pixels(&[255, 255, 255]), 0);
    assert_eq!(covered_pixels(&[0, 0, 0, 8, 255, 255, 255]), 1);
}
