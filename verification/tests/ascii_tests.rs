use jam_services::ascii::{image_to_ascii, render_frame, ART_HEIGHT, ART_WIDTH, FRAME_BYTES};

#[test]
fn black_and_white_pixels_map_to_ends_of_ramp() {
    let img = [0u8, 0, 0, 255, 255, 255];
    assert_eq!(image_to_ascii(&img, 2, 1, 2, 1), b"@ \n".to_vec());
}

#[test]
fn luminance_uses_integer_weights() {
    // (100 * 30) / 100 = 30, 30 * 9 / 255 = 1 -> '%'
    let img = [100u8, 0, 0];
    assert_eq!(image_to_ascii(&img, 1, 1, 1, 1), b"%\n".to_vec());
    // (0 * 30 + 200 * 59 + 0) / 100 = 118, 118 * 9 / 255 = 4 -> '+'
    let img = [0u8, 200, 0];
    assert_eq!(image_to_ascii(&img, 1, 1, 1, 1), b"+\n".to_vec());
}

#[test]
fn downscale_samples_nearest_neighbour() {
    // 4 x 1 source: black, white, white, black; 2 x 1 output reads x = 0 and x = 2
    let img = [0u8, 0, 0, 255, 255, 255, 255, 255, 255, 0, 0, 0];
    assert_eq!(image_to_ascii(&img, 4, 1, 2, 1), b"@ \n".to_vec());
}

#[test]
fn upscale_repeats_rows_and_columns() {
    let img = [0u8, 0, 0, 255, 255, 255];
    assert_eq!(image_to_ascii(&img, 2, 1, 4, 2), b"@@  \n@@  \n".to_vec());
}

#[test]
fn trailing_partial_pixel_is_ignored() {
    let img = [255u8, 255, 255, 0, 0];
    assert_eq!(image_to_ascii(&img, 1, 1, 1, 1), b" \n".to_vec());
}

#[test]
fn empty_output_sizes() {
    let img = [0u8, 0, 0];
    assert!(image_to_ascii(&img, 1, 1, 0, 0).is_empty());
    assert_eq!(image_to_ascii(&img, 1, 1, 0, 2), b"\n\n".to_vec());
}

#[test]
fn rendered_frame_has_fixed_shape() {
    let frame = vec![0u8; FRAME_BYTES];
    let art = render_frame(&frame);
    assert_eq!(art.len(), (ART_WIDTH * ART_HEIGHT + ART_HEIGHT) as usize);
    for line in art.chunks((ART_WIDTH + 1) as usize) {
        assert_eq!(line[ART_WIDTH as usize], b'\n');
        assert!(line[..ART_WIDTH as usize].iter().all(|&c| c == b'@'));
    }
}

#[test]
fn rendered_frame_is_ascii() {
    let frame: Vec<u8> = (0..FRAME_BYTES).map(|i| (i % 251) as u8).collect();
    let art = render_frame(&frame);
    assert!(art.iter().all(|&c| c == b'\n' || b"@%#*+=- . ".contains(&c)));
}
