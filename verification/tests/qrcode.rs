use poratake_daemon_win::qrcode::{
    detect_payload_from_greyscale, payload_from_decodings, qr_image_buffer_size,
};

const RQRR_GRID: [[u8; 21]; 21] = [
    [1, 1, 1, 1, 1, 1, 1, 0, 0, 0, 1, 0, 0, 0, 1, 1, 1, 1, 1, 1, 1],
    [1, 0, 0, 0, 0, 0, 1, 0, 1, 1, 1, 0, 0, 0, 1, 0, 0, 0, 0, 0, 1],
    [1, 0, 1, 1, 1, 0, 1, 0, 0, 1, 0, 1, 1, 0, 1, 0, 1, 1, 1, 0, 1],
    [1, 0, 1, 1, 1, 0, 1, 0, 0, 0, 0, 0, 1, 0, 1, 0, 1, 1, 1, 0, 1],
    [1, 0, 1, 1, 1, 0, 1, 0, 1, 1, 0, 1, 1, 0, 1, 0, 1, 1, 1, 0, 1],
    [1, 0, 0, 0, 0, 0, 1, 0, 0, 1, 1, 1, 0, 0, 1, 0, 0, 0, 0, 0, 1],
    [1, 1, 1, 1, 1, 1, 1, 0, 1, 0, 1, 0, 1, 0, 1, 1, 1, 1, 1, 1, 1],
    [0, 0, 0, 0, 0, 0, 0, 0, 0, 0, 1, 0, 0, 0, 0, 0, 0, 0, 0, 0, 0],
    [1, 0, 1, 0, 1, 0, 1, 0, 0, 0, 0, 0, 1, 0, 0, 0, 1, 0, 0, 1, 0],
    [1, 0, 0, 1, 1, 0, 0, 0, 0, 0, 0, 1, 0, 1, 0, 1, 0, 1, 0, 0, 1],
    [0, 1, 0, 1, 1, 0, 1, 1, 0, 1, 1, 1, 0, 1, 1, 1, 0, 1, 1, 1, 1],
    [1, 1, 0, 0, 0, 1, 0, 0, 1, 1, 1, 1, 1, 1, 0, 1, 1, 0, 0, 1, 1],
    [0, 0, 1, 0, 1, 1, 1, 0, 1, 0, 0, 1, 0, 1, 1, 1, 0, 1, 0, 0, 1],
    [0, 0, 0, 0, 0, 0, 0, 0, 1, 1, 1, 0, 0, 0, 1, 0, 0, 1, 0, 0, 1],
    [1, 1, 1, 1, 1, 1, 1, 0, 0, 1, 1, 0, 1, 0, 0, 0, 1, 0, 0, 1, 1],
    [1, 0, 0, 0, 0, 0, 1, 0, 0, 1, 1, 0, 0, 0, 1, 0, 0, 0, 0, 1, 0],
    [1, 0, 1, 1, 1, 0, 1, 0, 1, 0, 0, 0, 1, 0, 1, 0, 1, 1, 0, 1, 1],
    [1, 0, 1, 1, 1, 0, 1, 0, 0, 1, 0, 1, 0, 1, 0, 1, 0, 1, 0, 1, 0],
    [1, 0, 1, 1, 1, 0, 1, 0, 1, 1, 0, 1, 0, 1, 1, 1, 0, 0, 0, 0, 1],
    [1, 0, 0, 0, 0, 0, 1, 0, 0, 0, 1, 1, 1, 1, 0, 1, 1, 1, 0, 1, 0],
    [1, 1, 1, 1, 1, 1, 1, 0, 1, 0, 0, 1, 0, 1, 1, 1, 0, 0, 1, 1, 1],
];

/// Renders the module grid as a greyscale image, eight pixels per module,
/// with a four-module white quiet zone.
fn render_grid() -> (Vec<u8>, usize) {
    let scale = 8;
    let quiet = 4;
    let side = (21 + 2 * quiet) * scale;
    let mut pixels = vec![255u8; side * side];
    for (row, cells) in RQRR_GRID.iter().enumerate() {
        for (column, cell) in cells.iter().enumerate() {
            if *cell == 1 {
                for dy in 0..scale {
                    for dx in 0..scale {
                        let y = (row + quiet) * scale + dy;
                        let x = (column + quiet) * scale + dx;
                        pixels[y * side + x] = 0;
                    }
                }
            }
        }
    }
    (pixels, side)
}

#[test]
fn detects_payload_from_a_rendered_qr_code() {
    let (pixels, side) = render_grid();
    assert_eq!(detect_payload_from_greyscale(&pixels, side, side), "rqrr");
}

#[test]
fn returns_empty_payload_when_no_code_present() {
    let white = vec![255u8; 64 * 64];
    let payload = detect_payload_from_greyscale(&white, 64, 64);
    assert_eq!(payload, "");
}

#[test]
fn returns_empty_payload_for_invalid_dimensions() {
    let pixels = vec![0u8; 4];
    assert_eq!(detect_payload_from_greyscale(&pixels, 0, 0), "");
    assert_eq!(detect_payload_from_greyscale(&pixels, 10, 10), "");
}

#[test]
fn rejects_images_above_the_detection_memory_limit() {
    assert_eq!(qr_image_buffer_size(8192, 8192), Ok(64 * 1024 * 1024));
    assert_eq!(
        qr_image_buffer_size(8193, 8192),
        Err("Image dimensions exceed the QR detection limit".to_string())
    );
}

#[test]
fn payload_is_the_first_non_empty_decoding() {
    let decodings = vec![None, Some(String::new()), Some("second".to_string()), Some("third".to_string())];
    assert_eq!(payload_from_decodings(&decodings), "second");
    assert_eq!(payload_from_decodings(&vec![None, Some(String::new())]), "");
}
