use rem::font_bitmap::{canvas_to_rgb, normalize_buffer, CanvasFormat, PixelMode};

#[test]
fn mono_bits_become_black_or_white_pixels() {
    // two rows of 10 pixels, pitch 2 bytes
    let buf = vec![0b1010_0000, 0b1100_0000, 0b0000_0001, 0b0100_0000];
    let data = normalize_buffer(&buf, 2, 10, 2, PixelMode::Mono);
    let px: Vec<u8> = data.chunks(3).map(|c| {
        assert!(c[0] == c[1] && c[1] == c[2]);
        c[0]
    }).collect();
    assert_eq!(px, vec![255, 0, 255, 0, 0, 0, 0, 0, 255, 255, 0, 0, 0, 0, 0, 0, 0, 255, 0, 255]);
}

#[test]
fn gray_pixels_are_repeated() {
    let buf = vec![1, 2, 9, 3, 4, 9];
    let data = normalize_buffer(&buf, 2, 2, 3, PixelMode::Gray);
    assert_eq!(data, vec![1, 1, 1, 2, 2, 2, 3, 3, 3, 4, 4, 4]);
}

#[test]
fn lcd_rows_are_copied() {
    let buf = vec![1, 2, 3, 0, 4, 5, 6, 0];
    let data = normalize_buffer(&buf, 2, 3, 4, PixelMode::Lcd);
    assert_eq!(data, vec![1, 2, 3, 4, 5, 6]);
}

#[test]
fn empty_bitmaps() {
    assert!(normalize_buffer(&vec![], 0, 5, 5, PixelMode::Gray).is_empty());
    assert!(normalize_buffer(&vec![], 3, 0, 7, PixelMode::Mono).is_empty());
}

#[test]
fn canvas_rows_become_rgb() {
    let pixels = vec![10, 20, 0, 30, 40, 0];
    assert_eq!(canvas_to_rgb(&pixels, 3, 2, 2, CanvasFormat::A8), vec![10, 10, 10, 20, 20, 20, 30, 30, 30, 40, 40, 40]);
    let rgb = vec![1, 2, 3, 4, 5, 6, 7, 8, 9, 10, 11, 12];
    assert_eq!(canvas_to_rgb(&rgb, 6, 1, 2, CanvasFormat::Rgb24), vec![1, 2, 3, 7, 8, 9]);
    assert!(canvas_to_rgb(&vec![], 0, 0, 0, CanvasFormat::A8).is_empty());
}
