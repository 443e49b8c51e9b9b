use nullbyte::video::pixel_format::{convert_to_rgba8, convert_to_rgba8_into, PixelFormat};
use nullbyte::video::png_encoder::{adler32, encode_rgba8};

fn rgb565_pixel(r5: u16, g6: u16, b5: u16) -> [u8; 2] {
    let value = (r5 << 11) | (g6 << 5) | b5;
    value.to_le_bytes()
}

fn rgb0555_pixel(r5: u16, g5: u16, b5: u16) -> [u8; 2] {
    let value = (r5 << 10) | (g5 << 5) | b5;
    value.to_le_bytes()
}

fn one_pixel(format: PixelFormat, px: &[u8]) -> Vec<u8> {
    convert_to_rgba8(px, format, 1, 1, px.len())
}

#[test]
fn rgb565_known_colors() {
    assert_eq!(one_pixel(PixelFormat::Rgb565, &rgb565_pixel(31, 63, 31)), [255, 255, 255, 255]);
    assert_eq!(one_pixel(PixelFormat::Rgb565, &rgb565_pixel(0, 0, 0)), [0, 0, 0, 255]);
    assert_eq!(one_pixel(PixelFormat::Rgb565, &rgb565_pixel(31, 0, 0)), [255, 0, 0, 255]);
    assert_eq!(one_pixel(PixelFormat::Rgb565, &rgb565_pixel(0, 63, 0)), [0, 255, 0, 255]);
    assert_eq!(one_pixel(PixelFormat::Rgb565, &rgb565_pixel(0, 0, 31)), [0, 0, 255, 255]);
}

#[test]
fn rgb0555_known_colors() {
    assert_eq!(one_pixel(PixelFormat::Rgb0555, &rgb0555_pixel(31, 31, 31)), [255, 255, 255, 255]);
    assert_eq!(one_pixel(PixelFormat::Rgb0555, &rgb0555_pixel(0, 0, 0)), [0, 0, 0, 255]);
    assert_eq!(one_pixel(PixelFormat::Rgb0555, &rgb0555_pixel(31, 0, 0)), [255, 0, 0, 255]);
    assert_eq!(one_pixel(PixelFormat::Rgb0555, &rgb0555_pixel(0, 31, 0)), [0, 255, 0, 255]);
    assert_eq!(one_pixel(PixelFormat::Rgb0555, &rgb0555_pixel(0, 0, 31)), [0, 0, 255, 255]);
}

#[test]
fn xrgb8888_known_colors() {
    assert_eq!(one_pixel(PixelFormat::Xrgb8888, &[0x33, 0x22, 0x11, 0xFF]), [0x11, 0x22, 0x33, 255]);
    assert_eq!(one_pixel(PixelFormat::Xrgb8888, &[0xFF, 0xFF, 0xFF, 0x00]), [255, 255, 255, 255]);
    assert_eq!(one_pixel(PixelFormat::Xrgb8888, &[0x00, 0x00, 0x00, 0xFF]), [0, 0, 0, 255]);
}

#[test]
fn convert_rgb565_full_frame_matches_per_pixel() {
    let width = 4u32;
    let height = 2u32;
    let pitch = width as usize * 2;
    let mut src = vec![0u8; pitch * height as usize];
    src[0..2].copy_from_slice(&rgb565_pixel(31, 0, 0));
    src[2..4].copy_from_slice(&rgb565_pixel(0, 63, 0));

    let rgba = convert_to_rgba8(&src, PixelFormat::Rgb565, width, height, pitch);

    assert_eq!(rgba.len(), (width * height * 4) as usize);
    assert_eq!(&rgba[0..4], &[255, 0, 0, 255]);
    assert_eq!(&rgba[4..8], &[0, 255, 0, 255]);
    assert_eq!(&rgba[8..12], &[0, 0, 0, 255]);
}

#[test]
fn respects_pitch_padding_larger_than_row_width() {
    let width = 2u32;
    let height = 2u32;
    let bpp = 2;
    let padding = 6;
    let pitch = width as usize * bpp + padding;

    let mut src = vec![0xAAu8; pitch * height as usize];
    src[0..2].copy_from_slice(&rgb565_pixel(31, 0, 0));
    src[2..4].copy_from_slice(&rgb565_pixel(31, 0, 0));
    src[pitch..pitch + 2].copy_from_slice(&rgb565_pixel(0, 0, 31));
    src[pitch + 2..pitch + 4].copy_from_slice(&rgb565_pixel(0, 0, 31));

    let rgba = convert_to_rgba8(&src, PixelFormat::Rgb565, width, height, pitch);

    assert_eq!(&rgba[0..4], &[255, 0, 0, 255], "the first row should be red");
    assert_eq!(&rgba[4..8], &[255, 0, 0, 255]);
    assert_eq!(&rgba[8..12], &[0, 0, 255, 255], "the second row should be blue, not padding");
    assert_eq!(&rgba[12..16], &[0, 0, 255, 255]);
}

#[test]
fn benchmark_256x224_rgb565_under_half_millisecond() {
    let width = 256u32;
    let height = 224u32;
    let pitch = width as usize * 2;
    let src = vec![0x55u8; pitch * height as usize];
    let mut dst = vec![0u8; width as usize * height as usize * 4];

    for _ in 0..10 {
        convert_to_rgba8_into(&src, PixelFormat::Rgb565, width, height, pitch, &mut dst);
    }

    let iterations = 100;
    let start = std::time::Instant::now();
    for _ in 0..iterations {
        convert_to_rgba8_into(&src, PixelFormat::Rgb565, width, height, pitch, &mut dst);
    }
    let per_call = start.elapsed() / iterations;

    // The test build is unoptimised; 0.5 ms is the target for optimised builds.
    let limit_ms = 5.0;
    assert!(
        per_call.as_secs_f64() * 1000.0 < limit_ms,
        "conversion too slow: {:?} (limit {limit_ms} ms)",
        per_call
    );
}

#[test]
fn into_leaves_bytes_past_the_frame_untouched() {
    let src = [0x1F, 0x00, 0xE0, 0x07];
    let mut dst = vec![7u8; 12];
    convert_to_rgba8_into(&src, PixelFormat::Rgb565, 2, 1, 4, &mut dst);
    assert_eq!(&dst[0..4], &[0, 0, 255, 255]);
    assert_eq!(&dst[4..8], &[0, 255, 0, 255]);
    assert_eq!(&dst[8..12], &[7, 7, 7, 7]);
}

fn checkerboard(width: u32, height: u32) -> Vec<u8> {
    let mut data = vec![0u8; width as usize * height as usize * 4];
    for y in 0..height as usize {
        for x in 0..width as usize {
            let i = (y * width as usize + x) * 4;
            let on = (x + y) % 2 == 0;
            data[i] = if on { 255 } else { 0 };
            data[i + 1] = if on { 0 } else { 255 };
            data[i + 2] = 128;
            data[i + 3] = 255;
        }
    }
    data
}

#[test]
fn rejects_zero_dimensions() {
    assert_eq!(encode_rgba8(0, 10, &[]), None);
    assert_eq!(encode_rgba8(10, 0, &[]), None);
}

#[test]
fn rejects_mismatched_buffer_length() {
    assert_eq!(encode_rgba8(4, 4, &[0u8; 10]), None);
}

#[test]
fn roundtrips_through_a_real_png_decoder() {
    let width = 17;
    let height = 13;
    let pixels = checkerboard(width, height);

    let png_bytes = encode_rgba8(width, height, &pixels).expect("should encode");

    let decoder = png::Decoder::new(std::io::Cursor::new(png_bytes.as_slice()));
    let mut reader = decoder.read_info().expect("should read the PNG header");
    let info = reader.info();
    assert_eq!(info.width, width);
    assert_eq!(info.height, height);
    assert_eq!(info.color_type, png::ColorType::Rgba);
    assert_eq!(info.bit_depth, png::BitDepth::Eight);

    let mut buf = vec![0u8; reader.output_buffer_size()];
    let frame_info = reader.next_frame(&mut buf).expect("should decode the frame");
    let decoded = &buf[..frame_info.buffer_size()];

    assert_eq!(decoded, pixels.as_slice());
}

#[test]
fn roundtrips_a_frame_larger_than_one_stored_block() {
    let width = 300;
    let height = 300;
    let pixels = checkerboard(width, height);

    let png_bytes = encode_rgba8(width, height, &pixels).expect("should encode");

    let decoder = png::Decoder::new(std::io::Cursor::new(png_bytes.as_slice()));
    let mut reader = decoder.read_info().expect("should read the PNG header");
    let mut buf = vec![0u8; reader.output_buffer_size()];
    let frame_info = reader.next_frame(&mut buf).expect("should decode the frame");
    assert_eq!(&buf[..frame_info.buffer_size()], pixels.as_slice());
}

#[test]
fn adler32_matches_known_test_vector() {
    assert_eq!(adler32(b"Wikipedia"), 0x11E60398);
}

#[test]
fn png_chunks_carry_the_crc32_of_type_and_data() {
    let png_bytes = encode_rgba8(1, 1, &[1, 2, 3, 4]).unwrap();
    assert_eq!(&png_bytes[..8], &[0x89, 0x50, 0x4E, 0x47, 0x0D, 0x0A, 0x1A, 0x0A]);
    // IHDR: length 13, then "IHDR" + 13 bytes, then its CRC.
    assert_eq!(&png_bytes[8..12], &[0, 0, 0, 13]);
    let crc = crc32fast::hash(&png_bytes[12..29]);
    assert_eq!(&png_bytes[29..33], &crc.to_be_bytes());
    // IEND is the last chunk: its CRC over the bare type is the well-known AE426082.
    assert_eq!(&png_bytes[png_bytes.len() - 4..], &[0xAE, 0x42, 0x60, 0x82]);
}
