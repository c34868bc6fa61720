use rustromm::libretro::video::{convert, Frame, PixelFormat};

/// A source buffer with padded rows, so tests exercise the real layout rather
/// than a convenient packed one.
fn padded(width: usize, height: usize, bpp: usize, pitch: usize, fill: &[u8]) -> Vec<u8> {
    let mut buf = vec![0xAA; pitch * height];
    for y in 0..height {
        for x in 0..width {
            let at = y * pitch + x * bpp;
            buf[at..at + bpp].copy_from_slice(fill);
        }
    }
    buf
}

#[test]
fn rgb565_white_is_fully_white() {
    let src = padded(2, 2, 2, 8, &0xFFFFu16.to_le_bytes());
    let f = convert(&src, 2, 2, 8, PixelFormat::Rgb565).unwrap();
    assert!(f.rgba.chunks_exact(4).all(|p| p == [255, 255, 255, 255]));
}

#[test]
fn rgb565_channels_land_in_the_right_order() {
    let src = padded(1, 1, 2, 2, &0xF800u16.to_le_bytes());
    let f = convert(&src, 1, 1, 2, PixelFormat::Rgb565).unwrap();
    assert_eq!(&f.rgba, &[255, 0, 0, 255]);

    let src = padded(1, 1, 2, 2, &0x07E0u16.to_le_bytes());
    assert_eq!(
        convert(&src, 1, 1, 2, PixelFormat::Rgb565).unwrap().rgba,
        [0, 255, 0, 255]
    );
    let src = padded(1, 1, 2, 2, &0x001Fu16.to_le_bytes());
    assert_eq!(
        convert(&src, 1, 1, 2, PixelFormat::Rgb565).unwrap().rgba,
        [0, 0, 255, 255]
    );
}

#[test]
fn rgb1555_ignores_the_top_bit() {
    let a = padded(1, 1, 2, 2, &0x7FFFu16.to_le_bytes());
    let b = padded(1, 1, 2, 2, &0xFFFFu16.to_le_bytes());
    assert_eq!(
        convert(&a, 1, 1, 2, PixelFormat::Rgb1555).unwrap().rgba,
        convert(&b, 1, 1, 2, PixelFormat::Rgb1555).unwrap().rgba
    );
}

#[test]
fn xrgb8888_is_little_endian_bgrx() {
    let src = padded(1, 1, 4, 4, &[0x10, 0x20, 0x30, 0xFF]);
    let f = convert(&src, 1, 1, 4, PixelFormat::Xrgb8888).unwrap();
    assert_eq!(&f.rgba, &[0x30, 0x20, 0x10, 255]);
}

#[test]
fn padded_rows_do_not_shear_the_image() {
    let (w, h, pitch) = (160, 144, 512);
    let mut src = vec![0u8; pitch * h];
    for y in 0..h {
        src[y * pitch..y * pitch + pitch].fill(0xEE);
        let v = (y as u16) | 0x8000;
        src[y * pitch..y * pitch + 2].copy_from_slice(&v.to_le_bytes());
        for x in 1..w {
            src[y * pitch + x * 2..y * pitch + x * 2 + 2].copy_from_slice(&[0, 0]);
        }
    }
    let f = convert(&src, w, h, pitch, PixelFormat::Rgb565).unwrap();
    assert_eq!(f.rgba.len(), w * h * 4);
    for y in 0..h {
        for x in 1..w {
            let at = (y * w + x) * 4;
            assert_eq!(
                &f.rgba[at..at + 3],
                &[0, 0, 0],
                "row {y} pixel {x} picked up padding"
            );
        }
    }
}

#[test]
fn a_short_buffer_is_rejected_rather_than_read_past() {
    let src = vec![0u8; 10];
    assert!(convert(&src, 160, 144, 512, PixelFormat::Rgb565).is_none());
}

#[test]
fn the_last_row_need_not_be_padded() {
    let (w, h, pitch) = (4, 3, 16);
    let src = vec![0u8; pitch * (h - 1) + w * 2];
    assert!(convert(&src, w, h, pitch, PixelFormat::Rgb565).is_some());
    let short = vec![0u8; pitch * (h - 1) + w * 2 - 1];
    assert!(convert(&short, w, h, pitch, PixelFormat::Rgb565).is_none());
}

#[test]
fn a_pitch_narrower_than_the_row_is_rejected() {
    let src = vec![0u8; 4096];
    assert!(convert(&src, 160, 144, 100, PixelFormat::Rgb565).is_none());
}

#[test]
fn zero_sized_frames_are_rejected() {
    let src = vec![0u8; 4096];
    assert!(convert(&src, 0, 144, 512, PixelFormat::Rgb565).is_none());
    assert!(convert(&src, 160, 0, 512, PixelFormat::Rgb565).is_none());
}

#[test]
fn pixel_formats_round_trip_through_their_raw_values() {
    assert_eq!(PixelFormat::from_raw(0), Some(PixelFormat::Rgb1555));
    assert_eq!(PixelFormat::from_raw(1), Some(PixelFormat::Xrgb8888));
    assert_eq!(PixelFormat::from_raw(2), Some(PixelFormat::Rgb565));
    assert_eq!(PixelFormat::from_raw(3), None);
    assert_eq!(PixelFormat::default(), PixelFormat::Rgb1555);
    assert_eq!(PixelFormat::Rgb565.bytes_per_pixel(), 2);
    assert_eq!(PixelFormat::Xrgb8888.bytes_per_pixel(), 4);
    assert_eq!(PixelFormat::Rgb565.name(), "RGB565");
}

#[test]
fn a_black_frame_is_reported_as_blank() {
    let src = vec![0u8; 512 * 144];
    let f = convert(&src, 160, 144, 512, PixelFormat::Rgb565).unwrap();
    assert!(f.is_blank());
    let lit = Frame { width: 1, height: 1, rgba: vec![0, 0, 1, 255] };
    assert!(!lit.is_blank());
}

#[test]
fn five_bit_channels_are_replicated_not_shifted() {
    // 0x4210 in 5-6-5: red 8, green 16, blue 16.
    let src = padded(1, 1, 2, 2, &0x4210u16.to_le_bytes());
    let f = convert(&src, 1, 1, 2, PixelFormat::Rgb565).unwrap();
    assert_eq!(f.rgba, vec![(8 << 3) | (8 >> 2), (16 << 2) | (16 >> 4), (16 << 3) | (16 >> 2), 255]);
}

#[test]
fn a_geometry_too_large_to_address_is_a_missing_frame() {
    let src = vec![0u8; 16];
    assert!(convert(&src, usize::MAX, 2, 4, PixelFormat::Xrgb8888).is_none());
    assert!(convert(&src, 2, usize::MAX, usize::MAX, PixelFormat::Rgb565).is_none());
    assert!(convert(&src, usize::MAX / 2, usize::MAX / 2, usize::MAX, PixelFormat::Rgb1555).is_none());
}

#[test]
fn padding_bytes_never_change_the_frame() {
    let mut a = padded(2, 2, 2, 8, &[0x1f, 0x00]);
    let mut b = a.clone();
    for y in 0..2 {
        for i in 4..8 {
            a[y * 8 + i] = 0x00;
            b[y * 8 + i] = 0xff;
        }
    }
    let fa = convert(&a, 2, 2, 8, PixelFormat::Rgb565).unwrap();
    let fb = convert(&b, 2, 2, 8, PixelFormat::Rgb565).unwrap();
    assert_eq!(fa.rgba, fb.rgba);
}
