use remotion_renderer::bitmap::{create_bmp_image, rgb_plane_to_bmp, turn_frame_into_bitmap};

fn le32(b: &[u8], at: usize) -> u32 {
    u32::from_le_bytes([b[at], b[at + 1], b[at + 2], b[at + 3]])
}

fn le16(b: &[u8], at: usize) -> u16 {
    u16::from_le_bytes([b[at], b[at + 1]])
}

fn row_size_of(width: u32) -> u32 {
    let bmp = create_bmp_image(vec![0u8; 3 * width as usize], width, 1);
    le32(&bmp, 34)
}

#[test]
fn one_pixel_image_is_exact() {
    let bmp = create_bmp_image(vec![10, 20, 30], 1, 1);
    let expected: Vec<u8> = vec![
        b'B', b'M', 58, 0, 0, 0, 0, 0, 0, 0, 54, 0, 0, 0, //
        40, 0, 0, 0, 1, 0, 0, 0, 1, 0, 0, 0, 1, 0, 24, 0, //
        0, 0, 0, 0, 4, 0, 0, 0, 0x13, 0x0b, 0, 0, 0x13, 0x0b, 0, 0, //
        0, 0, 0, 0, 0, 0, 0, 0, //
        30, 20, 10, 0,
    ];
    assert_eq!(bmp, expected);
}

#[test]
fn headers_hold_sizes_and_constants() {
    let (w, h) = (5u32, 3u32);
    let bmp = create_bmp_image(vec![7u8; (3 * w * h) as usize], w, h);
    assert_eq!(&bmp[0..2], b"BM");
    assert_eq!(le32(&bmp, 2) as usize, bmp.len());
    assert_eq!(le32(&bmp, 2), 54 + 16 * 3);
    assert_eq!(le16(&bmp, 6), 0);
    assert_eq!(le16(&bmp, 8), 0);
    assert_eq!(le32(&bmp, 10), 54);
    assert_eq!(le32(&bmp, 14), 40);
    assert_eq!(le32(&bmp, 18), w);
    assert_eq!(le32(&bmp, 22), h);
    assert_eq!(le16(&bmp, 26), 1);
    assert_eq!(le16(&bmp, 28), 24);
    assert_eq!(le32(&bmp, 30), 0);
    assert_eq!(le32(&bmp, 34), 48);
    assert_eq!(le32(&bmp, 38), 2835);
    assert_eq!(le32(&bmp, 42), 2835);
    assert_eq!(le32(&bmp, 46), 0);
    assert_eq!(le32(&bmp, 50), 0);
}

#[test]
fn rows_are_padded_to_four_bytes() {
    let expected = [(1u32, 4u32), (2, 8), (3, 12), (4, 12), (5, 16), (100, 300), (101, 304)];
    for (w, row) in expected {
        assert_eq!(row_size_of(w), row);
        assert_eq!(row % 4, 0);
        assert!(row >= 3 * w && row < 3 * w + 4);
    }
}

#[test]
fn empty_image_has_headers_only() {
    let bmp = create_bmp_image(Vec::new(), 0, 0);
    assert_eq!(bmp.len(), 54);
    assert_eq!(le32(&bmp, 2), 54);
    let wide = create_bmp_image(Vec::new(), 7, 0);
    assert_eq!(wide.len(), 54);
    assert_eq!(le32(&wide, 18), 7);
}

#[test]
fn reading_back_gives_every_pixel() {
    let (w, h) = (3usize, 4usize);
    let rgb: Vec<u8> = (0..(3 * w * h) as u32).map(|v| (v * 7 + 1) as u8).collect();
    let bmp = create_bmp_image(rgb.clone(), w as u32, h as u32);
    let offset = le32(&bmp, 10) as usize;
    let row = ((w * 3 + 3) / 4) * 4;
    assert_eq!(bmp.len(), offset + row * h);
    for y in 0..h {
        let stored = offset + (h - 1 - y) * row;
        for x in 0..w {
            let b = bmp[stored + 3 * x];
            let g = bmp[stored + 3 * x + 1];
            let r = bmp[stored + 3 * x + 2];
            let src = y * 3 * w + 3 * x;
            assert_eq!([r, g, b], [rgb[src], rgb[src + 1], rgb[src + 2]]);
        }
        for p in 3 * w..row {
            assert_eq!(bmp[stored + p], 0);
        }
    }
}

#[test]
fn packing_drops_row_padding() {
    let plane: Vec<u8> = vec![
        1, 2, 3, 4, 5, 6, 99, 99, //
        7, 8, 9, 10, 11, 12, 99, 99, //
        13, 14, 15, 16, 17, 18,
    ];
    let packed = turn_frame_into_bitmap(&plane, 8, 2, 3);
    assert_eq!(packed, (1..=18).collect::<Vec<u8>>());
}

#[test]
fn packing_with_tight_stride_copies_plane() {
    let plane: Vec<u8> = (0..12).collect();
    assert_eq!(turn_frame_into_bitmap(&plane, 6, 2, 2), plane);
    assert!(turn_frame_into_bitmap(&plane, 6, 2, 0).is_empty());
}

#[test]
fn plane_to_bitmap_encodes_packed_rows() {
    let plane: Vec<u8> = vec![1, 2, 3, 0, 4, 5, 6, 0];
    let bmp = rgb_plane_to_bmp(&plane, 4, 1, 2).unwrap();
    assert_eq!(bmp, create_bmp_image(vec![1, 2, 3, 4, 5, 6], 1, 2));
    assert_eq!(&bmp[54..], &[6, 5, 4, 0, 3, 2, 1, 0]);
}

#[test]
fn plane_to_bitmap_rejects_short_plane() {
    let plane: Vec<u8> = vec![1, 2, 3, 0, 4, 5];
    assert!(rgb_plane_to_bmp(&plane, 4, 1, 2).is_none());
    assert!(rgb_plane_to_bmp(&plane, 4, 1, 1).is_some());
}

#[test]
fn plane_to_bitmap_rejects_oversized_image() {
    assert!(rgb_plane_to_bmp(&[], 0, u32::MAX, 2).is_none());
    assert!(rgb_plane_to_bmp(&[], 0, u32::MAX, 0).is_some());
}
