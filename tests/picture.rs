use doomwad::error::WadError;
use doomwad::picture::{decode_column, decode_lump_image, decode_picture_header, decode_post};

fn test_palette() -> Vec<[u8; 3]> {
    (0..256u32).map(|i| [i as u8, (255 - i) as u8, (i / 2) as u8]).collect()
}

/// A picture with the given size and columns; each column is its post bytes,
/// `0xFF` included.
fn build_picture(width: i16, height: i16, columns: &[Vec<u8>]) -> Vec<u8> {
    let mut data = Vec::new();
    for v in [width, height, 0, 0] {
        data.extend_from_slice(&v.to_le_bytes());
    }
    let mut offset = 8 + 4 * columns.len() as u32;
    for c in columns {
        data.extend_from_slice(&offset.to_le_bytes());
        offset += c.len() as u32;
    }
    for c in columns {
        data.extend_from_slice(c);
    }
    data
}

#[test]
fn minimal_one_pixel_picture() {
    let data = vec![1, 0, 1, 0, 0, 0, 0, 0, 12, 0, 0, 0, 0, 1, 0, 5, 0, 0xFF];
    let palette = test_palette();
    let img = decode_lump_image(&data, &palette).unwrap();
    assert_eq!(img.width(), 1);
    assert_eq!(img.height(), 1);
    assert_eq!(img.pixel(0, 0), Some(palette[5]));
}

#[test]
fn column_of_only_terminator_is_not_drawn() {
    let data = build_picture(2, 3, &[vec![0xFF], vec![1, 1, 0, 7, 0, 0xFF]]);
    let palette = test_palette();
    let img = decode_lump_image(&data, &palette).unwrap();
    for y in 0..3 {
        assert_eq!(img.pixel(0, y), None);
    }
    assert_eq!(img.pixel(1, 0), None);
    assert_eq!(img.pixel(1, 1), Some(palette[7]));
    assert_eq!(img.pixel(1, 2), None);
}

#[test]
fn post_past_bottom_is_format_error() {
    let palette = test_palette();
    let data = build_picture(1, 1, &[vec![0, 2, 0, 5, 6, 0, 0xFF]]);
    assert!(matches!(decode_lump_image(&data, &palette), Err(WadError::FormatError)));
    let data = build_picture(1, 2, &[vec![1, 2, 0, 5, 6, 0, 0xFF]]);
    assert!(matches!(decode_lump_image(&data, &palette), Err(WadError::FormatError)));
    // reaching exactly the last row is fine
    let data = build_picture(1, 3, &[vec![1, 2, 0, 5, 6, 0, 0xFF]]);
    let img = decode_lump_image(&data, &palette).unwrap();
    assert_eq!(img.pixel(0, 2), Some(palette[6]));
}

#[test]
fn colour_index_outside_palette_is_format_error() {
    let palette: Vec<[u8; 3]> = vec![[1, 2, 3]; 4];
    let data = build_picture(1, 1, &[vec![0, 1, 0, 4, 0, 0xFF]]);
    assert!(matches!(decode_lump_image(&data, &palette), Err(WadError::FormatError)));
    let data = build_picture(1, 1, &[vec![0, 1, 0, 3, 0, 0xFF]]);
    assert_eq!(decode_lump_image(&data, &palette).unwrap().pixel(0, 0), Some([1, 2, 3]));
}

#[test]
fn truncated_pictures_are_format_errors() {
    let palette = test_palette();
    // header cut short
    assert!(matches!(decode_lump_image(&vec![1, 0, 1], &palette), Err(WadError::FormatError)));
    // offset table cut short
    assert!(matches!(
        decode_lump_image(&vec![2, 0, 1, 0, 0, 0, 0, 0, 16, 0, 0, 0], &palette),
        Err(WadError::FormatError)
    ));
    // column offset past the end
    assert!(matches!(
        decode_lump_image(&vec![1, 0, 1, 0, 0, 0, 0, 0, 99, 0, 0, 0], &palette),
        Err(WadError::FormatError)
    ));
    // column without its closing byte
    let data = build_picture(1, 1, &[vec![0, 1, 0, 5, 0]]);
    assert!(matches!(decode_lump_image(&data, &palette), Err(WadError::FormatError)));
    // post data cut short
    let data = build_picture(1, 4, &[vec![0, 4, 0, 5, 5]]);
    assert!(matches!(decode_lump_image(&data, &palette), Err(WadError::FormatError)));
}

#[test]
fn negative_size_is_format_error() {
    let palette = test_palette();
    let data = build_picture(-1, 1, &[]);
    assert!(matches!(decode_lump_image(&data, &palette), Err(WadError::FormatError)));
    let data = build_picture(0, -2, &[]);
    assert!(matches!(decode_lump_image(&data, &palette), Err(WadError::FormatError)));
}

#[test]
fn empty_picture() {
    let palette = test_palette();
    let data = build_picture(0, 0, &[]);
    let img = decode_lump_image(&data, &palette).unwrap();
    assert_eq!(img.width(), 0);
    assert_eq!(img.height(), 0);
}

#[test]
fn later_post_draws_over_earlier() {
    let palette = test_palette();
    let data = build_picture(1, 4, &[vec![0, 3, 0, 1, 2, 3, 0, 2, 2, 0, 9, 8, 0, 0xFF]]);
    let img = decode_lump_image(&data, &palette).unwrap();
    assert_eq!(img.pixel(0, 0), Some(palette[1]));
    assert_eq!(img.pixel(0, 1), Some(palette[2]));
    assert_eq!(img.pixel(0, 2), Some(palette[9]));
    assert_eq!(img.pixel(0, 3), Some(palette[8]));
}

#[test]
fn black_pixels_stay_distinct_from_undrawn() {
    let palette: Vec<[u8; 3]> = vec![[0, 0, 0]; 256];
    let data = build_picture(1, 2, &[vec![1, 1, 0, 0, 0, 0xFF]]);
    let img = decode_lump_image(&data, &palette).unwrap();
    assert_eq!(img.pixel(0, 0), None);
    assert_eq!(img.pixel(0, 1), Some([0, 0, 0]));
}

#[test]
fn decoding_twice_gives_same_image() {
    let palette = test_palette();
    let data = build_picture(2, 3, &[vec![0, 2, 0, 10, 11, 0, 0xFF], vec![2, 1, 0, 200, 0, 0xFF]]);
    let a = decode_lump_image(&data, &palette).unwrap();
    let b = decode_lump_image(&data, &palette).unwrap();
    assert_eq!((a.width(), a.height()), (b.width(), b.height()));
    assert_eq!((a.left_offset(), a.top_offset()), (b.left_offset(), b.top_offset()));
    for x in 0..2 {
        for y in 0..3 {
            assert_eq!(a.pixel(x, y), b.pixel(x, y));
        }
    }
}

#[test]
fn header_fields_are_signed_little_endian() {
    let data = vec![0x2C, 0x01, 0x02, 0x00, 0xFD, 0xFF, 0x00, 0x80];
    let h = decode_picture_header(&data).unwrap();
    assert_eq!(h.width, 300);
    assert_eq!(h.height, 2);
    assert_eq!(h.left_offset, -3);
    assert_eq!(h.top_offset, -32768);
    assert!(matches!(decode_picture_header(&vec![0; 7]), Err(WadError::FormatError)));
}

#[test]
fn image_keeps_drawing_offsets() {
    let palette = test_palette();
    let mut data = build_picture(1, 1, &[vec![0xFF]]);
    data[4..6].copy_from_slice(&(-7i16).to_le_bytes());
    data[6..8].copy_from_slice(&12i16.to_le_bytes());
    let img = decode_lump_image(&data, &palette).unwrap();
    assert_eq!(img.left_offset(), -7);
    assert_eq!(img.top_offset(), 12);
}

#[test]
fn decode_post_reads_and_advances() {
    let data = vec![3, 2, 0, 7, 8, 0, 0xFF];
    let mut pos = 0usize;
    let post = decode_post(&data, &mut pos).unwrap().unwrap();
    assert_eq!(post.top_delta, 3);
    assert_eq!(post.length, 2);
    assert_eq!(post.data, vec![7, 8]);
    assert_eq!(pos, 6);
    assert!(decode_post(&data, &mut pos).unwrap().is_none());
    assert_eq!(pos, 7);
    assert!(matches!(decode_post(&data, &mut pos), Err(WadError::FormatError)));
}

#[test]
fn decode_column_collects_posts() {
    let data = vec![9, 0, 1, 1, 0, 2, 0, 4, 2, 0, 5, 6, 0, 0xFF];
    let column = decode_column(&data, 2).unwrap();
    assert_eq!(column.posts.len(), 2);
    assert_eq!(column.posts[0].data, vec![2]);
    assert_eq!(column.posts[1].top_delta, 4);
    assert_eq!(column.posts[1].data, vec![5, 6]);
    assert!(decode_column(&data, 13).unwrap().posts.is_empty());
    assert!(matches!(decode_column(&data, 14), Err(WadError::FormatError)));
}
