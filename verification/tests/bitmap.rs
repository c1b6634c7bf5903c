use clipee_windows::error::{Error, WindowsError};
use clipee_windows::format::bitmap::{decode, depad_rows, get, BitmapHeader, CopiedBits, RgbImage};
use clipee_windows::lock::{GlobalObject, LockedPtr};

fn bits(raw: Vec<u8>) -> CopiedBits {
    CopiedBits { raw, scan_lines: 1, error: WindowsError(0) }
}

fn header(width: i32, height: i32, bit_count: u16) -> BitmapHeader {
    BitmapHeader { width, height, bit_count, size_image: 0 }
}

fn info_block(width: i32, height: i32, bit_count: u16, size_image: u32) -> Vec<u8> {
    let mut bytes = vec![0u8; 44];
    bytes[0..4].copy_from_slice(&40u32.to_le_bytes());
    bytes[4..8].copy_from_slice(&width.to_le_bytes());
    bytes[8..12].copy_from_slice(&height.to_le_bytes());
    bytes[12..14].copy_from_slice(&1u16.to_le_bytes());
    bytes[14..16].copy_from_slice(&bit_count.to_le_bytes());
    bytes[20..24].copy_from_slice(&size_image.to_le_bytes());
    bytes
}

#[test]
fn padding_is_dropped_from_every_row() {
    // three pixels of three bytes: nine bytes a row, padded to twelve
    let raw = vec![
        1, 2, 3, 4, 5, 6, 7, 8, 9, 0xaa, 0xaa, 0xaa, //
        11, 12, 13, 14, 15, 16, 17, 18, 19, 0xbb, 0xbb, 0xbb,
    ];
    let image = decode(&header(3, -2, 24), bits(raw)).unwrap();
    assert_eq!(
        image,
        RgbImage {
            width: 3,
            height: 2,
            data: vec![1, 2, 3, 4, 5, 6, 7, 8, 9, 11, 12, 13, 14, 15, 16, 17, 18, 19],
        }
    );
    assert_eq!(image.data.len(), 3 * 2 * 3);
}

#[test]
fn one_pixel_rows_have_one_byte_of_padding() {
    let raw = vec![1, 2, 3, 0xee, 4, 5, 6, 0xee, 7, 8, 9, 0xee];
    let image = decode(&header(1, -3, 24), bits(raw)).unwrap();
    assert_eq!(image.data, vec![1, 2, 3, 4, 5, 6, 7, 8, 9]);
    assert_eq!((image.width, image.height), (1, 3));
}

#[test]
fn rows_without_padding_are_kept_whole() {
    let raw: Vec<u8> = (0..24).collect();
    let image = decode(&header(4, -2, 24), bits(raw.clone())).unwrap();
    assert_eq!(image.data, raw);
}

#[test]
fn positive_height_is_stored_bottom_up() {
    let raw = vec![
        1, 2, 3, 4, 5, 6, 0xaa, 0xaa, //
        11, 12, 13, 14, 15, 16, 0xbb, 0xbb, //
        21, 22, 23, 24, 25, 26, 0xcc, 0xcc,
    ];
    let down = decode(&header(2, -3, 24), bits(raw.clone())).unwrap();
    let up = decode(&header(2, 3, 24), bits(raw)).unwrap();
    assert_eq!(down.data, vec![1, 2, 3, 4, 5, 6, 11, 12, 13, 14, 15, 16, 21, 22, 23, 24, 25, 26]);
    assert_eq!(up.data, vec![21, 22, 23, 24, 25, 26, 11, 12, 13, 14, 15, 16, 1, 2, 3, 4, 5, 6]);
    assert_eq!((up.width, up.height), (down.width, down.height));
    for row in 0..3 {
        assert_eq!(up.data[row * 6..row * 6 + 6], down.data[(2 - row) * 6..(2 - row) * 6 + 6]);
    }
}

#[test]
fn surplus_bytes_behind_the_rows_are_cut() {
    let raw = vec![1, 2, 3, 0, 4, 5, 6, 0, 9, 9, 9, 9, 9, 9, 9, 9];
    let image = decode(&header(1, -2, 24), bits(raw)).unwrap();
    assert_eq!(image.data, vec![1, 2, 3, 4, 5, 6]);
}

#[test]
fn rows_that_the_buffer_lacks_are_zero() {
    let raw = vec![1, 2, 3, 0, 4, 5, 6];
    let image = decode(&header(1, -3, 24), bits(raw)).unwrap();
    assert_eq!(image.data, vec![1, 2, 3, 0, 0, 0, 0, 0, 0]);
}

#[test]
fn no_rows_copied_is_image_bits() {
    let copied = CopiedBits { raw: vec![1, 2, 3, 0], scan_lines: 0, error: WindowsError(6) };
    assert_eq!(decode(&header(1, 1, 24), copied), Err(Error::ImageBits(WindowsError(6))));
    let copied = CopiedBits { raw: vec![], scan_lines: 0, error: WindowsError(6) };
    assert_eq!(decode(&header(1, 1, 32), copied), Err(Error::ImageBits(WindowsError(6))));
}

#[test]
fn other_pixel_sizes_are_invalid_images() {
    assert_eq!(decode(&header(1, 1, 32), bits(vec![1, 2, 3, 4])), Err(Error::InvalidImage));
    assert_eq!(decode(&header(2, 2, 8), bits(vec![1, 2, 0, 0, 3, 4, 0, 0])), Err(Error::InvalidImage));
    assert_eq!(decode(&header(1, 1, 0), bits(vec![])), Err(Error::InvalidImage));
    assert_eq!(decode(&header(-1, 1, 24), bits(vec![1, 2, 3, 0])), Err(Error::InvalidImage));
}

#[test]
fn empty_images_decode_to_nothing() {
    let image = decode(&header(0, 5, 24), bits(vec![])).unwrap();
    assert_eq!(image, RgbImage { width: 0, height: 5, data: vec![] });
    let image = decode(&header(4, 0, 32), bits(vec![1, 2, 3])).unwrap();
    assert_eq!(image, RgbImage { width: 4, height: 0, data: vec![] });
}

#[test]
fn header_is_read_from_the_locked_description() {
    let object = GlobalObject {
        handle: 5,
        address: 0x8000,
        bytes: info_block(640, -480, 24, 921600),
        error: WindowsError(0),
    };
    let block = LockedPtr::new(object, 44).unwrap();
    let header = BitmapHeader::read(&block);
    assert_eq!(header, BitmapHeader { width: 640, height: -480, bit_count: 24, size_image: 921600 });
    assert_eq!(header.row_count(), 480);
    assert_eq!(header.buffer_len(), 921600);
    assert_eq!(header.row_count(), 480);
}

#[test]
fn row_count_is_the_magnitude_of_the_height() {
    assert_eq!(header(1, 7, 24).row_count(), 7);
    assert_eq!(header(1, -7, 24).row_count(), 7);
    assert_eq!(header(1, 0, 24).row_count(), 0);
    assert_eq!(header(1, i32::MIN, 24).row_count(), 2147483648);
    assert_eq!(header(1, i32::MAX, 24).row_count(), 2147483647);
}

#[test]
fn bitmap_is_decoded_under_the_header_in_the_block() {
    let object = GlobalObject {
        handle: 5,
        address: 0x8000,
        bytes: info_block(1, 2, 24, 8),
        error: WindowsError(0),
    };
    let block = LockedPtr::new(object, 44).unwrap();
    let image = get(&block, bits(vec![1, 2, 3, 0, 4, 5, 6, 0])).unwrap();
    assert_eq!(image, RgbImage { width: 1, height: 2, data: vec![4, 5, 6, 1, 2, 3] });
}

#[test]
fn depadding_keeps_the_head_of_each_stride() {
    let raw: Vec<u8> = (0..10).collect();
    assert_eq!(depad_rows(&raw, 4, 2, 2), vec![0, 1, 4, 5]);
    assert_eq!(depad_rows(&raw, 4, 2, 3), vec![0, 1, 4, 5, 0, 0]);
    assert_eq!(depad_rows(&raw, 5, 5, 2), raw);
    assert_eq!(depad_rows(&raw, 4, 0, 2), Vec::<u8>::new());
    assert_eq!(depad_rows(&raw, 0, 0, 2), Vec::<u8>::new());
    assert_eq!(depad_rows(&raw, 3, 1, 0), Vec::<u8>::new());
}
