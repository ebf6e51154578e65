use chat_label_printer::bitmap::{naive_encoder, pack_bits_to_bytes, pixel_is_dark, prepare_image};

const DARK: u32 = 0x0000_0000;
const LIGHT: u32 = 0xFFFF_FFFF;

#[test]
fn all_dark_row_of_sixteen() {
    let rows = prepare_image(&[DARK; 16], 16, 1);
    assert_eq!(rows, vec![vec![0x00, 0x00, 8, 8, 0x00, 0x01, 0xFF, 0xFF]]);
}

#[test]
fn all_light_row_of_sixteen() {
    let rows = prepare_image(&[LIGHT; 16], 16, 1);
    assert_eq!(rows, vec![vec![0x00, 0x00, 0, 0, 0x00, 0x01, 0x00, 0x00]]);
}

#[test]
fn bits_are_packed_most_significant_first() {
    let mut row = [LIGHT; 16];
    row[0] = DARK;
    row[9] = DARK;
    row[15] = DARK;
    let rows = prepare_image(&row, 16, 1);
    assert_eq!(rows, vec![vec![0x00, 0x00, 1, 2, 0x00, 0x01, 0b1000_0000, 0b0100_0001]]);
}

#[test]
fn darkness_goes_by_the_lowest_byte() {
    assert!(pixel_is_dark(0x0000_0000));
    assert!(pixel_is_dark(0xFFFF_FF00));
    assert!(!pixel_is_dark(0x0000_0001));
    assert!(!pixel_is_dark(0x0000_00FF));
    assert!(!pixel_is_dark(0xFFFF_FFFF));
}

#[test]
fn row_index_is_big_endian_and_rows_follow_the_image() {
    let width = 8;
    let height = 300;
    let mut image = vec![LIGHT; width * height];
    image[width * 258] = DARK;
    let rows = prepare_image(&image, width, height);
    assert_eq!(rows.len(), 300);
    assert_eq!(rows[0], vec![0, 0, 0, 0, 0, 1, 0x00]);
    assert_eq!(rows[1], vec![0, 1, 0, 0, 0, 1, 0x00]);
    assert_eq!(rows[258], vec![1, 2, 1, 0, 0, 1, 0x80]);
    assert_eq!(rows[299], vec![1, 43, 0, 0, 0, 1, 0x00]);
}

#[test]
fn pixels_behind_the_last_full_byte_are_counted_but_not_packed() {
    let rows = prepare_image(&[DARK; 12], 12, 1);
    assert_eq!(rows, vec![vec![0, 0, 6, 6, 0, 1, 0xFF]]);
    let rows = prepare_image(&[DARK; 5], 5, 1);
    assert_eq!(rows, vec![vec![0, 0, 2, 3, 0, 1]]);
}

#[test]
fn counts_wrap_at_256() {
    let rows = prepare_image(&vec![DARK; 520], 520, 1);
    assert_eq!(rows[0][2], 4);
    assert_eq!(rows[0][3], 4);
    assert_eq!(rows[0].len(), 6 + 65);
}

#[test]
fn empty_image_and_surplus_pixels() {
    assert!(prepare_image(&[], 0, 0).is_empty());
    assert!(prepare_image(&[DARK; 4], 8, 0).is_empty());
    assert_eq!(prepare_image(&[], 0, 2), vec![vec![0, 0, 0, 0, 0, 1], vec![0, 1, 0, 0, 0, 1]]);
    let mut image = vec![LIGHT; 8];
    image.extend([DARK; 8]);
    image.extend([DARK; 3]);
    assert_eq!(prepare_image(&image, 8, 2), vec![vec![0, 0, 0, 0, 0, 1, 0x00], vec![0, 1, 4, 4, 0, 1, 0xFF]]);
}

#[test]
fn naive_encoder_wraps_rows_in_bitmap_row_packets() {
    let packets = naive_encoder(16, 2, &[DARK; 32]);
    assert_eq!(packets.len(), 2);
    assert_eq!(packets[0].packet_type, 0x85);
    assert_eq!(packets[0].data, vec![0, 0, 8, 8, 0, 1, 0xFF, 0xFF]);
    assert_eq!(packets[1].packet_type, 0x85);
    assert_eq!(packets[1].data, vec![0, 1, 8, 8, 0, 1, 0xFF, 0xFF]);
    assert_eq!(
        packets[1].to_bytes(),
        vec![0x55, 0x55, 0x85, 8, 0, 1, 8, 8, 0, 1, 0xFF, 0xFF, 0x85 ^ 8 ^ 1 ^ 1, 0xAA, 0xAA]
    );
}

#[test]
fn bit_lists_are_packed_and_padded() {
    assert_eq!(pack_bits_to_bytes(&[]), Vec::<u8>::new());
    assert_eq!(pack_bits_to_bytes(&[1]), vec![0x80]);
    assert_eq!(pack_bits_to_bytes(&[1, 0, 1, 0, 1, 0, 1, 0]), vec![0xAA]);
    assert_eq!(pack_bits_to_bytes(&[0, 0, 0, 0, 0, 0, 0, 1, 1, 1]), vec![0x01, 0xC0]);
    assert_eq!(pack_bits_to_bytes(&[1; 16]), vec![0xFF, 0xFF]);
    assert_eq!(pack_bits_to_bytes(&[1; 17]), vec![0xFF, 0xFF, 0x80]);
    assert_eq!(pack_bits_to_bytes(&[3, 0, 0, 0, 0, 0, 0, 3]), vec![0x83]);
}
