use bmp_codec::{BmpImg, SizeFields, ToBytes, BITMAPFILEHEADER, BITMAPINFOHEADER, RGBTRIPLE};

#[test]
fn red_two_by_two_encodes_to_the_expected_bytes() {
    let mut img = BmpImg::create(2, 2).unwrap();
    img.fill_image(255, 0, 0);
    let expected: Vec<u8> = vec![
        0x42, 0x4D, // signature
        58, 0, 0, 0, // file size field
        0, 0, // reserved
        0, 0, // reserved
        54, 0, 0, 0, // pixel data offset
        40, 0, 0, 0, // info header size
        2, 0, 0, 0, // width
        2, 0, 0, 0, // height
        1, 0, // planes
        24, 0, // bits per pixel
        0, 0, 0, 0, // compression
        58, 0, 0, 0, // image size field
        30, 0, 0, 0, // horizontal resolution
        30, 0, 0, 0, // vertical resolution
        0, 0, 0, 0, // colors used
        0, 0, 0, 0, // important colors
        0, 0, 255, 0, 0, 255, 0, 0, 255, 0, 0, 255,
    ];
    assert_eq!(img.to_bytes(), expected);
}

#[test]
fn red_two_by_two_from_new_encodes_the_same() {
    let mut a = BmpImg::new(2, 2);
    a.fill_image(255, 0, 0);
    let mut b = BmpImg::create(2, 2).unwrap();
    b.fill_image(255, 0, 0);
    assert_eq!(a.to_bytes(), b.to_bytes());
}

#[test]
fn red_two_by_two_with_byte_sizes() {
    let mut img = BmpImg::create_with(2, 2, SizeFields::ByteCount).unwrap();
    img.fill_image(255, 0, 0);
    let bytes = img.to_bytes();
    assert_eq!(bytes.len(), 66);
    assert_eq!(&bytes[0..2], &[0x42, 0x4D]);
    assert_eq!(&bytes[2..6], &[66, 0, 0, 0]);
    assert_eq!(&bytes[34..38], &[12, 0, 0, 0]);
    assert_eq!(&bytes[54..], &[0, 0, 255, 0, 0, 255, 0, 0, 255, 0, 0, 255]);
}

#[test]
fn empty_image_encodes_to_54_bytes() {
    let img = BmpImg::create(0, 0).unwrap();
    let bytes = img.to_bytes();
    assert_eq!(bytes.len(), 54);
    let expected: Vec<u8> = vec![
        0x42, 0x4D, 54, 0, 0, 0, 0, 0, 0, 0, 54, 0, 0, 0, 40, 0, 0, 0, 0, 0, 0, 0, 0, 0, 0, 0, 1,
        0, 24, 0, 0, 0, 0, 0, 54, 0, 0, 0, 30, 0, 0, 0, 30, 0, 0, 0, 0, 0, 0, 0, 0, 0, 0, 0,
    ];
    assert_eq!(bytes, expected);
}

#[test]
fn encoded_length_is_54_plus_three_per_pixel() {
    assert_eq!(BmpImg::new(1, 1).to_bytes().len(), 57);
    assert_eq!(BmpImg::new(3, 5).to_bytes().len(), 54 + 3 * 3 * 5);
    assert_eq!(BmpImg::new(100, 7).to_bytes().len(), 54 + 3 * 100 * 7);
    assert_eq!(BmpImg::new(1, 1000).to_bytes().len(), 3054);
}

#[test]
fn encoded_length_does_not_depend_on_the_header_fields() {
    let mut img = BmpImg::new(2, 2);
    img.infoheader.bi_width = 1000;
    img.fileheader.bf_size = 1;
    assert_eq!(img.to_bytes().len(), 66);
}

#[test]
fn encoding_is_deterministic() {
    let mut img = BmpImg::new(9, 4);
    img.fill_image(12, 34, 56);
    assert_eq!(img.to_bytes(), img.to_bytes());
    assert_eq!(img.to_bytes(), img.clone().to_bytes());
}

#[test]
fn pixels_are_written_in_the_order_held() {
    let mut img = BmpImg::new(1, 3);
    img.pixels[0] = RGBTRIPLE { rgbt_blue: 1, rgbt_green: 2, rgbt_red: 3 };
    img.pixels[1] = RGBTRIPLE { rgbt_blue: 4, rgbt_green: 5, rgbt_red: 6 };
    img.pixels[2] = RGBTRIPLE { rgbt_blue: 7, rgbt_green: 8, rgbt_red: 9 };
    let bytes = img.to_bytes();
    assert_eq!(&bytes[54..], &[1, 2, 3, 4, 5, 6, 7, 8, 9]);
}

#[test]
fn image_bytes_are_the_parts_in_file_order() {
    let mut img = BmpImg::new(2, 1);
    img.fill_image(3, 2, 1);
    let mut expected: Vec<u8> = img.fileheader.to_bytes();
    expected.extend(img.infoheader.to_bytes());
    for p in img.pixels.iter() {
        expected.extend(p.to_bytes());
    }
    assert_eq!(img.to_bytes(), expected);
}

#[test]
fn pixel_is_blue_green_red() {
    let p = RGBTRIPLE { rgbt_blue: 0x11, rgbt_green: 0x22, rgbt_red: 0x33 };
    assert_eq!(p.to_bytes(), vec![0x11, 0x22, 0x33]);
}

#[test]
fn file_header_is_14_bytes_little_endian() {
    let h = BITMAPFILEHEADER {
        bf_type: 0x4D42,
        bf_size: 0x0102_0304,
        bf_reserved1: 0xA1B2,
        bf_reserved2: 0xC3D4,
        bf_off_bits: 0xFFEE_DDCC,
    };
    assert_eq!(
        h.to_bytes(),
        vec![0x42, 0x4D, 0x04, 0x03, 0x02, 0x01, 0xB2, 0xA1, 0xD4, 0xC3, 0xCC, 0xDD, 0xEE, 0xFF]
    );
}

#[test]
fn info_header_is_40_bytes_little_endian() {
    let h = BITMAPINFOHEADER {
        bi_size: 40,
        bi_width: 0x0102_0304,
        bi_height: -2,
        bi_planes: 0x0506,
        bi_bit_count: 24,
        bi_compression: 0x0708_090A,
        bi_size_image: u32::MAX,
        bi_x_pels_per_meter: i32::MIN,
        bi_y_pels_per_meter: i32::MAX,
        bi_clr_used: 256,
        bi_clr_important: 65536,
    };
    let expected: Vec<u8> = vec![
        40, 0, 0, 0, // size
        0x04, 0x03, 0x02, 0x01, // width
        0xFE, 0xFF, 0xFF, 0xFF, // height
        0x06, 0x05, // planes
        24, 0, // bits per pixel
        0x0A, 0x09, 0x08, 0x07, // compression
        0xFF, 0xFF, 0xFF, 0xFF, // image size
        0x00, 0x00, 0x00, 0x80, // horizontal resolution
        0xFF, 0xFF, 0xFF, 0x7F, // vertical resolution
        0, 1, 0, 0, // colors used
        0, 0, 1, 0, // important colors
    ];
    assert_eq!(h.to_bytes(), expected);
}

#[test]
fn headers_agree_with_std_little_endian() {
    let values: [i32; 7] = [0, 1, -1, 255, 256, i32::MIN, i32::MAX];
    for v in values {
        let mut h = BmpImg::new(0, 0).infoheader;
        h.bi_width = v;
        h.bi_size = v as u32;
        let bytes = h.to_bytes();
        assert_eq!(&bytes[4..8], &v.to_le_bytes());
        assert_eq!(&bytes[0..4], &(v as u32).to_le_bytes());
    }
    let shorts: [u16; 5] = [0, 1, 255, 256, u16::MAX];
    for v in shorts {
        let mut h = BmpImg::new(0, 0).fileheader;
        h.bf_reserved1 = v;
        assert_eq!(&h.to_bytes()[6..8], &v.to_le_bytes());
    }
}
