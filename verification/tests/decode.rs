use bmp_codec::{BmpError, BmpImg, SizeFields, ToBytes, BITMAPFILEHEADER, BITMAPINFOHEADER, RGBTRIPLE};

fn red_two_by_two() -> Vec<u8> {
    let mut img = BmpImg::new(2, 2);
    img.fill_image(255, 0, 0);
    img.to_bytes()
}

#[test]
fn filled_images_survive_a_round_trip() {
    let sizes: [(i32, i32); 6] = [(0, 0), (1, 1), (2, 2), (3, 7), (16, 1), (1, 16)];
    for (h, w) in sizes {
        let mut img = BmpImg::create(h, w).unwrap();
        img.fill_image(17, 34, 51);
        let back = BmpImg::from_bytes(&img.to_bytes()).unwrap();
        assert_eq!(back.fileheader, img.fileheader);
        assert_eq!(back.infoheader, img.infoheader);
        assert_eq!(back.pixels, img.pixels);
    }
}

#[test]
fn round_trip_holds_for_every_channel_value() {
    for c in 0..=255u8 {
        let mut img = BmpImg::new(1, 2);
        img.fill_image(c, c.wrapping_add(85), c.wrapping_add(170));
        assert_eq!(BmpImg::from_bytes(&img.to_bytes()), Ok(img));
    }
}

#[test]
fn round_trip_with_byte_sizes() {
    let mut img = BmpImg::create_with(5, 4, SizeFields::ByteCount).unwrap();
    img.fill_image(1, 2, 3);
    assert_eq!(BmpImg::from_bytes(&img.to_bytes()), Ok(img));
}

#[test]
fn round_trip_keeps_reserved_fields_and_offset() {
    let mut img = BmpImg::new(2, 3);
    img.fileheader.bf_reserved1 = 0x1234;
    img.fileheader.bf_reserved2 = 0xFFFF;
    img.fileheader.bf_off_bits = 1078;
    img.fileheader.bf_size = 0xDEAD_BEEF;
    img.infoheader.bi_x_pels_per_meter = -1;
    img.infoheader.bi_clr_used = 16;
    assert_eq!(BmpImg::from_bytes(&img.to_bytes()), Ok(img));
}

#[test]
fn round_trip_of_distinct_pixels() {
    let mut img = BmpImg::new(2, 2);
    for (i, p) in img.pixels.iter_mut().enumerate() {
        let base: u8 = (i * 3) as u8;
        *p = RGBTRIPLE { rgbt_blue: base, rgbt_green: base + 1, rgbt_red: base + 2 };
    }
    let back = BmpImg::from_bytes(&img.to_bytes()).unwrap();
    assert_eq!(back.pixels[3], RGBTRIPLE { rgbt_blue: 9, rgbt_green: 10, rgbt_red: 11 });
    assert_eq!(back, img);
}

#[test]
fn decoded_bytes_encode_back_unchanged() {
    let mut bytes = red_two_by_two();
    bytes[6] = 9;
    bytes[10] = 99;
    bytes[46] = 200;
    let img = BmpImg::from_bytes(&bytes).unwrap();
    assert_eq!(img.to_bytes(), bytes);
}

#[test]
fn decode_reads_every_field() {
    let img = BmpImg::from_bytes(&red_two_by_two()).unwrap();
    assert_eq!(img.fileheader.bf_type, 0x4D42);
    assert_eq!(img.fileheader.bf_size, 58);
    assert_eq!(img.fileheader.bf_off_bits, 54);
    assert_eq!(img.infoheader.bi_size, 40);
    assert_eq!(img.infoheader.bi_width, 2);
    assert_eq!(img.infoheader.bi_height, 2);
    assert_eq!(img.infoheader.bi_planes, 1);
    assert_eq!(img.infoheader.bi_bit_count, 24);
    assert_eq!(img.infoheader.bi_x_pels_per_meter, 30);
    assert_eq!(img.pixels.len(), 4);
    assert_eq!(img.pixels[0], RGBTRIPLE { rgbt_blue: 0, rgbt_green: 0, rgbt_red: 255 });
}

#[test]
fn decode_refuses_input_shorter_than_the_headers() {
    assert_eq!(BmpImg::from_bytes(&[]), Err(BmpError::Truncated));
    assert_eq!(BmpImg::from_bytes(&[0x42, 0x4D]), Err(BmpError::Truncated));
    let bytes = red_two_by_two();
    assert_eq!(BmpImg::from_bytes(&bytes[..14]), Err(BmpError::Truncated));
    assert_eq!(BmpImg::from_bytes(&bytes[..53]), Err(BmpError::Truncated));
}

#[test]
fn decode_refuses_a_partial_pixel() {
    let bytes = red_two_by_two();
    assert_eq!(BmpImg::from_bytes(&bytes[..55]), Err(BmpError::PartialPixel));
    assert_eq!(BmpImg::from_bytes(&bytes[..56]), Err(BmpError::PartialPixel));
    assert_eq!(BmpImg::from_bytes(&bytes[..65]), Err(BmpError::PartialPixel));
    let mut longer = bytes.clone();
    longer.push(0);
    assert_eq!(BmpImg::from_bytes(&longer), Err(BmpError::PartialPixel));
}

#[test]
fn decode_refuses_a_wrong_signature() {
    let mut bytes = red_two_by_two();
    bytes[0] = 0x41;
    assert_eq!(BmpImg::from_bytes(&bytes), Err(BmpError::BadMagic));
    let mut bytes = red_two_by_two();
    bytes.swap(0, 1);
    assert_eq!(BmpImg::from_bytes(&bytes), Err(BmpError::BadMagic));
    assert_eq!(BmpImg::from_bytes(&[0u8; 54]), Err(BmpError::BadMagic));
}

#[test]
fn decode_refuses_dimensions_that_disagree_with_the_pixels() {
    let bytes = red_two_by_two();
    assert_eq!(BmpImg::from_bytes(&bytes[..63]), Err(BmpError::DimensionMismatch));
    assert_eq!(BmpImg::from_bytes(&bytes[..54]), Err(BmpError::DimensionMismatch));
    let mut longer = bytes.clone();
    longer.extend([0, 0, 0]);
    assert_eq!(BmpImg::from_bytes(&longer), Err(BmpError::DimensionMismatch));
    let mut wider = bytes.clone();
    wider[18] = 3;
    assert_eq!(BmpImg::from_bytes(&wider), Err(BmpError::DimensionMismatch));
}

#[test]
fn length_is_checked_before_content() {
    let mut bytes = red_two_by_two();
    bytes[0] = 0;
    assert_eq!(BmpImg::from_bytes(&bytes[..53]), Err(BmpError::Truncated));
    assert_eq!(BmpImg::from_bytes(&bytes[..64]), Err(BmpError::PartialPixel));
    assert_eq!(BmpImg::from_bytes(&bytes[..63]), Err(BmpError::BadMagic));
}

#[test]
fn decode_accepts_an_empty_image() {
    let bytes = BmpImg::new(0, 0).to_bytes();
    assert_eq!(bytes.len(), 54);
    assert_eq!(BmpImg::from_bytes(&bytes), Ok(BmpImg::new(0, 0)));
}

#[test]
fn decode_accepts_negative_dimensions_with_matching_product() {
    let mut img = BmpImg::new(2, 3);
    img.infoheader.bi_width = -3;
    img.infoheader.bi_height = -2;
    assert_eq!(BmpImg::from_bytes(&img.to_bytes()), Ok(img));
}

#[test]
fn decode_does_not_look_at_size_fields_or_offset() {
    let mut bytes = red_two_by_two();
    bytes[2] = 0xFF;
    bytes[10] = 0;
    bytes[34] = 0;
    let img = BmpImg::from_bytes(&bytes).unwrap();
    assert_eq!(img.fileheader.bf_size, 255);
    assert_eq!(img.fileheader.bf_off_bits, 0);
    assert_eq!(img.infoheader.bi_size_image, 0);
}

#[test]
fn file_header_round_trip() {
    let h = BITMAPFILEHEADER {
        bf_type: 0xBEEF,
        bf_size: u32::MAX,
        bf_reserved1: 1,
        bf_reserved2: 0x8000,
        bf_off_bits: 0x8000_0000,
    };
    assert_eq!(BITMAPFILEHEADER::from_bytes(&h.to_bytes()), Some(h));
}

#[test]
fn file_header_reads_little_endian() {
    let bytes: [u8; 14] =
        [0x42, 0x4D, 0x04, 0x03, 0x02, 0x01, 0xB2, 0xA1, 0xD4, 0xC3, 0xCC, 0xDD, 0xEE, 0xFF];
    assert_eq!(
        BITMAPFILEHEADER::from_bytes(&bytes),
        Some(BITMAPFILEHEADER {
            bf_type: 0x4D42,
            bf_size: 0x0102_0304,
            bf_reserved1: 0xA1B2,
            bf_reserved2: 0xC3D4,
            bf_off_bits: 0xFFEE_DDCC,
        })
    );
}

#[test]
fn file_header_needs_exactly_14_bytes() {
    assert_eq!(BITMAPFILEHEADER::from_bytes(&[0u8; 13]), None);
    assert_eq!(BITMAPFILEHEADER::from_bytes(&[0u8; 15]), None);
    assert_eq!(BITMAPFILEHEADER::from_bytes(&[]), None);
    assert!(BITMAPFILEHEADER::from_bytes(&[0u8; 14]).is_some());
}

#[test]
fn info_header_round_trip() {
    let h = BITMAPINFOHEADER {
        bi_size: 40,
        bi_width: -1,
        bi_height: i32::MIN,
        bi_planes: u16::MAX,
        bi_bit_count: 24,
        bi_compression: 3,
        bi_size_image: 0x8000_0001,
        bi_x_pels_per_meter: i32::MAX,
        bi_y_pels_per_meter: -2835,
        bi_clr_used: 2,
        bi_clr_important: 1,
    };
    assert_eq!(BITMAPINFOHEADER::from_bytes(&h.to_bytes()), Some(h));
}

#[test]
fn info_header_reads_signed_fields_in_twos_complement() {
    let mut bytes: Vec<u8> = vec![0u8; 40];
    bytes[4..8].copy_from_slice(&[0xFF, 0xFF, 0xFF, 0xFF]);
    bytes[8..12].copy_from_slice(&[0x00, 0x00, 0x00, 0x80]);
    bytes[24..28].copy_from_slice(&[0xFF, 0xFF, 0xFF, 0x7F]);
    bytes[28..32].copy_from_slice(&[0x2A, 0x00, 0x00, 0x00]);
    let h = BITMAPINFOHEADER::from_bytes(&bytes).unwrap();
    assert_eq!(h.bi_width, -1);
    assert_eq!(h.bi_height, i32::MIN);
    assert_eq!(h.bi_x_pels_per_meter, i32::MAX);
    assert_eq!(h.bi_y_pels_per_meter, 42);
}

#[test]
fn info_header_needs_exactly_40_bytes() {
    assert_eq!(BITMAPINFOHEADER::from_bytes(&[0u8; 39]), None);
    assert_eq!(BITMAPINFOHEADER::from_bytes(&[0u8; 41]), None);
    assert!(BITMAPINFOHEADER::from_bytes(&[0u8; 40]).is_some());
}

#[test]
fn pixel_round_trip() {
    let p = RGBTRIPLE { rgbt_blue: 1, rgbt_green: 2, rgbt_red: 3 };
    assert_eq!(RGBTRIPLE::from_bytes(&p.to_bytes()), Some(p));
    assert_eq!(
        RGBTRIPLE::from_bytes(&[9, 8, 7]),
        Some(RGBTRIPLE { rgbt_blue: 9, rgbt_green: 8, rgbt_red: 7 })
    );
}

#[test]
fn pixel_needs_exactly_three_bytes() {
    assert_eq!(RGBTRIPLE::from_bytes(&[1, 2]), None);
    assert_eq!(RGBTRIPLE::from_bytes(&[1, 2, 3, 4]), None);
}
