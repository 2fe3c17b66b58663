use jane_doe::hashing::{
    compute_dhash, dhash_of_signature, fingerprint_image, fingerprint_loaded, fingerprint_pixels,
    hamming_distance, try_compute_dhash, Bitmap, DecodeError, IMG_SCALE,
};

/// The fingerprint as the `image` crate's own buffers give it: grey, nine by
/// eight, one bit per comparison from the lowest bit up, big-endian.
fn expected_dhash(img: &image::RgbImage) -> [u8; 8] {
    let gray = image::imageops::grayscale(img);
    let small = image::imageops::resize(&gray, 9, 8, image::imageops::FilterType::Triangle);
    let mut hash = 0u64;
    let mut bit = 0;
    for y in 0..8 {
        for x in 0..8 {
            if small.get_pixel(x, y)[0] < small.get_pixel(x + 1, y)[0] {
                hash |= 1 << bit;
            }
            bit += 1;
        }
    }
    hash.to_be_bytes()
}

fn textured(width: u32, height: u32) -> image::RgbImage {
    image::RgbImage::from_fn(width, height, |x, y| {
        let v = (x * 37 + y * 101 + (x * y) % 53) % 256;
        image::Rgb([v as u8, ((v * 7) % 256) as u8, ((v * 13 + 40) % 256) as u8])
    })
}

fn bitmap_of(img: &image::RgbImage) -> Bitmap {
    Bitmap::new(img.width(), img.height(), img.as_raw().clone()).unwrap()
}

fn png_of(img: &image::RgbImage) -> Vec<u8> {
    let mut bytes = std::io::Cursor::new(Vec::new());
    img.write_to(&mut bytes, image::ImageFormat::Png).unwrap();
    bytes.into_inner()
}

#[test]
fn distance_counts_differing_bits() {
    assert_eq!(hamming_distance(&[0b1010_1010], &[0b0101_0101]), 8);
    assert_eq!(hamming_distance(&[0xff, 0x00, 0x0f], &[0xff, 0x01, 0xf0]), 9);
    assert_eq!(hamming_distance(&[0x80], &[0x00]), 1);
    assert_eq!(hamming_distance(&[], &[]), 0);
}

#[test]
fn distance_between_fingerprints_is_at_most_64() {
    assert_eq!(hamming_distance(&[0u8; 8], &[0xffu8; 8]), 64);
    assert_eq!(hamming_distance(&[0x55u8; 8], &[0xaau8; 8]), 64);
}

#[test]
fn distance_pairs_bytes_up_to_the_shorter_length() {
    assert_eq!(hamming_distance(&[0xff, 0xff, 0xff], &[0x00]), 8);
    assert_eq!(hamming_distance(&[0x01], &[0x00, 0xff, 0xff]), 1);
    assert_eq!(hamming_distance(&[], &[0xff]), 0);
}

#[test]
fn distance_to_self_is_zero() {
    let x = [0x12, 0x34, 0x56, 0x78, 0x9a, 0xbc, 0xde, 0xf0];
    assert_eq!(hamming_distance(&x, &x), 0);
}

#[test]
fn distance_is_zero_only_between_equal_fingerprints() {
    let x = [0x12, 0x34, 0x56, 0x78, 0x9a, 0xbc, 0xde, 0xf0];
    let mut y = x;
    y[7] ^= 0x01;
    assert_eq!(hamming_distance(&x, &y), 1);
    assert_ne!(hamming_distance(&y, &x), 0);
}

#[test]
fn distance_is_symmetric() {
    let x = [0x12, 0x34, 0x56, 0x78, 0x9a, 0xbc, 0xde, 0xf0];
    let y = [0xff, 0x00, 0x56, 0x87, 0x9a, 0xcb, 0xed, 0x0f];
    assert_eq!(hamming_distance(&x, &y), hamming_distance(&y, &x));
    assert_eq!(hamming_distance(&x, &y), 35);
}

#[test]
fn distance_obeys_the_triangle_inequality() {
    let x = [0x12, 0x34, 0x56, 0x78, 0x9a, 0xbc, 0xde, 0xf0];
    let y = [0xff, 0x00, 0x56, 0x87, 0x9a, 0xcb, 0xed, 0x0f];
    let z = [0x0f, 0xf0, 0x65, 0x78, 0xa9, 0xbc, 0x00, 0xff];
    let direct = hamming_distance(&x, &y);
    let detour = hamming_distance(&x, &z) + hamming_distance(&z, &y);
    assert!(direct <= detour);
    assert!(hamming_distance(&x, &z) <= hamming_distance(&x, &y) + hamming_distance(&y, &z));
}

#[test]
fn grid_is_eight_by_eight() {
    assert_eq!(IMG_SCALE, 8);
}

#[test]
fn bitmap_takes_three_bytes_per_pixel() {
    assert!(Bitmap::new(2, 2, vec![0u8; 12]).is_some());
    assert!(Bitmap::new(2, 2, vec![0u8; 11]).is_none());
    assert!(Bitmap::new(2, 2, vec![0u8; 13]).is_none());
    assert!(Bitmap::new(0, 7, Vec::new()).is_some());
    assert!(Bitmap::new(u32::MAX, u32::MAX, vec![0u8; 3]).is_none());
    let bitmap = Bitmap::new(3, 1, vec![1, 2, 3, 4, 5, 6, 7, 8, 9]).unwrap();
    assert_eq!(bitmap.width(), 3);
    assert_eq!(bitmap.height(), 1);
    assert_eq!(bitmap.as_raw(), &vec![1, 2, 3, 4, 5, 6, 7, 8, 9]);
}

#[test]
fn signature_rows_fill_bytes_from_the_back() {
    let mut signature = [0u8; 72];
    for x in 0..9 {
        signature[x] = x as u8;
    }
    assert_eq!(dhash_of_signature(&signature), [0, 0, 0, 0, 0, 0, 0, 0xff]);
    let mut signature = [0u8; 72];
    for x in 0..9 {
        signature[7 * 9 + x] = x as u8;
    }
    assert_eq!(dhash_of_signature(&signature), [0xff, 0, 0, 0, 0, 0, 0, 0]);
}

#[test]
fn signature_columns_fill_bits_from_the_lowest() {
    let mut signature = [0u8; 72];
    signature[1] = 1;
    assert_eq!(dhash_of_signature(&signature), [0, 0, 0, 0, 0, 0, 0, 0x01]);
    let mut signature = [9u8; 72];
    signature[7 * 9 + 7] = 8;
    assert_eq!(dhash_of_signature(&signature), [0x80, 0, 0, 0, 0, 0, 0, 0]);
    let mut signature = [9u8; 72];
    signature[2 * 9 + 3] = 8;
    assert_eq!(dhash_of_signature(&signature), [0, 0, 0, 0, 0, 0x08, 0, 0]);
}

#[test]
fn equal_neighbours_set_no_bit() {
    assert_eq!(dhash_of_signature(&[200u8; 72]), [0u8; 8]);
    let mut falling = [0u8; 72];
    for y in 0..8 {
        for x in 0..9 {
            falling[y * 9 + x] = (100 - x) as u8;
        }
    }
    assert_eq!(dhash_of_signature(&falling), [0u8; 8]);
}

#[test]
fn flat_bitmap_has_zero_fingerprint() {
    let bitmap = Bitmap::new(32, 16, vec![90u8; 32 * 16 * 3]).unwrap();
    assert_eq!(compute_dhash(&bitmap), [0u8; 8]);
}

#[test]
fn empty_bitmap_has_zero_fingerprint() {
    let bitmap = Bitmap::new(0, 0, Vec::new()).unwrap();
    assert_eq!(compute_dhash(&bitmap), [0u8; 8]);
}

#[test]
fn bitmap_without_columns_is_refused_where_it_has_rows() {
    let bitmap = Bitmap::new(0, 2, Vec::new()).unwrap();
    assert_eq!(try_compute_dhash(&bitmap), None);
    assert_eq!(fingerprint_pixels(0, 2, Vec::new()), Err(DecodeError::NoColumns));
    assert_eq!(fingerprint_pixels(0, u32::MAX, Vec::new()), Err(DecodeError::NoColumns));
    assert_eq!(fingerprint_loaded(Ok((0, 2, Vec::new()))), Err(DecodeError::NoColumns));
}

#[test]
fn bitmap_without_pixels_has_zero_fingerprint() {
    assert_eq!(fingerprint_pixels(0, 1, Vec::new()), Ok([0u8; 8]));
    assert_eq!(fingerprint_pixels(0, 0, Vec::new()), Ok([0u8; 8]));
    assert_eq!(fingerprint_pixels(5, 0, Vec::new()), Ok([0u8; 8]));
    let bitmap = Bitmap::new(0, 1, Vec::new()).unwrap();
    assert_eq!(try_compute_dhash(&bitmap), Some([0u8; 8]));
    assert_eq!(compute_dhash(&bitmap), [0u8; 8]);
}

#[test]
fn grey_weighs_green_over_red_over_blue() {
    // Blue is 18, red 54 and green 182 in grey, so a row of blue, red, green
    // rises twice and falls once.
    let colours = [[0u8, 0, 255], [255, 0, 0], [0, 255, 0]];
    let mut rgb = Vec::new();
    for _ in 0..8 {
        for x in 0..9 {
            rgb.extend_from_slice(&colours[x % 3]);
        }
    }
    assert_eq!(fingerprint_pixels(9, 8, rgb), Ok([0b1101_1011u8; 8]));
}

#[test]
fn colours_of_one_grey_set_no_bit() {
    // 2126 * 255 and 7152 * 76 both give 54 when divided by 10000.
    let colours = [[255u8, 0, 0], [0, 76, 0]];
    let mut rgb = Vec::new();
    for _ in 0..8 {
        for x in 0..9 {
            rgb.extend_from_slice(&colours[x % 2]);
        }
    }
    assert_eq!(fingerprint_pixels(9, 8, rgb), Ok([0u8; 8]));
}

#[test]
fn rising_rows_set_every_bit() {
    let img = image::RgbImage::from_fn(9, 8, |x, _| image::Rgb([(x * 20) as u8; 3]));
    assert_eq!(compute_dhash(&bitmap_of(&img)), [0xffu8; 8]);
}

#[test]
fn one_rising_row_sets_its_byte() {
    let img = image::RgbImage::from_fn(9, 8, |x, y| {
        if y == 1 {
            image::Rgb([(x * 20) as u8; 3])
        } else {
            image::Rgb([77u8; 3])
        }
    });
    assert_eq!(compute_dhash(&bitmap_of(&img)), [0, 0, 0, 0, 0, 0, 0xff, 0]);
}

#[test]
fn fingerprint_agrees_with_the_image_crate() {
    for (width, height) in [(9, 8), (64, 48), (17, 123), (200, 10), (1, 1), (3, 300)] {
        let img = textured(width, height);
        assert_eq!(compute_dhash(&bitmap_of(&img)), expected_dhash(&img));
    }
}

#[test]
fn fingerprint_is_not_the_input() {
    let img = textured(64, 48);
    let fingerprint = compute_dhash(&bitmap_of(&img));
    assert_ne!(fingerprint.to_vec(), img.as_raw()[..8].to_vec());
    assert_ne!(fingerprint, [0u8; 8]);
}

#[test]
fn hashing_twice_gives_the_same_fingerprint() {
    let img = textured(120, 90);
    let first = compute_dhash(&bitmap_of(&img));
    let second = compute_dhash(&bitmap_of(&img.clone()));
    assert_eq!(first, second);
    let bytes = png_of(&img);
    assert_eq!(fingerprint_image(&bytes), fingerprint_image(&bytes.clone()));
}

#[test]
fn resized_image_stays_close() {
    let img = image::RgbImage::from_fn(160, 120, |x, y| {
        let v = ((x / 20) * 29 + (y / 15) * 17) % 256;
        image::Rgb([v as u8; 3])
    });
    let smaller = image::imageops::resize(&img, 80, 60, image::imageops::FilterType::Triangle);
    let distance = hamming_distance(&compute_dhash(&bitmap_of(&img)), &compute_dhash(&bitmap_of(&smaller)));
    assert!(distance < 15);
}

#[test]
fn try_compute_dhash_agrees_with_compute_dhash() {
    let bitmap = bitmap_of(&textured(40, 30));
    assert_eq!(try_compute_dhash(&bitmap), Some(compute_dhash(&bitmap)));
}

#[test]
fn fingerprint_pixels_checks_the_size() {
    let img = textured(20, 10);
    assert_eq!(fingerprint_pixels(20, 10, img.as_raw().clone()), Ok(expected_dhash(&img)));
    assert_eq!(fingerprint_pixels(20, 11, img.as_raw().clone()), Err(DecodeError::Inconsistent));
    assert_eq!(fingerprint_pixels(1, 1, Vec::new()), Err(DecodeError::Inconsistent));
}

#[test]
fn fingerprint_image_decodes_png() {
    let img = textured(50, 40);
    assert_eq!(fingerprint_image(&png_of(&img)), Ok(expected_dhash(&img)));
}

#[test]
fn fingerprint_image_decodes_grey_png_as_colour() {
    let gray = image::GrayImage::from_fn(30, 30, |x, y| image::Luma([((x * 8 + y * 3) % 256) as u8]));
    let mut bytes = std::io::Cursor::new(Vec::new());
    gray.write_to(&mut bytes, image::ImageFormat::Png).unwrap();
    let rgb = image::DynamicImage::ImageLuma8(gray).to_rgb8();
    assert_eq!(fingerprint_image(&bytes.into_inner()), Ok(expected_dhash(&rgb)));
}

#[test]
fn fingerprint_image_refuses_what_is_no_image() {
    assert_eq!(fingerprint_image(b"not an image at all"), Err(DecodeError::Unreadable));
    assert_eq!(fingerprint_image(&[]), Err(DecodeError::Unreadable));
    let mut truncated = png_of(&textured(50, 40));
    truncated.truncate(40);
    assert_eq!(fingerprint_image(&truncated), Err(DecodeError::Unreadable));
}

#[test]
fn what_the_decoder_gave_is_fingerprinted() {
    let img = textured(33, 21);
    assert_eq!(fingerprint_loaded(Ok((33, 21, img.as_raw().clone()))), Ok(expected_dhash(&img)));
    assert_eq!(fingerprint_loaded(Ok((33, 20, img.as_raw().clone()))), Err(DecodeError::Inconsistent));
    let refused = image::load_from_memory(b"junk").unwrap_err();
    assert_eq!(fingerprint_loaded(Err(refused)), Err(DecodeError::Unreadable));
}
