use pathtracer::Image;

/// The magic number that opens a binary PPM file, and its line break.
const MAGIC: [u8; 3] = [b'P', b'0' + 6, b'\n'];

#[test]
fn new_image_is_black() {
    let img = Image::new(4, 3);
    assert_eq!(img.width(), 4);
    assert_eq!(img.height(), 3);
    assert_eq!(img.as_bytes().len(), 36);
    assert!(img.as_bytes().iter().all(|b| *b == 0));
}

#[test]
fn empty_image() {
    let img = Image::new(0, 5);
    assert!(img.as_bytes().is_empty());
}

#[test]
fn pixels_are_row_major() {
    let mut img = Image::new(3, 2);
    img.put_pixel(2, 1, [10, 20, 30]);
    img.put_pixel(0, 1, [1, 2, 3]);
    img.put_pixel(1, 0, [255, 0, 255]);
    assert_eq!(img.pixel(2, 1), [10, 20, 30]);
    assert_eq!(img.pixel(0, 1), [1, 2, 3]);
    assert_eq!(img.pixel(0, 0), [0, 0, 0]);
    assert_eq!(
        img.as_bytes(),
        &[0, 0, 0, 255, 0, 255, 0, 0, 0, 1, 2, 3, 0, 0, 0, 10, 20, 30][..]
    );
}

#[test]
fn put_pixel_overwrites() {
    let mut img = Image::new(1, 1);
    img.put_pixel(0, 0, [9, 9, 9]);
    img.put_pixel(0, 0, [7, 8, 6]);
    assert_eq!(img.pixel(0, 0), [7, 8, 6]);
}

#[test]
fn ppm_of_small_image() {
    let mut img = Image::new(2, 1);
    img.put_pixel(0, 0, [255, 0, 0]);
    img.put_pixel(1, 0, [0, 128, 255]);
    let mut expected = MAGIC.to_vec();
    expected.extend_from_slice(b"2 1\n255\n");
    expected.extend_from_slice(&[255, 0, 0, 0, 128, 255]);
    assert_eq!(img.encode_ppm(), expected);
}

#[test]
fn ppm_header_of_full_frame() {
    let img = Image::new(320, 320);
    let out = img.encode_ppm();
    let mut header = MAGIC.to_vec();
    header.extend_from_slice(b"320 320\n255\n");
    assert_eq!(&out[..header.len()], &header[..]);
    assert_eq!(out.len(), header.len() + 320 * 320 * 3);
}

#[test]
fn ppm_of_empty_image() {
    let img = Image::new(0, 0);
    let mut expected = MAGIC.to_vec();
    expected.extend_from_slice(b"0 0\n255\n");
    assert_eq!(img.encode_ppm(), expected);
}
