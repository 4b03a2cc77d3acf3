use raytracer::ppm::{encode_image, pixel_line, ppm_header};

#[test]
fn header_lines() {
    assert_eq!(ppm_header(1200, 800), b"P3\n1200 800\n255\n".to_vec());
    assert_eq!(ppm_header(0, 7), b"P3\n0 7\n255\n".to_vec());
}

#[test]
fn pixel_line_digits() {
    assert_eq!(pixel_line((0, 9, 10)), b"0 9 10\n".to_vec());
    assert_eq!(pixel_line((255, 128, 7)), b"255 128 7\n".to_vec());
}

#[test]
fn image_written_from_top_row() {
    // 2 by 2; keys: (0,0)=0 (1,0)=1 bottom row, (0,1)=2 (1,1)=3 top row
    let pixels = vec![(1, 1, 1), (2, 2, 2), (3, 3, 3), (4, 4, 4)];
    let out = encode_image(2, 2, &pixels);
    assert_eq!(
        String::from_utf8(out).unwrap(),
        "P3\n2 2\n255\n3 3 3\n4 4 4\n1 1 1\n2 2 2\n"
    );
}

#[test]
fn empty_image_is_header_only() {
    let out = encode_image(0, 0, &Vec::new());
    assert_eq!(out, b"P3\n0 0\n255\n".to_vec());
}

#[test]
fn single_row_left_to_right() {
    let pixels = vec![(10, 20, 30), (40, 50, 60), (70, 80, 90)];
    let out = encode_image(3, 1, &pixels);
    assert_eq!(
        String::from_utf8(out).unwrap(),
        "P3\n3 1\n255\n10 20 30\n40 50 60\n70 80 90\n"
    );
}
