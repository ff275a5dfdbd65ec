use raytrace::ppm::{encode_image, pixel_line, ppm_header, push_decimal, push_pixel, Rgb8};
use raytrace::settings::RenderSettings;

#[test]
fn header_of_small_image() {
    assert_eq!(ppm_header(2, 2), b"P3\n2 2\n255\n".to_vec());
    assert_eq!(ppm_header(200, 112), b"P3\n200 112\n255\n".to_vec());
}

#[test]
fn decimal_digits() {
    let mut out = b"x".to_vec();
    push_decimal(&mut out, 0);
    push_decimal(&mut out, 9);
    push_decimal(&mut out, 10);
    push_decimal(&mut out, 18446744073709551615);
    assert_eq!(out, b"x091018446744073709551615".to_vec());
}

#[test]
fn pixel_lines() {
    assert_eq!(pixel_line(255, 0, 17), b"255 0 17\n".to_vec());
    let mut out = Vec::new();
    push_pixel(&mut out, 1, 2, 3);
    push_pixel(&mut out, 191, 216, 255);
    assert_eq!(out, b"1 2 3\n191 216 255\n".to_vec());
}

#[test]
fn whole_image() {
    let s = RenderSettings::new(2, 2, 1, 1).unwrap();
    let sky = Rgb8 { r: 191, g: 216, b: 255 };
    let ball = Rgb8 { r: 128, g: 0, b: 64 };
    let out = encode_image(&s, &vec![sky, ball, ball, sky]);
    let text = String::from_utf8(out).unwrap();
    assert_eq!(
        text,
        "P3\n2 2\n255\n191 216 255\n128 0 64\n128 0 64\n191 216 255\n"
    );
}
