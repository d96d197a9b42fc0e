use raytracer::decimal::{push_decimal, push_signed};
use raytracer::ppm::{encode_image, header, pixel_record, push_record, Rgb};

fn rgb(r: i32, g: i32, b: i32) -> Rgb {
    Rgb { r, g, b }
}

#[test]
fn decimal_of_small_and_large_numbers() {
    let mut s = String::new();
    push_decimal(&mut s, 0);
    assert_eq!(s, "0");
    let mut s = String::from("x=");
    push_decimal(&mut s, 10);
    assert_eq!(s, "x=10");
    let mut s = String::new();
    push_decimal(&mut s, 1234567890);
    assert_eq!(s, "1234567890");
    let mut s = String::new();
    push_decimal(&mut s, u64::MAX);
    assert_eq!(s, "18446744073709551615");
}

#[test]
fn signed_decimal_has_minus_only_when_negative() {
    let mut s = String::new();
    push_signed(&mut s, -5);
    assert_eq!(s, "-5");
    let mut s = String::new();
    push_signed(&mut s, 42);
    assert_eq!(s, "42");
    let mut s = String::new();
    push_signed(&mut s, i64::MIN);
    assert_eq!(s, "-9223372036854775808");
    let mut s = String::new();
    push_signed(&mut s, i64::MAX);
    assert_eq!(s, "9223372036854775807");
}

#[test]
fn black_pixel_record() {
    assert_eq!(pixel_record(rgb(0, 0, 0)), "0 0 0\n");
}

#[test]
fn unclamped_white_pixel_record() {
    assert_eq!(pixel_record(rgb(256, 256, 256)), "256 256 256\n");
}

#[test]
fn record_keeps_channel_order_and_sign() {
    assert_eq!(pixel_record(rgb(-1, 128, 255)), "-1 128 255\n");
    assert_eq!(pixel_record(rgb(i32::MIN, 0, i32::MAX)), "-2147483648 0 2147483647\n");
}

#[test]
fn push_record_appends() {
    let mut s = String::from("P3\n1 1\n255\n");
    push_record(&mut s, rgb(1, 2, 3));
    assert_eq!(s, "P3\n1 1\n255\n1 2 3\n");
}

#[test]
fn header_of_default_image() {
    assert_eq!(header(400, 225), "P3\n400 225\n255\n");
    assert_eq!(header(0, 0), "P3\n0 0\n255\n");
}

#[test]
fn small_image_text() {
    let pixels = vec![rgb(0, 0, 0), rgb(256, 180, 128)];
    let text = encode_image(2, 1, &pixels).unwrap();
    assert_eq!(text, "P3\n2 1\n255\n0 0 0\n256 180 128\n");
}

#[test]
fn empty_image_is_header_only() {
    let pixels: Vec<Rgb> = Vec::new();
    assert_eq!(encode_image(0, 7, &pixels).unwrap(), "P3\n0 7\n255\n");
}

#[test]
fn wrong_pixel_count_is_refused() {
    let pixels = vec![rgb(1, 1, 1); 5];
    assert!(encode_image(2, 3, &pixels).is_none());
    assert!(encode_image(3, 1, &pixels).is_none());
    assert!(encode_image(u64::MAX, 2, &pixels).is_none());
}

#[test]
fn default_image_has_header_and_one_line_per_pixel() {
    let pixels = vec![rgb(128, 179, 256); 400 * 225];
    let text = encode_image(400, 225, &pixels).unwrap();
    assert!(text.starts_with("P3\n400 225\n255\n"));
    assert_eq!(text.matches('\n').count(), 3 + 90000);
    assert_eq!(text.lines().skip(3).count(), 90000);
    assert!(text.lines().skip(3).all(|l| l == "128 179 256"));
}
