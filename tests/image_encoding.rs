use ray_tracing::ppm::{encode, push_decimal, write_header, write_pixel, write_pixels, EncodeError, Pixel};

fn text(bytes: &[u8]) -> String {
    String::from_utf8(bytes.to_vec()).unwrap()
}

fn px(red: u8, green: u8, blue: u8) -> Pixel {
    Pixel { red, green, blue }
}

#[test]
fn decimal_of_single_digits_and_edges() {
    for (n, expected) in [(0u32, "0"), (7, "7"), (10, "10"), (255, "255"), (4294967295, "4294967295")] {
        let mut out = Vec::new();
        push_decimal(&mut out, n);
        assert_eq!(text(&out), expected);
    }
}

#[test]
fn decimal_appends_after_existing_bytes() {
    let mut out = b"x=".to_vec();
    push_decimal(&mut out, 1200);
    assert_eq!(text(&out), "x=1200");
}

#[test]
fn header_of_wide_image() {
    let mut out = Vec::new();
    write_header(&mut out, 400, 225);
    assert_eq!(text(&out), "P3\n400 225\n255\n");
}

#[test]
fn header_of_empty_image() {
    let mut out = Vec::new();
    write_header(&mut out, 0, 0);
    assert_eq!(text(&out), "P3\n0 0\n255\n");
}

#[test]
fn pixel_line_holds_three_channels() {
    let mut out = Vec::new();
    write_pixel(&mut out, px(0, 128, 255));
    assert_eq!(text(&out), "0 128 255\n");
}

#[test]
fn pixel_lines_keep_order() {
    let mut out = Vec::new();
    write_pixels(&mut out, &vec![px(1, 2, 3), px(255, 255, 255), px(0, 0, 0)]);
    assert_eq!(text(&out), "1 2 3\n255 255 255\n0 0 0\n");
}

#[test]
fn encode_small_image() {
    let pixels = vec![px(255, 0, 0), px(0, 255, 0), px(0, 0, 255), px(9, 99, 199)];
    let bytes = encode(2, 2, &pixels).unwrap();
    assert_eq!(text(&bytes), "P3\n2 2\n255\n255 0 0\n0 255 0\n0 0 255\n9 99 199\n");
}

#[test]
fn encode_rejects_too_few_pixels() {
    let pixels = vec![px(1, 1, 1); 3];
    assert_eq!(encode(2, 2, &pixels), Err(EncodeError::PixelCount));
}

#[test]
fn encode_rejects_too_many_pixels() {
    let pixels = vec![px(1, 1, 1); 5];
    assert_eq!(encode(2, 2, &pixels), Err(EncodeError::PixelCount));
}

#[test]
fn encode_empty_image() {
    let bytes = encode(0, 5, &Vec::new()).unwrap();
    assert_eq!(text(&bytes), "P3\n0 5\n255\n");
}

#[test]
fn encode_full_size_image_layout() {
    let width: u32 = 400;
    let height: u32 = 225;
    let pixels: Vec<Pixel> = (0..width * height)
        .map(|k| px((k % 256) as u8, (k / 7 % 256) as u8, (255 - k % 256) as u8))
        .collect();
    let bytes = encode(width, height, &pixels).unwrap();
    let s = text(&bytes);
    assert!(s.starts_with("P3\n400 225\n255\n"));
    let lines: Vec<&str> = s.lines().collect();
    assert_eq!(lines.len(), 3 + 225 * 400);
    for (k, line) in lines[3..].iter().enumerate() {
        let values: Vec<u32> = line.split(' ').map(|v| v.parse().unwrap()).collect();
        assert_eq!(values.len(), 3);
        assert!(values.iter().all(|&v| v <= 255));
        let p = pixels[k];
        assert_eq!(values, vec![p.red as u32, p.green as u32, p.blue as u32]);
    }
}

#[test]
fn encode_is_deterministic() {
    let pixels: Vec<Pixel> = (0..60u32).map(|k| px(k as u8, (k * 3) as u8, (k * 5) as u8)).collect();
    let first = encode(10, 6, &pixels).unwrap();
    let second = encode(10, 6, &pixels).unwrap();
    assert_eq!(first, second);
}
