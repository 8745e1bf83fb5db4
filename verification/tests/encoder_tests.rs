use rust_riff::encoder::{encode, LINE_FEED};
use rust_riff::image::{Image, Pixel};

fn px(r: u8, g: u8, b: u8) -> Pixel {
    Pixel { r, g, b, a: 255 }
}

fn expected(width: u32, height: u32, text: &str) -> Vec<u8> {
    let mut bytes = Vec::new();
    bytes.extend_from_slice(&width.to_ne_bytes());
    bytes.extend_from_slice(&height.to_ne_bytes());
    bytes.extend_from_slice(text.as_bytes());
    bytes
}

#[test]
fn encode_two_by_one_example() {
    let image = Image::new(2, 1, vec![px(0, 0, 0), px(255, 255, 255)]).unwrap();
    assert_eq!(encode(&image), expected(2, 1, "000000ffffff"));
}

#[test]
fn encode_three_by_two_has_one_line_feed_between_the_rows() {
    let pixels = vec![px(1, 1, 1), px(2, 2, 2), px(3, 3, 3), px(4, 4, 4), px(5, 5, 5), px(6, 6, 6)];
    let image = Image::new(3, 2, pixels).unwrap();
    let bytes = encode(&image);
    let text = &bytes[8..];
    assert_eq!(text.iter().filter(|&&c| c == b'\n').count(), 1);
    let at = text.iter().position(|&c| c == b'\n').unwrap();
    assert_eq!(at, 18);
    assert_eq!(text.len(), 37);
    assert_eq!(&text[..at], b"010101020202030303");
    assert_eq!(&text[at + 1..], b"040404050505060606");
    assert_eq!(bytes, expected(3, 2, "010101020202030303\n040404050505060606"));
}

#[test]
fn encode_has_no_line_feed_at_either_end() {
    let image = Image::new(1, 3, vec![px(170, 170, 170), px(187, 187, 187), px(204, 204, 204)])
        .unwrap();
    let bytes = encode(&image);
    assert_eq!(bytes, expected(1, 3, "aaaaaa\nbbbbbb\ncccccc"));
    assert_ne!(bytes[8], LINE_FEED);
    assert_ne!(*bytes.last().unwrap(), LINE_FEED);
}

#[test]
fn encode_two_by_two() {
    let image = Image::new(2, 2, vec![px(255, 0, 0), px(0, 255, 0), px(0, 0, 255), px(18, 52, 86)])
        .unwrap();
    assert_eq!(encode(&image), expected(2, 2, "ff000000ff00\n0000ff123456"));
}

#[test]
fn encode_does_not_store_alpha() {
    let clear = Image::new(1, 1, vec![Pixel { r: 10, g: 20, b: 30, a: 0 }]).unwrap();
    let solid = Image::new(1, 1, vec![Pixel { r: 10, g: 20, b: 30, a: 255 }]).unwrap();
    assert_eq!(encode(&clear), encode(&solid));
    assert_eq!(encode(&clear), expected(1, 1, "0a141e"));
}

#[test]
fn encode_image_without_pixels_is_only_the_header() {
    assert_eq!(encode(&Image::new(0, 0, vec![]).unwrap()), expected(0, 0, ""));
    assert_eq!(encode(&Image::new(0, 5, vec![]).unwrap()), expected(0, 5, ""));
    assert_eq!(encode(&Image::new(5, 0, vec![]).unwrap()), expected(5, 0, ""));
}

#[test]
fn encode_length_is_header_tokens_and_separators() {
    let width = 7u32;
    let height = 5u32;
    let pixels: Vec<Pixel> = (0..35u8).map(|i| px(i, i.wrapping_mul(3), 255 - i)).collect();
    let bytes = encode(&Image::new(width, height, pixels).unwrap());
    assert_eq!(bytes.len(), 8 + 6 * 35 + 4);
    let lines: Vec<&[u8]> = bytes[8..].split(|&c| c == b'\n').collect();
    assert_eq!(lines.len(), 5);
    assert!(lines.iter().all(|line| line.len() == 42));
}
