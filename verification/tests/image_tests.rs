use rust_riff::error::CodecError;
use rust_riff::image::{Image, Pixel};

fn px(r: u8, g: u8, b: u8) -> Pixel {
    Pixel { r, g, b, a: 255 }
}

fn six() -> Vec<Pixel> {
    vec![px(0, 0, 0), px(1, 1, 1), px(2, 2, 2), px(3, 3, 3), px(4, 4, 4), px(5, 5, 5)]
}

#[test]
fn image_new_needs_width_times_height_pixels() {
    assert!(Image::new(3, 2, six()).is_some());
    assert!(Image::new(2, 3, six()).is_some());
    assert!(Image::new(6, 1, six()).is_some());
    assert!(Image::new(1, 6, six()).is_some());
    assert!(Image::new(3, 3, six()).is_none());
    assert!(Image::new(2, 2, six()).is_none());
    assert!(Image::new(0, 0, six()).is_none());
    assert!(Image::new(0, 0, vec![]).is_some());
    assert!(Image::new(0, 7, vec![]).is_some());
    assert!(Image::new(1, 1, vec![]).is_none());
    assert!(Image::new(u32::MAX, u32::MAX, six()).is_none());
    assert!(Image::new(65_536, 65_536, vec![]).is_none());
}

#[test]
fn image_keeps_its_dimensions_and_pixels() {
    let image = Image::new(3, 2, six()).unwrap();
    assert_eq!(image.width(), 3);
    assert_eq!(image.height(), 2);
    assert_eq!(image.pixels(), &six());
}

#[test]
fn image_pixel_reads_row_major() {
    let image = Image::new(3, 2, six()).unwrap();
    assert_eq!(image.pixel(0, 0), Some(px(0, 0, 0)));
    assert_eq!(image.pixel(2, 0), Some(px(2, 2, 2)));
    assert_eq!(image.pixel(0, 1), Some(px(3, 3, 3)));
    assert_eq!(image.pixel(2, 1), Some(px(5, 5, 5)));
    assert_eq!(image.pixel(3, 0), None);
    assert_eq!(image.pixel(0, 2), None);
    assert_eq!(image.pixel(u32::MAX, u32::MAX), None);
    let tall = Image::new(2, 3, six()).unwrap();
    assert_eq!(tall.pixel(1, 0), Some(px(1, 1, 1)));
    assert_eq!(tall.pixel(0, 1), Some(px(2, 2, 2)));
    assert_eq!(tall.pixel(1, 2), Some(px(5, 5, 5)));
}

#[test]
fn image_position_is_index_mod_width_and_index_div_width() {
    let image = Image::new(3, 2, six()).unwrap();
    assert_eq!(image.position(0), Some((0, 0)));
    assert_eq!(image.position(1), Some((1, 0)));
    assert_eq!(image.position(2), Some((2, 0)));
    assert_eq!(image.position(3), Some((0, 1)));
    assert_eq!(image.position(4), Some((1, 1)));
    assert_eq!(image.position(5), Some((2, 1)));
    assert_eq!(image.position(6), None);
    assert_eq!(image.position(usize::MAX), None);
    assert_eq!(Image::new(0, 0, vec![]).unwrap().position(0), None);
}

#[test]
fn image_position_and_pixel_agree() {
    let image = Image::new(2, 3, six()).unwrap();
    for index in 0..6usize {
        let (x, y) = image.position(index).unwrap();
        assert_eq!(image.pixel(x, y), Some(image.pixels()[index]));
    }
}

#[test]
fn error_messages_name_the_stage() {
    assert_eq!(CodecError::ImageReadError.message(), "Rust RIFF error: Couldn't read the PNG!");
    assert_eq!(
        CodecError::ContainerWriteError.message(),
        "Rust RIFF error: Couldn't write to the Rust RIFF file!"
    );
    assert_eq!(
        CodecError::ContainerReadError.message(),
        "Rust RIFF error: Couldn't find the Rust RIFF file!"
    );
    assert_eq!(
        CodecError::EncodingError.message(),
        "Rust RIFF error: An invalid UTF-8 sequence was found in the Rust RIFF file!"
    );
    assert_eq!(
        CodecError::TokenLengthError.message(),
        "Rust RIFF error: The Rust RIFF file doesn't hold one six-digit color for each pixel!"
    );
    assert_eq!(
        CodecError::ColorParseError.message(),
        "Rust RIFF error: Couldn't convert hex color to RGB color!"
    );
    assert_eq!(
        CodecError::HeaderError.message(),
        "Rust RIFF error: The Rust RIFF file is shorter than its header!"
    );
}
