use image::codecs::jpeg::JpegEncoder;
use image::codecs::png::PngEncoder;
use image::ColorType;
use model_loader::texture::{
    check_decoded, decode, from_buffer, from_jpeg_buffer, select_format, DecodeError, ImageFormat,
    TextureImage2D,
};

fn png_of(width: u32, height: u32, pixels: &[u8], color: ColorType) -> Vec<u8> {
    let mut out = Vec::new();
    PngEncoder::new(&mut out).encode(pixels, width, height, color).unwrap();
    out
}

fn jpeg_of(width: u32, height: u32, pixels: &[u8]) -> Vec<u8> {
    let mut out = Vec::new();
    JpegEncoder::new(&mut out).encode(pixels, width, height, ColorType::Rgb8).unwrap();
    out
}

#[test]
fn new_keeps_what_it_is_given() {
    let image = TextureImage2D::new(2, 1, 3, vec![1, 2, 3, 4, 5, 6]);
    assert_eq!(image.width, 2);
    assert_eq!(image.height, 1);
    assert_eq!(image.bytes_per_pixel, 3);
    assert_eq!(image.as_slice(), &[1, 2, 3, 4, 5, 6]);
    assert!(image.is_well_formed());
}

#[test]
fn well_formedness_is_the_product_of_the_dimensions() {
    assert!(TextureImage2D::new(0, 5, 4, vec![]).is_well_formed());
    assert!(TextureImage2D::new(3, 2, 4, vec![0; 24]).is_well_formed());
    assert!(!TextureImage2D::new(3, 2, 4, vec![0; 23]).is_well_formed());
    assert!(!TextureImage2D::new(3, 2, 4, vec![0; 25]).is_well_formed());
    assert!(!TextureImage2D::new(u32::MAX, u32::MAX, u32::MAX, vec![0; 1]).is_well_formed());
}

#[test]
fn png_decodes_to_its_pixels() {
    let pixels: Vec<u8> = vec![255, 0, 0, 0, 255, 0, 0, 0, 255, 10, 20, 30];
    let image = from_buffer(&png_of(2, 2, &pixels, ColorType::Rgb8)).unwrap();
    assert_eq!((image.width, image.height, image.bytes_per_pixel), (2, 2, 3));
    assert_eq!(image.as_slice(), pixels.as_slice());
    assert!(image.is_well_formed());
}

#[test]
fn png_with_alpha_has_four_bytes_per_pixel() {
    let pixels: Vec<u8> = vec![1, 2, 3, 4, 5, 6, 7, 8];
    let image = from_buffer(&png_of(1, 2, &pixels, ColorType::Rgba8)).unwrap();
    assert_eq!((image.width, image.height, image.bytes_per_pixel), (1, 2, 4));
    assert_eq!(image.as_slice(), pixels.as_slice());
}

#[test]
fn png_with_wide_samples_has_two_bytes_per_sample() {
    let pixels: Vec<u8> = vec![0x12, 0x34, 0x56, 0x78, 0x9a, 0xbc];
    let image = from_buffer(&png_of(3, 1, &pixels, ColorType::L16)).unwrap();
    assert_eq!((image.width, image.height, image.bytes_per_pixel), (3, 1, 2));
    assert_eq!(image.as_slice().len(), 6);
    assert!(image.is_well_formed());
}

#[test]
fn png_without_pixels_is_malformed() {
    let whole = png_of(64, 64, &[7; 64 * 64 * 3], ColorType::Rgb8);
    let header_only = &whole[..33];
    assert_eq!(from_buffer(header_only).unwrap_err(), DecodeError::Malformed);
    assert_eq!(decode(ImageFormat::Png, header_only).unwrap_err(), DecodeError::Malformed);
}

#[test]
fn truncated_png_is_malformed() {
    let whole = png_of(2, 2, &[0; 12], ColorType::Rgb8);
    let cut = &whole[..whole.len() / 2];
    assert_eq!(from_buffer(cut).unwrap_err(), DecodeError::Malformed);
}

#[test]
fn unknown_signature_is_malformed() {
    assert_eq!(from_buffer(b"not an image").unwrap_err(), DecodeError::Malformed);
    assert_eq!(from_buffer(&[]).unwrap_err(), DecodeError::Malformed);
    assert_eq!(from_jpeg_buffer(b"not an image").unwrap_err(), DecodeError::Malformed);
}

#[test]
fn jpeg_decodes_to_its_dimensions() {
    let image = from_jpeg_buffer(&jpeg_of(8, 4, &[128; 96])).unwrap();
    assert_eq!((image.width, image.height, image.bytes_per_pixel), (8, 4, 3));
    assert_eq!(image.as_slice().len(), 96);
    assert!(image.is_well_formed());
}

#[test]
fn a_png_is_no_jpeg() {
    let png = png_of(1, 1, &[1, 2, 3], ColorType::Rgb8);
    assert_eq!(from_jpeg_buffer(&png).unwrap_err(), DecodeError::Malformed);
    assert_eq!(decode(ImageFormat::Jpeg, &png).unwrap_err(), DecodeError::Malformed);
    assert!(decode(ImageFormat::Png, &png).is_ok());
}

#[test]
fn format_goes_by_the_suffix() {
    assert_eq!(select_format("diffuse.png"), ImageFormat::Png);
    assert_eq!(select_format("diffuse.jpg"), ImageFormat::Jpeg);
    assert_eq!(select_format("diffuse.jpeg"), ImageFormat::Jpeg);
    assert_eq!(select_format("diffuse"), ImageFormat::Jpeg);
    assert_eq!(select_format("diffuse.PNG"), ImageFormat::Jpeg);
    assert_eq!(select_format("png"), ImageFormat::Jpeg);
}

#[test]
fn check_decoded_passes_a_fitting_image_on() {
    let checked = check_decoded(Some(TextureImage2D::new(2, 2, 1, vec![9, 8, 7, 6]))).unwrap();
    assert_eq!((checked.width, checked.height, checked.bytes_per_pixel), (2, 2, 1));
    assert_eq!(checked.as_slice(), &[9, 8, 7, 6]);
}

#[test]
fn check_decoded_refuses_a_wrong_length() {
    let short = TextureImage2D::new(2, 2, 1, vec![9, 8, 7]);
    assert_eq!(check_decoded(Some(short)).unwrap_err(), DecodeError::SizeMismatch);
}

#[test]
fn check_decoded_refuses_a_missing_image() {
    assert_eq!(check_decoded(None).unwrap_err(), DecodeError::Malformed);
}
