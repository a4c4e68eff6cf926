//! Decoded raster images and the decoders that produce them.
use crate::text::{ends_with, has_suffix};
use image::codecs::jpeg::JpegDecoder;
use image::codecs::png::PngDecoder;
use image::ImageDecoder;
use std::io::Cursor;
use vstd::endian::{endianness, Endian};
use vstd::prelude::*;

verus! {

/// Why a byte stream did not yield an image.
#[derive(Clone, Copy, Debug, PartialEq, Eq, Structural)]
pub enum DecodeError {
    /// The decoder refused the stream: unknown signature, truncated or
    /// otherwise damaged data.
    Malformed,
    /// The decoder's pixel buffer does not have the length that its declared
    /// dimensions call for.
    SizeMismatch,
}

/// The container formats that the loader decodes.
#[derive(Clone, Copy, Debug, PartialEq, Eq, Structural)]
pub enum ImageFormat {
    Png,
    Jpeg,
}

/// A decoded image: dimensions, bytes per pixel, and the pixels as one flat
/// buffer, row after row.
#[derive(Clone, Debug)]
pub struct TextureImage2D {
    pub width: u32,
    pub height: u32,
    pub bytes_per_pixel: u32,
    pub data: Vec<u8>,
}

/// An image as a plain value.
pub struct ImageView {
    pub width: u32,
    pub height: u32,
    pub bytes_per_pixel: u32,
    pub pixels: Seq<u8>,
}

impl View for TextureImage2D {
    type V = ImageView;

    open spec fn view(&self) -> ImageView {
        ImageView {
            width: self.width,
            height: self.height,
            bytes_per_pixel: self.bytes_per_pixel,
            pixels: self.data@,
        }
    }
}

/// The buffer length that the given dimensions call for.
pub open spec fn pixel_buffer_len(width: u32, height: u32, bytes_per_pixel: u32) -> int {
    width * height * bytes_per_pixel
}

/// The pixel buffer is exactly as long as the dimensions call for.
pub open spec fn fits(image: ImageView) -> bool {
    image.pixels.len() == pixel_buffer_len(image.width, image.height, image.bytes_per_pixel)
}

impl TextureImage2D {
    /// The pixel buffer.
    pub open spec fn pixels(&self) -> Seq<u8> {
        self.data@
    }

    /// The pixel buffer is exactly as long as the dimensions call for.
    pub open spec fn well_formed(&self) -> bool {
        fits(self@)
    }

    /// An image of the given dimensions over the given pixel buffer.
    pub fn new(width: u32, height: u32, bytes_per_pixel: u32, data: Vec<u8>) -> (r: Self)
        ensures
            r.width == width,
            r.height == height,
            r.bytes_per_pixel == bytes_per_pixel,
            r.pixels() == data@,
    {
        Self { width, height, bytes_per_pixel, data }
    }

    /// The pixel buffer.
    #[inline]
    pub fn as_slice(&self) -> (r: &[u8])
        ensures
            r@ == self.pixels(),
    {
        self.data.as_slice()
    }

    /// Whether the pixel buffer has the length that the dimensions call for.
    pub fn is_well_formed(&self) -> (r: bool)
        ensures
            r == self.well_formed(),
    {
        let width: u128 = self.width as u128;
        let height: u128 = self.height as u128;
        let depth: u128 = self.bytes_per_pixel as u128;
        assert(width * height <= 0xffff_ffff * 0xffff_ffff) by (nonlinear_arith)
            requires
                width <= 0xffff_ffff,
                height <= 0xffff_ffff,
        ;
        let area: u128 = width * height;
        assert(area * depth <= 0xffff_ffff * 0xffff_ffff * 0xffff_ffff) by (nonlinear_arith)
            requires
                area <= 0xffff_ffff * 0xffff_ffff,
                depth <= 0xffff_ffff,
        ;
        let expected: u128 = area * depth;
        self.data.len() as u128 == expected
    }
}

/// The format that an archive entry is decoded as: PNG where its name ends
/// in `.png`, JPEG otherwise.
pub open spec fn format_of(name: Seq<char>) -> ImageFormat {
    if has_suffix(name, ".png"@) {
        ImageFormat::Png
    } else {
        ImageFormat::Jpeg
    }
}

/// What the loader makes of a decoder's outcome: a refused stream is
/// `Malformed`, a buffer of the wrong length is `SizeMismatch`, and any other
/// image is passed on as it is.
pub open spec fn checked_image(decoded: Option<TextureImage2D>) -> Result<
    TextureImage2D,
    DecodeError,
> {
    match decoded {
        None => Err(DecodeError::Malformed),
        Some(image) => if image.well_formed() {
            Ok(image)
        } else {
            Err(DecodeError::SizeMismatch)
        },
    }
}

/// Picks the decoder for an archive entry by its name.
pub fn select_format(name: &str) -> (r: ImageFormat)
    ensures
        r == format_of(name@),
{
    if ends_with(name, ".png") {
        ImageFormat::Png
    } else {
        ImageFormat::Jpeg
    }
}

/// Accepts a decoder's outcome only where the pixel buffer fits the declared
/// dimensions.
pub fn check_decoded(decoded: Option<TextureImage2D>) -> (r: Result<TextureImage2D, DecodeError>)
    ensures
        r == checked_image(decoded),
{
    match decoded {
        None => Err(DecodeError::Malformed),
        Some(image) => {
            if image.is_well_formed() {
                Ok(image)
            } else {
                Err(DecodeError::SizeMismatch)
            }
        },
    }
}

/// A decoder's outcome as a plain value.
pub open spec fn decoded_view(decoded: Option<TextureImage2D>) -> Option<ImageView> {
    match decoded {
        Some(image) => Some(image@),
        None => None,
    }
}

/// A decoding result as a plain value.
pub open spec fn result_view(r: Result<TextureImage2D, DecodeError>) -> Result<
    ImageView,
    DecodeError,
> {
    match r {
        Ok(image) => Ok(image@),
        Err(error) => Err(error),
    }
}

/// What decoding comes to for a decoder's outcome: a refused stream is
/// `Malformed`, a pixel buffer of another length than the product of the
/// dimensions is `SizeMismatch`, and any other image is the result.
pub open spec fn checked_view(decoded: Option<ImageView>) -> Result<ImageView, DecodeError> {
    match decoded {
        None => Err(DecodeError::Malformed),
        Some(image) => if fits(image) {
            Ok(image)
        } else {
            Err(DecodeError::SizeMismatch)
        },
    }
}

/// What `image::codecs::png::PngDecoder` makes of a stream on a machine
/// whose addresses are `word_bits` wide and whose byte order is big-endian
/// or not: the image, or `None` where it refuses the stream or cannot
/// address as many bytes as the image has.
pub uninterp spec fn png_image(bytes: Seq<u8>, word_bits: nat, big_endian: bool) -> Option<
    ImageView,
>;

/// What decoding a PNG stream comes to on the machine that runs the code.
pub open spec fn png_decoding(bytes: Seq<u8>) -> Result<ImageView, DecodeError> {
    checked_view(png_image(bytes, usize::BITS as nat, endianness() == Endian::Big))
}

/// Decodes a PNG stream held in memory.
///
/// The stream decodes exactly where the decoder accepts it and its pixel
/// buffer has the length that its dimensions call for; the result is then
/// the decoder's image.
pub fn from_buffer(buffer: &[u8]) -> (r: Result<TextureImage2D, DecodeError>)
    ensures
        result_view(r) == png_decoding(buffer@),
        r matches Ok(image) ==> image.well_formed(),
{
    check_decoded(decode_png(buffer))
}

/// Decodes a JPEG stream held in memory.
///
/// Which streams decode, and to what, is the decoder's matter; every image
/// that comes back has a pixel buffer that fits its dimensions.
pub fn from_jpeg_buffer(buffer: &[u8]) -> (r: Result<TextureImage2D, DecodeError>)
    ensures
        r matches Ok(image) ==> image.well_formed(),
{
    check_decoded(decode_jpeg(buffer))
}

/// Decodes a stream in the given format: a PNG stream as [`from_buffer`]
/// does, a JPEG stream as [`from_jpeg_buffer`] does.
pub fn decode(format: ImageFormat, buffer: &[u8]) -> (r: Result<TextureImage2D, DecodeError>)
    ensures
        format == ImageFormat::Png ==> result_view(r) == png_decoding(buffer@),
        r matches Ok(image) ==> image.well_formed(),
{
    match format {
        ImageFormat::Png => from_buffer(buffer),
        ImageFormat::Jpeg => from_jpeg_buffer(buffer),
    }
}

/// Calls `image::codecs::png::PngDecoder`: opens the stream, asks for the
/// dimensions, the bytes per pixel and the total byte count, and reads the
/// image into a zeroed buffer of that size. `None` stands for every refusal
/// of the decoder, and for a byte count that no buffer can have.
///
/// Claimed is that the outcome is a function of the stream and of two
/// things of the machine: the width of its addresses, by which the decoder
/// bounds its buffers, and its byte order, in which samples wider than a
/// byte come back.
#[verifier::external_body]
fn decode_png(buffer: &[u8]) -> (r: Option<TextureImage2D>)
    ensures
        decoded_view(r) == png_image(buffer@, usize::BITS as nat, endianness() == Endian::Big),
{
    let decoder = PngDecoder::new(Cursor::new(buffer)).ok()?;
    let (width, height) = decoder.dimensions();
    let bytes_per_pixel = u32::from(decoder.color_type().bytes_per_pixel());
    let size = usize::try_from(isize::try_from(decoder.total_bytes()).ok()?).ok()?;
    let mut data = vec![0u8; size];
    decoder.read_image(&mut data).ok()?;
    Some(TextureImage2D { width, height, bytes_per_pixel, data })
}

/// Calls `image::codecs::jpeg::JpegDecoder`: opens the stream, asks for the
/// dimensions, the bytes per pixel and the total byte count, and reads the
/// image into a buffer of that size. `None` stands for every refusal of the
/// decoder, and for a byte count that cannot be allocated.
///
/// Nothing is claimed of the outcome: the decoder starts worker threads and
/// refuses a stream where the process cannot start one, so not even its
/// verdict is a function of the stream.
#[verifier::external_body]
fn decode_jpeg(buffer: &[u8]) -> (r: Option<TextureImage2D>) {
    let decoder = JpegDecoder::new(Cursor::new(buffer)).ok()?;
    let (width, height) = decoder.dimensions();
    let bytes_per_pixel = u32::from(decoder.color_type().bytes_per_pixel());
    let size = usize::try_from(decoder.total_bytes()).ok()?;
    let mut data = Vec::new();
    data.try_reserve_exact(size).ok()?;
    data.resize(size, 0u8);
    decoder.read_image(&mut data).ok()?;
    Some(TextureImage2D { width, height, bytes_per_pixel, data })
}

} // verus!
