//! WebP images: decoding the icons and encoding the archive of what was printed.
//! The codec itself is the `image-webp` crate.

use vstd::prelude::*;
use crate::canvas::BLANK;

verus! {

/// Largest width and height of an image that can be encoded.
pub const MAX_DIMENSION: u32 = 16384;

/// Luminance of a pixel of the archive that nothing was drawn on.
pub const WHITE: u8 = 255;

/// Luminance of a pixel of the archive that was drawn on.
pub const BLACK: u8 = 0;

/// A decoded image: its measures, whether it has an alpha channel, and its
/// pixels row by row, four bytes each with an alpha channel and three without.
#[derive(Debug)]
pub struct DecodedImage {
    pub width: u32,
    pub height: u32,
    pub has_alpha: bool,
    pub data: Vec<u8>,
}

/// Bytes of one pixel of a decoded image.
pub open spec fn bytes_per_pixel(has_alpha: bool) -> nat {
    if has_alpha {
        4
    } else {
        3
    }
}

impl DecodedImage {
    /// The image as plain values: width, height, alpha channel, pixels.
    pub open spec fn parts(&self) -> (u32, u32, bool, Seq<u8>) {
        (self.width, self.height, self.has_alpha, self.data@)
    }

    /// The image holds all its pixels.
    pub open spec fn complete(&self) -> bool {
        self.data@.len() == self.width * self.height * bytes_per_pixel(self.has_alpha)
    }
}

/// What the bytes of a WebP file decode to, as width, height, alpha channel and
/// pixels; nothing for bytes that are no WebP image.
pub uninterp spec fn webp_decoding(file: Seq<u8>) -> Option<(u32, u32, bool, Seq<u8>)>;

/// Whether an image of these measures can be encoded: neither is zero and
/// neither is above 16384.
pub open spec fn encodable_measures(width: u32, height: u32) -> bool {
    1 <= width <= MAX_DIMENSION && 1 <= height <= MAX_DIMENSION
}

/// The WebP file that holds a greyscale image, one byte for each pixel.
pub uninterp spec fn webp_encoding(luma: Seq<u8>, width: u32, height: u32) -> Option<Seq<u8>>;

/// Decodes a WebP file with `image_webp::WebPDecoder`: `new` on the bytes, then
/// `dimensions`, `has_alpha` and `read_image` into a buffer of
/// `output_buffer_size` bytes. The result is the decoding of the bytes, and a
/// decoded image holds all its pixels, since `read_image` takes no buffer of
/// another length.
#[verifier::external_body]
pub(crate) fn decode_webp(file: &[u8]) -> (image: Option<DecodedImage>)
    ensures
        image is Some <==> webp_decoding(file@) is Some,
        image is Some ==> image->Some_0.parts() == webp_decoding(file@)->Some_0
            && image->Some_0.complete(),
{
    let mut decoder = image_webp::WebPDecoder::new(std::io::Cursor::new(file)).ok()?;
    let (width, height) = decoder.dimensions();
    let has_alpha = decoder.has_alpha();
    let mut data = vec![0u8; decoder.output_buffer_size()?];
    decoder.read_image(&mut data).ok()?;
    Some(DecodedImage { width, height, has_alpha, data })
}

/// Encodes a greyscale image with `image_webp::WebPEncoder`: `new` on an empty
/// buffer, then `encode` with `ColorType::L8`. The result is the encoding of the
/// pixels and measures. There is one exactly when the measures can be encoded:
/// the encoder returns an error for a measure of zero or above 16384, and
/// otherwise only where its writer fails, which a buffer in memory does not. The
/// encoder panics on pixels that are not `width * height` many, which the
/// precondition rules out.
#[verifier::external_body]
pub(crate) fn encode_webp_luma(luma: &[u8], width: u32, height: u32) -> (file: Option<Vec<u8>>)
    requires
        luma@.len() == width * height,
    ensures
        file is Some <==> webp_encoding(luma@, width, height) is Some,
        file is Some <==> encodable_measures(width, height),
        file is Some ==> file->Some_0@ == webp_encoding(luma@, width, height)->Some_0,
{
    let mut file = Vec::new();
    image_webp::WebPEncoder::new(&mut file)
        .encode(luma, width, height, image_webp::ColorType::L8)
        .ok()?;
    Some(file)
}

/// The luminance that a pixel of the canvas is archived with: white for a blank
/// pixel, black for any other.
pub open spec fn luminance(pixel: u32) -> u8 {
    if pixel == BLANK {
        WHITE
    } else {
        BLACK
    }
}

/// The greyscale image of a canvas.
pub open spec fn luminances(pixels: Seq<u32>) -> Seq<u8> {
    pixels.map_values(|pixel: u32| luminance(pixel))
}

/// The greyscale image of a canvas: white where it is blank, black elsewhere.
pub fn to_luminance(pixels: &[u32]) -> (luma: Vec<u8>)
    ensures
        luma@ == luminances(pixels@),
{
    let mut luma: Vec<u8> = Vec::with_capacity(pixels.len());
    let mut i: usize = 0;
    while i < pixels.len()
        invariant
            i <= pixels.len(),
            luma@ == luminances(pixels@.subrange(0, i as int)),
        decreases pixels.len() - i,
    {
        let value: u8 = if pixels[i] == BLANK {
            WHITE
        } else {
            BLACK
        };
        luma.push(value);
        proof {
            assert(luma@ =~= luminances(pixels@.subrange(0, i + 1)));
        }
        i += 1;
    }
    proof {
        assert(pixels@.subrange(0, pixels.len() as int) =~= pixels@);
    }
    luma
}

/// Whether a printed canvas can be archived: its pixels are `width * height`
/// many and its measures can be encoded.
pub open spec fn archivable(pixels: Seq<u32>, width: u32, height: u32) -> bool {
    pixels.len() == width * height && encodable_measures(width, height)
}

/// What a printed canvas is archived as: the WebP file of its greyscale image,
/// or nothing when it cannot be archived.
pub open spec fn archive_of(pixels: Seq<u32>, width: u32, height: u32) -> Option<Seq<u8>> {
    if archivable(pixels, width, height) {
        webp_encoding(luminances(pixels), width, height)
    } else {
        None
    }
}

/// The file that a printed canvas is archived as. There is one exactly when the
/// pixels are `width * height` many and neither measure is zero or above 16384.
pub fn archive_image(pixels: &[u32], width: u32, height: u32) -> (file: Option<Vec<u8>>)
    ensures
        file is Some <==> archivable(pixels@, width, height),
        file is Some ==> archive_of(pixels@, width, height) == Some(file->Some_0@),
{
    proof {
        assert(width * height <= 0xFFFF_FFFF * 0xFFFF_FFFF) by (nonlinear_arith)
            requires
                0 <= width <= 0xFFFF_FFFF,
                0 <= height <= 0xFFFF_FFFF,
        ;
    }
    if pixels.len() as u64 != width as u64 * height as u64 {
        return None;
    }
    let luma = to_luminance(pixels);
    encode_webp_luma(luma.as_slice(), width, height)
}

} // verus!
