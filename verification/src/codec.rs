//! The PNG encoder, as far as this crate relies on it.
//!
//! Nothing in this file is proved. It states what the rest of the crate
//! assumes of the `png` crate: that what the encoder makes of an image,
//! a stream or a refusal, is determined by the image's dimensions and pixel
//! data, and that it refuses data of the wrong length.

use png::HasParameters;
use vstd::prelude::*;

verus! {

/// The error type of the `png` encoder.
#[verifier::external_type_specification]
#[verifier::external_body]
pub struct ExEncodingError(png::EncodingError);

/// What the `png` encoder makes of an image of `width` by `height` RGB
/// pixels of eight bits a channel, with `data` holding the scanlines from top
/// to bottom, under the encoder's default compression and filter: the byte
/// stream that it writes, or `None` where it refuses the image.
pub uninterp spec fn png_rgb8(width: u32, height: u32, data: Seq<u8>) -> Option<Seq<u8>>;

/// Runs `png::Encoder` on an in-memory buffer: `Encoder::new`, colour type
/// RGB and bit depth eight, `write_header`, then `Writer::write_image_data`,
/// and the end chunk that the writer adds when it is dropped.
///
/// Assumed: the outcome is `png_rgb8` of the arguments, a stream that comes
/// back being its value and an error its `None`; and data whose length is not
/// three bytes for each of `width * height` pixels is refused. Nothing is
/// assumed of when the encoder succeeds. The encoder multiplies `width` by 24
/// and the row length by `height` in `usize`, and splits the data into rows
/// of `3 * width` bytes, so the preconditions keep those products in range
/// and the rows non-empty.
#[verifier::external_body]
pub(crate) fn encode_rgb8(
    width: u32,
    height: u32,
    data: &Vec<u8>,
) -> (r: Result<Vec<u8>, png::EncodingError>)
    requires
        width >= 1,
        24 * width <= usize::MAX,
        3 * width * height <= usize::MAX,
    ensures
        r matches Ok(bytes) ==> png_rgb8(width, height, data@) == Some(bytes@),
        r is Err ==> png_rgb8(width, height, data@) is None,
        data@.len() != 3 * width * height ==> r is Err,
{
    let mut bytes = Vec::new();
    {
        let mut encoder = png::Encoder::new(&mut bytes, width, height);
        encoder.set(png::ColorType::RGB).set(png::BitDepth::Eight);
        let mut writer = encoder.write_header()?;
        writer.write_image_data(data)?;
    }
    Ok(bytes)
}

} // verus!
