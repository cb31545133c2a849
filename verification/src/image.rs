//! Decoded pixel data: rows of 8-bit RGBA texels, top row first.

use vstd::prelude::*;

verus! {

/// The error type of the `image` crate's decoders.
#[verifier::external_type_specification]
#[verifier::external_body]
pub struct ExImageError(::image::ImageError);

/// What the `image` crate makes of `bytes` read as a PNG file and converted
/// to 8-bit RGBA: the width, the height and the texel bytes, or `None` where
/// its decoder rejects the bytes.
pub uninterp spec fn png_rgba8(bytes: Seq<u8>) -> Option<(u32, u32, Seq<u8>)>;

/// Calls `image::load_from_memory_with_format` for the PNG format and
/// converts the outcome with `DynamicImage::to_rgba8`. Nothing is proved of
/// the decoder: the contract only names its result, [`png_rgba8`], and says
/// that an error comes exactly where that is `None`.
#[verifier::external_body]
fn decode_png(bytes: &[u8]) -> (r: Result<(u32, u32, Vec<u8>), ::image::ImageError>)
    ensures
        match r {
            Ok((width, height, texels)) => png_rgba8(bytes@) == Some((width, height, texels@)),
            Err(_) => png_rgba8(bytes@) is None,
        },
{
    let decoded = ::image::load_from_memory_with_format(bytes, ::image::ImageFormat::Png)?;
    let rgba = decoded.to_rgba8();
    Ok((rgba.width(), rgba.height(), rgba.into_raw()))
}

/// Why no image could be made.
#[derive(Clone, Copy, Debug, PartialEq, Eq, Structural)]
pub enum PixelError {
    /// The bytes are not a PNG file that the decoder accepts.
    Decode,
    /// The number of texel bytes is not four times width times height.
    Size,
}

/// The number of bytes that `width` by `height` RGBA texels take.
pub open spec fn texel_bytes(width: u32, height: u32) -> int {
    4 * width * height
}

/// The image that `width`, `height` and `texels` describe, if they fit
/// together.
pub open spec fn assembled(width: u32, height: u32, texels: Seq<u8>) -> Result<
    (u32, u32, Seq<u8>),
    PixelError,
> {
    if texels.len() == texel_bytes(width, height) {
        Ok((width, height, texels))
    } else {
        Err(PixelError::Size)
    }
}

/// The image that the decoder's outcome `decoded` gives.
pub open spec fn loaded(decoded: Option<(u32, u32, Seq<u8>)>) -> Result<
    (u32, u32, Seq<u8>),
    PixelError,
> {
    match decoded {
        Some((width, height, texels)) => assembled(width, height, texels),
        None => Err(PixelError::Decode),
    }
}

/// An image in memory: `height` rows of `width` texels of four bytes each.
pub struct Image {
    width: u32,
    height: u32,
    texels: Vec<u8>,
}

impl Image {
    /// The width, the height and the texel bytes.
    pub closed spec fn view(&self) -> (u32, u32, Seq<u8>) {
        (self.width, self.height, self.texels@)
    }

    /// The invariant: the texel bytes are as many as the size asks for.
    pub open spec fn wf(&self) -> bool {
        self@.2.len() == texel_bytes(self@.0, self@.1)
    }

    /// Makes an image of texel bytes, which must be four for each texel.
    pub fn from_rgba8(width: u32, height: u32, texels: Vec<u8>) -> (r: Result<Image, PixelError>)
        ensures
            r matches Ok(image) ==> image.wf(),
            (match r {
                Ok(image) => Ok(image@),
                Err(e) => Err(e),
            }) == assembled(width, height, texels@),
    {
        assert(4 * width * height <= 4 * 0xffff_ffff * 0xffff_ffff) by (nonlinear_arith)
            requires
                width <= 0xffff_ffff,
                height <= 0xffff_ffff,
        ;
        let need: u128 = 4 * (width as u128) * (height as u128);
        if texels.len() as u128 == need {
            Ok(Image { width, height, texels })
        } else {
            Err(PixelError::Size)
        }
    }

    /// Decodes a PNG file into an image.
    pub fn from_png(bytes: &[u8]) -> (r: Result<Image, PixelError>)
        ensures
            r matches Ok(image) ==> image.wf(),
            (match r {
                Ok(image) => Ok(image@),
                Err(e) => Err(e),
            }) == loaded(png_rgba8(bytes@)),
    {
        match decode_png(bytes) {
            Ok((width, height, texels)) => Image::from_rgba8(width, height, texels),
            Err(_) => Err(PixelError::Decode),
        }
    }

    /// The width in texels.
    pub fn width(&self) -> (r: u32)
        ensures
            r == self@.0,
    {
        self.width
    }

    /// The height in texels.
    pub fn height(&self) -> (r: u32)
        ensures
            r == self@.1,
    {
        self.height
    }

    /// The texel bytes, row by row.
    pub fn as_slice(&self) -> (r: &[u8])
        ensures
            r@ == self@.2,
    {
        self.texels.as_slice()
    }
}

} // verus!
