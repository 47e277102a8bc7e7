//! Normalising a decoded JPEG raster into the pixel layout of the drawing
//! surface: one 32-bit `xRGB` word per pixel.

use vstd::prelude::*;

verus! {

/// The pixel layouts a JPEG decodes to.
#[derive(Clone, Copy, Debug, PartialEq, Eq, Structural)]
pub enum PixelFormat {
    /// Luminance, 8 bits.
    L8,
    /// Red, green, blue, 8 bits each.
    RGB24,
    /// Cyan, magenta, yellow, black, 8 bits each.
    CMYK32,
}

/// The pixel layouts of a drawing surface.
#[derive(Clone, Copy, Debug, PartialEq, Eq, Structural)]
pub enum SurfaceFormat {
    /// Alpha and colour in one 32-bit word.
    ARgb32,
    /// Colour in the low 24 bits of a 32-bit word.
    Rgb24,
    /// Alpha alone, 8 bits.
    A8,
}

/// Why a raster could not be normalised.
#[derive(Clone, Copy, Debug, PartialEq, Eq, Structural)]
pub enum RasterError {
    /// The bytes decode as no supported JPEG.
    NotJpeg,
    /// CMYK JPEGs are not supported.
    Cmyk,
    /// The decoded pixel layout cannot be converted.
    UnsupportedPixelFormat(PixelFormat),
    /// The surface layout cannot be converted to.
    UnsupportedSurfaceFormat(SurfaceFormat),
    /// No row stride exists for the width.
    NoStride,
    /// The pixel data does not hold `width * height` pixels.
    SizeMismatch,
    /// The two layouts cannot be converted into one another.
    UnsupportedPair(PixelFormat, SurfaceFormat),
}

/// A raster in the layout of a drawing surface.
#[derive(Clone, Debug)]
pub struct Raster {
    pub width: usize,
    pub height: usize,
    /// Bytes from one row to the next.
    pub stride: usize,
    pub format: SurfaceFormat,
    /// One word per pixel, row after row.
    pub words: Vec<u32>,
}

/// The first row width for which a 32-bit-per-pixel surface has no stride.
pub const MAX_WIDTH: usize = 67_108_863;

/// The bytes of one decoded pixel.
pub open spec fn pixel_bytes(f: PixelFormat) -> Option<int> {
    match f {
        PixelFormat::RGB24 => Some(3),
        PixelFormat::L8 => Some(1),
        PixelFormat::CMYK32 => None,
    }
}

/// The surface layout a decoded layout is drawn in.
pub open spec fn surface_for(f: PixelFormat) -> Result<SurfaceFormat, RasterError> {
    match f {
        PixelFormat::L8 => Ok(SurfaceFormat::A8),
        PixelFormat::RGB24 => Ok(SurfaceFormat::Rgb24),
        PixelFormat::CMYK32 => Err(RasterError::Cmyk),
    }
}

/// The `xRGB` word of one pixel.
pub open spec fn rgb_word(r: u8, g: u8, b: u8) -> u32 {
    (r as int * 0x10000 + g as int * 0x100 + b as int) as u32
}

/// The words of RGB pixel data, three bytes a pixel.
pub open spec fn rgb_words(data: Seq<u8>, n: int) -> Seq<u32> {
    Seq::new(n as nat, |i: int| rgb_word(data[3 * i], data[3 * i + 1], data[3 * i + 2]))
}

/// What converting `data` of `width` by `height` pixels from `old` to
/// `new` gives: the row stride and the words.
pub open spec fn converted(
    data: Seq<u8>,
    width: int,
    height: int,
    old: PixelFormat,
    new: SurfaceFormat,
) -> Result<(int, Seq<u32>), RasterError> {
    if pixel_bytes(old) is None {
        Err(RasterError::UnsupportedPixelFormat(old))
    } else if new != SurfaceFormat::Rgb24 {
        Err(RasterError::UnsupportedSurfaceFormat(new))
    } else if width >= MAX_WIDTH {
        Err(RasterError::NoStride)
    } else if data.len() != pixel_bytes(old).unwrap() * width * height {
        Err(RasterError::SizeMismatch)
    } else if old != PixelFormat::RGB24 {
        Err(RasterError::UnsupportedPair(old, new))
    } else {
        Ok((4 * width, rgb_words(data, width * height)))
    }
}

/// The surface layout a decoded layout is drawn in: grey as alpha, RGB as
/// RGB; CMYK is not supported.
pub fn surface_format_for(f: PixelFormat) -> (r: Result<SurfaceFormat, RasterError>)
    ensures
        r == surface_for(f),
{
    match f {
        PixelFormat::L8 => Ok(SurfaceFormat::A8),
        PixelFormat::RGB24 => Ok(SurfaceFormat::Rgb24),
        PixelFormat::CMYK32 => Err(RasterError::Cmyk),
    }
}

/// Converts decoded JPEG pixels into surface words. Only RGB to `Rgb24` is
/// supported; its rows are `4 * width` bytes apart.
pub fn jpeg_to_cairo(
    old_data: &Vec<u8>,
    width: usize,
    height: usize,
    old_format: PixelFormat,
    new_format: SurfaceFormat,
) -> (r: Result<(usize, Vec<u32>), RasterError>)
    ensures
        match (r, converted(old_data@, width as int, height as int, old_format, new_format)) {
            (Ok((s, w)), Ok((x, y))) => s == x && w@ == y,
            (Err(e), Err(x)) => e == x,
            _ => false,
        },
{
    let old_pixel_size: usize = match old_format {
        PixelFormat::RGB24 => 3,
        PixelFormat::L8 => 1,
        other => return Err(RasterError::UnsupportedPixelFormat(other)),
    };
    match new_format {
        SurfaceFormat::Rgb24 => {},
        other => return Err(RasterError::UnsupportedSurfaceFormat(other)),
    }
    if width >= MAX_WIDTH {
        return Err(RasterError::NoStride);
    }
    let new_stride = 4 * width;
    let len = old_data.len();
    proof {
        assert(old_pixel_size * width * height >= width * height) by (nonlinear_arith)
            requires
                old_pixel_size >= 1,
                width * height >= 0,
        ;
        assert(old_pixel_size * width * height == (width * height) * old_pixel_size)
            by (nonlinear_arith);
    }
    let pixels = match width.checked_mul(height) {
        Some(p) => p,
        None => return Err(RasterError::SizeMismatch),
    };
    let expected = match pixels.checked_mul(old_pixel_size) {
        Some(e) => e,
        None => return Err(RasterError::SizeMismatch),
    };
    if len != expected {
        return Err(RasterError::SizeMismatch);
    }
    match old_format {
        PixelFormat::RGB24 => {},
        other => return Err(RasterError::UnsupportedPair(other, new_format)),
    }
    let mut words: Vec<u32> = Vec::new();
    let mut i: usize = 0;
    while i < pixels
        invariant
            old_data@.len() == 3 * pixels,
            len == old_data@.len(),
            i <= pixels,
            words@ == rgb_words(old_data@, i as int),
        decreases pixels - i,
    {
        assert(3 * i + 2 < len);
        let r = old_data[3 * i];
        let g = old_data[3 * i + 1];
        let b = old_data[3 * i + 2];
        let word: u32 = (r as u32) * 0x10000 + (g as u32) * 0x100 + b as u32;
        words.push(word);
        i = i + 1;
        assert(words@ =~= rgb_words(old_data@, i as int));
    }
    Ok((new_stride, words))
}

/// What JPEG decoding gives for some bytes: the pixels, the width, the
/// height and their layout; none when the bytes are no JPEG it can decode.
pub uninterp spec fn jpeg_decoding(data: Seq<u8>) -> Option<(Seq<u8>, u16, u16, PixelFormat)>;

/// Relies on jpeg_decoder::Decoder::decode and Decoder::info: the pixels
/// and the header fields that decoding gives depend on the bytes alone.
#[verifier::external_body]
fn decode_jpeg(data: &Vec<u8>) -> (r: Option<(Vec<u8>, u16, u16, PixelFormat)>)
    ensures
        match (r, jpeg_decoding(data@)) {
            (Some(x), Some(y)) => x.0@ == y.0 && x.1 == y.1 && x.2 == y.2 && x.3 == y.3,
            (None, None) => true,
            _ => false,
        },
{
    let mut decoder = jpeg_decoder::Decoder::new(data.as_slice());
    let pixels = decoder.decode().ok()?;
    let info = decoder.info()?;
    let format = match info.pixel_format {
        jpeg_decoder::PixelFormat::L8 => PixelFormat::L8,
        jpeg_decoder::PixelFormat::RGB24 => PixelFormat::RGB24,
        jpeg_decoder::PixelFormat::CMYK32 => PixelFormat::CMYK32,
    };
    Some((pixels, info.width, info.height, format))
}

/// What normalising a JPEG gives: its decoding, converted to the surface
/// layout it is drawn in.
pub open spec fn raster_of(data: Seq<u8>) -> Result<
    (int, int, SurfaceFormat, int, Seq<u32>),
    RasterError,
> {
    match jpeg_decoding(data) {
        None => Err(RasterError::NotJpeg),
        Some((pixels, w, h, f)) => match surface_for(f) {
            Err(e) => Err(e),
            Ok(s) => match converted(pixels, w as int, h as int, f, s) {
                Err(e) => Err(e),
                Ok((stride, words)) => Ok((w as int, h as int, s, stride, words)),
            },
        },
    }
}

/// Decodes a JPEG and normalises its pixels into a surface raster.
pub fn raster_from_jpeg(data: &Vec<u8>) -> (r: Result<Raster, RasterError>)
    ensures
        match (r, raster_of(data@)) {
            (Ok(x), Ok(y)) => x.width == y.0 && x.height == y.1 && x.format == y.2 && x.stride
                == y.3 && x.words@ == y.4,
            (Err(e), Err(x)) => e == x,
            _ => false,
        },
{
    let (pixels, width, height, pixel_format) = match decode_jpeg(data) {
        Some(d) => d,
        None => return Err(RasterError::NotJpeg),
    };
    let format = match surface_format_for(pixel_format) {
        Ok(f) => f,
        Err(e) => return Err(e),
    };
    match jpeg_to_cairo(&pixels, width as usize, height as usize, pixel_format, format) {
        Ok((stride, words)) => Ok(Raster { width: width as usize, height: height as usize, stride, format, words }),
        Err(e) => Err(e),
    }
}

} // verus!
