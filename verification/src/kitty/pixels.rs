//! The pixels of an image, and the two layouts in which they are sent.

use vstd::prelude::*;

use crate::kitty::format::ImageDimensions;
use crate::kitty::format::PixelFormat;

verus! {

/// Pixels without an alpha channel: one sample for each gray pixel, three for each colour pixel,
/// of eight or sixteen bits.
#[derive(Debug)]
pub enum OpaquePixels {
    Luma8(Vec<u8>),
    Rgb8(Vec<u8>),
    Luma16(Vec<u16>),
    Rgb16(Vec<u16>),
}

/// Pixels with an alpha channel: two samples for each gray pixel, four for each colour pixel, of
/// eight or sixteen bits.
#[derive(Debug)]
pub enum AlphaPixels {
    LumaA8(Vec<u8>),
    Rgba8(Vec<u8>),
    LumaA16(Vec<u16>),
    Rgba16(Vec<u16>),
}

/// The pixels of an image.
#[derive(Debug)]
pub enum Pixels {
    Opaque(OpaquePixels),
    Alpha(AlphaPixels),
}

/// A sample of sixteen bits, scaled to eight and rounded.
pub open spec fn eight_bits(v: u16) -> u8 {
    ((v + 128) / 257) as u8
}

/// Samples of sixteen bits, each scaled to eight.
pub open spec fn all_eight_bits(s: Seq<u16>) -> Seq<u8> {
    s.map_values(|v: u16| eight_bits(v))
}

/// Gray pixels as colour pixels: each sample three times.
pub open spec fn gray_as_rgb(s: Seq<u8>) -> Seq<u8> {
    Seq::new(3 * s.len(), |i: int| s[i / 3])
}

/// Gray pixels with alpha as colour pixels with alpha: each gray sample three times, then its
/// alpha.
pub open spec fn gray_alpha_as_rgba(s: Seq<u8>) -> Seq<u8> {
    Seq::new(
        2 * s.len(),
        |i: int|
            if i % 4 == 3 {
                s[i / 4 * 2 + 1]
            } else {
                s[i / 4 * 2]
            },
    )
}

impl OpaquePixels {
    /// Whether there are as many samples as an image of this size has, and the size is one that
    /// memory can hold with three bytes for each pixel.
    pub open spec fn fits(self, width: u32, height: u32) -> bool {
        &&& 3 * width <= usize::MAX
        &&& 3 * (width * height) <= isize::MAX
        &&& match self {
            OpaquePixels::Luma8(d) => d@.len() == width * height,
            OpaquePixels::Rgb8(d) => d@.len() == 3 * (width * height),
            OpaquePixels::Luma16(d) => d@.len() == width * height,
            OpaquePixels::Rgb16(d) => d@.len() == 3 * (width * height),
        }
    }

    /// The pixels with three samples of eight bits each.
    pub open spec fn rgb8(self) -> Seq<u8> {
        match self {
            OpaquePixels::Luma8(d) => gray_as_rgb(d@),
            OpaquePixels::Rgb8(d) => d@,
            OpaquePixels::Luma16(d) => gray_as_rgb(all_eight_bits(d@)),
            OpaquePixels::Rgb16(d) => all_eight_bits(d@),
        }
    }
}

impl AlphaPixels {
    /// Whether there are as many samples as an image of this size has, and the size is one that
    /// memory can hold with four bytes for each pixel.
    pub open spec fn fits(self, width: u32, height: u32) -> bool {
        &&& 4 * width <= usize::MAX
        &&& 4 * (width * height) <= isize::MAX
        &&& match self {
            AlphaPixels::LumaA8(d) => d@.len() == 2 * (width * height),
            AlphaPixels::Rgba8(d) => d@.len() == 4 * (width * height),
            AlphaPixels::LumaA16(d) => d@.len() == 2 * (width * height),
            AlphaPixels::Rgba16(d) => d@.len() == 4 * (width * height),
        }
    }

    /// The pixels with four samples of eight bits each.
    pub open spec fn rgba8(self) -> Seq<u8> {
        match self {
            AlphaPixels::LumaA8(d) => gray_alpha_as_rgba(d@),
            AlphaPixels::Rgba8(d) => d@,
            AlphaPixels::LumaA16(d) => gray_alpha_as_rgba(all_eight_bits(d@)),
            AlphaPixels::Rgba16(d) => all_eight_bits(d@),
        }
    }
}

impl Pixels {
    /// Whether there are as many samples as an image of this size has, and the size is one that
    /// memory can hold.
    pub open spec fn fits(self, width: u32, height: u32) -> bool {
        match self {
            Pixels::Opaque(p) => p.fits(width, height),
            Pixels::Alpha(p) => p.fits(width, height),
        }
    }
}

/// `image::DynamicImage::into_rgb8`, on a buffer that `image::ImageBuffer::from_raw` makes of the
/// samples. A buffer that is RGB already is given back as it is; samples of sixteen bits are
/// scaled by `(v + 128) / 257`. Gray samples go through `f32`, scaled to the unit interval and
/// back to eight bits with rounding, which gives the same: a sample of eight bits comes back
/// unchanged, and for sixteen bits no value lies near enough to the middle of two for the error
/// of the arithmetic to matter. Each gray sample is then given three times.
#[verifier::external_body]
fn into_rgb8(pixels: OpaquePixels, width: u32, height: u32) -> (r: Vec<u8>)
    requires
        pixels.fits(width, height),
    ensures
        r@ == pixels.rgb8(),
{
    let (w, h) = (width, height);
    let image = match pixels {
        OpaquePixels::Luma8(d) => {
            image::DynamicImage::from(image::GrayImage::from_raw(w, h, d).unwrap())
        },
        OpaquePixels::Rgb8(d) => image::RgbImage::from_raw(w, h, d).unwrap().into(),
        OpaquePixels::Luma16(d) => {
            image::ImageBuffer::<image::Luma<u16>, _>::from_raw(w, h, d).unwrap().into()
        },
        OpaquePixels::Rgb16(d) => {
            image::ImageBuffer::<image::Rgb<u16>, _>::from_raw(w, h, d).unwrap().into()
        },
    };
    image.into_rgb8().into_vec()
}

/// `image::DynamicImage::into_rgba8`, on a buffer that `image::ImageBuffer::from_raw` makes of the
/// samples. A buffer that is RGBA already is given back as it is; samples of sixteen bits are
/// scaled by `(v + 128) / 257`. Gray samples and their alpha go through `f32`, as they do in
/// `image::DynamicImage::into_rgb8`, and come out the same; each gray sample is given three
/// times, and its alpha behind it.
#[verifier::external_body]
fn into_rgba8(pixels: AlphaPixels, width: u32, height: u32) -> (r: Vec<u8>)
    requires
        pixels.fits(width, height),
    ensures
        r@ == pixels.rgba8(),
{
    let (w, h) = (width, height);
    let image = match pixels {
        AlphaPixels::LumaA8(d) => {
            image::DynamicImage::from(image::GrayAlphaImage::from_raw(w, h, d).unwrap())
        },
        AlphaPixels::Rgba8(d) => image::RgbaImage::from_raw(w, h, d).unwrap().into(),
        AlphaPixels::LumaA16(d) => {
            image::ImageBuffer::<image::LumaA<u16>, _>::from_raw(w, h, d).unwrap().into()
        },
        AlphaPixels::Rgba16(d) => {
            image::ImageBuffer::<image::Rgba<u16>, _>::from_raw(w, h, d).unwrap().into()
        },
    };
    image.into_rgba8().into_vec()
}

/// An image: its size in pixels, and as many samples as that size asks for.
#[derive(Debug)]
pub struct DynamicImage {
    width: u32,
    height: u32,
    pixels: Pixels,
}

impl DynamicImage {
    #[verifier::type_invariant]
    spec fn fits(self) -> bool {
        self.pixels.fits(self.width, self.height)
    }

    /// The width in pixels.
    pub closed spec fn spec_width(self) -> u32 {
        self.width
    }

    /// The height in pixels.
    pub closed spec fn spec_height(self) -> u32 {
        self.height
    }

    /// The pixels.
    pub closed spec fn spec_pixels(self) -> Pixels {
        self.pixels
    }

    /// The image with this size and these pixels; nothing where the number of samples is not
    /// that of the size, or the converted image would be too large for memory.
    pub fn new(width: u32, height: u32, pixels: Pixels) -> (r: Option<DynamicImage>)
        ensures
            match r {
                Some(image) => pixels.fits(width, height) && image.spec_width() == width
                    && image.spec_height() == height && image.spec_pixels() == pixels,
                None => !pixels.fits(width, height),
            },
    {
        proof {
            assert(width * height <= u32::MAX * u32::MAX) by (nonlinear_arith)
                requires
                    0 <= width <= u32::MAX,
                    0 <= height <= u32::MAX,
            ;
            assert(0 <= width * height) by (nonlinear_arith)
                requires
                    0 <= width,
                    0 <= height,
            ;
        }
        let count: u128 = width as u128 * height as u128;
        let (len, samples, bytes): (usize, u128, u128) = match &pixels {
            Pixels::Opaque(OpaquePixels::Luma8(d)) => (d.len(), 1, 3),
            Pixels::Opaque(OpaquePixels::Rgb8(d)) => (d.len(), 3, 3),
            Pixels::Opaque(OpaquePixels::Luma16(d)) => (d.len(), 1, 3),
            Pixels::Opaque(OpaquePixels::Rgb16(d)) => (d.len(), 3, 3),
            Pixels::Alpha(AlphaPixels::LumaA8(d)) => (d.len(), 2, 4),
            Pixels::Alpha(AlphaPixels::Rgba8(d)) => (d.len(), 4, 4),
            Pixels::Alpha(AlphaPixels::LumaA16(d)) => (d.len(), 2, 4),
            Pixels::Alpha(AlphaPixels::Rgba16(d)) => (d.len(), 4, 4),
        };
        proof {
            assert(samples * count <= 4 * count) by (nonlinear_arith)
                requires
                    samples <= 4,
                    0 <= count,
            ;
            assert(bytes * count <= 4 * count) by (nonlinear_arith)
                requires
                    bytes <= 4,
                    0 <= count,
            ;
            assert(bytes * width <= 4 * width) by (nonlinear_arith)
                requires
                    bytes <= 4,
                    0 <= width,
            ;
        }
        let row: u128 = bytes * width as u128;
        if len as u128 == samples * count && row <= usize::MAX as u128 && bytes * count
            <= isize::MAX as u128 {
            Some(DynamicImage { width, height, pixels })
        } else {
            None
        }
    }

    /// The format in which the image is sent: with alpha where it has alpha.
    pub open spec fn spec_format(self) -> PixelFormat {
        let dimensions = ImageDimensions { width: self.spec_width(), height: self.spec_height() };
        match self.spec_pixels() {
            Pixels::Opaque(_) => PixelFormat::Rgb24(dimensions),
            Pixels::Alpha(_) => PixelFormat::Rgba32(dimensions),
        }
    }

    /// The bytes in which the image is sent.
    pub open spec fn spec_data(self) -> Seq<u8> {
        match self.spec_pixels() {
            Pixels::Opaque(p) => p.rgb8(),
            Pixels::Alpha(p) => p.rgba8(),
        }
    }

    /// How many bytes the image is sent in.
    pub fn data_len(&self) -> (r: usize)
        ensures
            r == self.spec_data().len(),
    {
        proof {
            use_type_invariant(&*self);
            lemma_data_len(*self);
            assert(0 <= self.width * self.height) by (nonlinear_arith)
                requires
                    0 <= self.width,
                    0 <= self.height,
            ;
        }
        let count: usize = self.width as usize * self.height as usize;
        match self.pixels {
            Pixels::Opaque(_) => 3 * count,
            Pixels::Alpha(_) => 4 * count,
        }
    }

    /// The format and the bytes in which the image is sent.
    pub fn into_format_and_data(self) -> (r: (PixelFormat, Vec<u8>))
        ensures
            r.0 == self.spec_format(),
            r.1@ == self.spec_data(),
    {
        proof {
            use_type_invariant(&self);
        }
        let dimensions = ImageDimensions { width: self.width, height: self.height };
        match self.pixels {
            Pixels::Opaque(p) => (
                PixelFormat::Rgb24(dimensions),
                into_rgb8(p, self.width, self.height),
            ),
            Pixels::Alpha(p) => (
                PixelFormat::Rgba32(dimensions),
                into_rgba8(p, self.width, self.height),
            ),
        }
    }
}

/// The bytes that are sent are three for each pixel without alpha, and four with it.
pub proof fn lemma_data_len(image: DynamicImage)
    requires
        image.spec_pixels().fits(image.spec_width(), image.spec_height()),
    ensures
        image.spec_data().len() == (match image.spec_pixels() {
            Pixels::Opaque(_) => 3 * (image.spec_width() * image.spec_height()),
            Pixels::Alpha(_) => 4 * (image.spec_width() * image.spec_height()),
        }),
{
}

/// A gray pixel becomes a pixel with that gray in all three colours, at the same place, and keeps
/// its alpha where it has one.
pub proof fn lemma_gray_pixels(s: Seq<u8>, i: int, k: int)
    requires
        0 <= i,
        0 <= k < 3,
    ensures
        i < s.len() ==> gray_as_rgb(s)[3 * i + k] == s[i],
        2 * i + 1 < s.len() ==> gray_alpha_as_rgba(s)[4 * i + k] == s[2 * i]
            && gray_alpha_as_rgba(s)[4 * i + 3] == s[2 * i + 1],
{
    assert((3 * i + k) / 3 == i);
    assert((4 * i + k) / 4 == i && (4 * i + k) % 4 == k);
    assert((4 * i + 3) / 4 == i && (4 * i + 3) % 4 == 3);
}

/// A sample of eight bits that was widened to sixteen comes back as it was, and samples keep their
/// order.
pub proof fn lemma_eight_bits(v: u8, a: u16, b: u16)
    ensures
        eight_bits((v * 257) as u16) == v,
        a <= b ==> eight_bits(a) <= eight_bits(b),
        -128 <= eight_bits(a) * 257 - a <= 128,
{
}

} // verus!
