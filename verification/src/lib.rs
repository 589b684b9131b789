//! Capture pixel data from the current OpenGL framebuffer into host memory.
//!
//! The library models the capture pipeline: a closed set of pixel layouts
//! ([`CaptureFormat`]), packed pixel types ([`Rgb`], [`Rgba`], [`Bgr`],
//! [`Bgra`]), a generic image buffer ([`ImageData`]), and the vertical flip
//! that turns the hardware's bottom-up row order into a top-down image.
//! Issuing the actual driver readback requires a current rendering context
//! and is left to the caller.

use vstd::prelude::*;

pub mod image;
pub mod pixel;

pub use crate::image::{flip_index, flipped, lemma_flip_index_involution, lemma_flip_involution};
pub use crate::image::{lemma_resize_round_trip, pixel_count, resized};
pub use crate::image::{AllocationError, ImageData};
pub use crate::pixel::{Bgr, Bgra, Pixel, Rgb, Rgba};

verus! {

/// Same as `ImageData<Rgba>`.
pub type RgbaImageData = ImageData<Rgba>;

/// Same as `ImageData<Rgb>`.
pub type RgbImageData = ImageData<Rgb>;

/// Same as `ImageData<Bgra>`.
pub type BgraImageData = ImageData<Bgra>;

/// Same as `ImageData<Bgr>`.
pub type BgrImageData = ImageData<Bgr>;

/// A supported pixel layout: channel order and channel count.
#[derive(PartialEq, Eq, Clone, Copy, Debug)]
pub enum CaptureFormat {
    Rgba,
    Rgb,
    Bgra,
    Bgr,
}

impl CaptureFormat {
    /// Number of color channels in this layout.
    pub open spec fn spec_channel_count(self) -> nat {
        match self {
            CaptureFormat::Rgba | CaptureFormat::Bgra => 4,
            CaptureFormat::Rgb | CaptureFormat::Bgr => 3,
        }
    }

    pub fn channel_count(self) -> (n: usize)
        ensures
            n == self.spec_channel_count(),
    {
        match self {
            CaptureFormat::Rgba | CaptureFormat::Bgra => 4,
            CaptureFormat::Rgb | CaptureFormat::Bgr => 3,
        }
    }

    /// Byte footprint of one pixel of this layout: the channels are single
    /// bytes, tightly packed, so it equals the channel count.
    pub open spec fn spec_pixel_size(self) -> nat {
        match self {
            CaptureFormat::Rgba | CaptureFormat::Bgra => 4,
            CaptureFormat::Rgb | CaptureFormat::Bgr => 3,
        }
    }

    pub fn pixel_size(self) -> (n: usize)
        ensures
            n == self.spec_pixel_size(),
    {
        match self {
            CaptureFormat::Rgba | CaptureFormat::Bgra => 4,
            CaptureFormat::Rgb | CaptureFormat::Bgr => 3,
        }
    }

    /// The driver's numeric code for this layout.
    pub open spec fn spec_gl_format(self) -> u32 {
        match self {
            CaptureFormat::Rgba => 0x1908,
            CaptureFormat::Rgb => 0x1907,
            CaptureFormat::Bgra => 0x80E1,
            CaptureFormat::Bgr => 0x80E0,
        }
    }

    /// Relies on the `gl` crate's format constants: `gl::RGBA` is `0x1908`,
    /// `gl::RGB` `0x1907`, `gl::BGRA` `0x80E1` and `gl::BGR` `0x80E0`, the
    /// values the Khronos registry fixes for them.
    #[verifier::external_body]
    pub fn to_gl_format(self) -> (code: gl::types::GLenum)
        ensures
            code == self.spec_gl_format(),
    {
        match self {
            CaptureFormat::Rgba => gl::RGBA,
            CaptureFormat::Rgb => gl::RGB,
            CaptureFormat::Bgra => gl::BGRA,
            CaptureFormat::Bgr => gl::BGR,
        }
    }

    /// A zero-filled byte buffer big enough for a raw `size.0 x size.1`
    /// readback in this layout.
    pub fn allocate_pixel_data(self, size: (u32, u32)) -> (data: Vec<u8>)
        requires
            pixel_count(size) * self.spec_channel_count() <= usize::MAX,
        ensures
            data@.len() == pixel_count(size) * self.spec_channel_count(),
            forall|i: int| 0 <= i < data@.len() ==> data@[i] == 0u8,
    {
        proof {
            assert(pixel_count(size) <= pixel_count(size) * self.spec_channel_count())
                by (nonlinear_arith)
                requires
                    self.spec_channel_count() >= 1,
            ;
            assert((pixel_count(size) * self.spec_channel_count()) as int == (pixel_count(
                size,
            ) as int) * (self.spec_channel_count() as int));
        }
        let n = (size.0 as usize) * (size.1 as usize) * self.channel_count();
        let mut data: Vec<u8> = Vec::with_capacity(n);
        let mut i: usize = 0;
        while i < n
            invariant
                i <= n,
                data@.len() == i,
                forall|j: int| 0 <= j < i ==> data@[j] == 0u8,
            decreases n - i,
        {
            data.push(0u8);
            i = i + 1;
        }
        data
    }
}

/// A pixel's byte size equals its channel count, for every supported
/// layout: three bytes for the three-channel layouts, four for the
/// four-channel ones.
pub proof fn lemma_pixel_size_matches_channel_count(format: CaptureFormat)
    ensures
        format.spec_pixel_size() == format.spec_channel_count(),
{
}

/// The precondition of a raw readback of a `size.0 x size.1` region in
/// `format` into a destination of `dest_len` bytes: both dimensions fit
/// the driver's signed 32-bit contract and the destination holds at least
/// one byte per channel of every pixel.
pub open spec fn read_pixels_ok(size: (u32, u32), format: CaptureFormat, dest_len: nat) -> bool {
    &&& size.0 <= i32::MAX
    &&& size.1 <= i32::MAX
    &&& dest_len >= pixel_count(size) * format.spec_channel_count()
}

/// Decide the raw-readback precondition for a destination of `dest_len`
/// bytes. A violation is caller misuse: the caller of the driver readback
/// must treat `false` as fatal rather than issue the copy.
pub fn check_read_pixels(size: (u32, u32), format: CaptureFormat, dest_len: usize) -> (ok: bool)
    ensures
        ok == read_pixels_ok(size, format, dest_len as nat),
{
    if size.0 > i32::MAX as u32 || size.1 > i32::MAX as u32 {
        return false;
    }
    proof {
        assert((size.0 as int) * (size.1 as int) * (format.spec_channel_count() as int)
            <= 0xffff_ffff_ffff_ffff) by (nonlinear_arith)
            requires
                0 <= size.0 as int <= 0x7fff_ffff,
                0 <= size.1 as int <= 0x7fff_ffff,
                0 <= format.spec_channel_count() as int <= 4,
        ;
        assert((pixel_count(size) * format.spec_channel_count()) as int == (size.0 as int) * (
        size.1 as int) * (format.spec_channel_count() as int));
    }
    let needed = (size.0 as u64) * (size.1 as u64) * (format.channel_count() as u64);
    (dest_len as u64) >= needed
}

/// The pixel sequence encoded in the first `n * channel_count` bytes of a
/// flat channel buffer, one pixel per `channel_count` bytes, in order.
pub open spec fn decoded_pixels<P: Pixel>(bytes: Seq<u8>, n: nat) -> Seq<P> {
    Seq::new(n, |i: int| P::spec_read(bytes, i * P::spec_format().spec_channel_count()))
}

/// Store a raw capture in an image: decode the flat channel bytes the
/// driver wrote (bottom-up row order) into the buffer, then flip the rows
/// so the image reads top-down. Every pixel of the buffer is overwritten.
pub fn capture_into<P: Pixel>(img: &mut ImageData<P>, raw: &Vec<u8>)
    requires
        old(img).well_formed(),
        old(img).size.0 <= i32::MAX,
        old(img).size.1 <= i32::MAX,
        raw@.len() == pixel_count(old(img).size) * P::spec_format().spec_channel_count(),
    ensures
        final(img).size == old(img).size,
        final(img).well_formed(),
        final(img).data@ == flipped(
            decoded_pixels::<P>(raw@, pixel_count(old(img).size)),
            old(img).size.0 as int,
            old(img).size.1 as int,
        ),
{
    let cc = P::format().channel_count();
    let n = img.data.len();
    let raw_len = raw.len();
    proof {
        assert((pixel_count(old(img).size) * P::spec_format().spec_channel_count()) as int == (
        pixel_count(old(img).size) as int) * (P::spec_format().spec_channel_count() as int));
    }
    let mut i: usize = 0;
    while i < n
        invariant
            i <= n,
            cc == P::spec_format().spec_channel_count(),
            img.size == old(img).size,
            img.data@.len() == n,
            n == pixel_count(old(img).size),
            raw_len == raw@.len(),
            raw_len == n * cc,
            forall|j: int|
                0 <= j < i ==> img.data@[j] == decoded_pixels::<P>(raw@, n as nat)[j],
            forall|j: int| i <= j < n ==> img.data@[j] == old(img).data@[j],
        decreases n - i,
    {
        proof {
            assert((i + 1) * cc <= n * cc && i * cc == (i as int) * (cc as int))
                by (nonlinear_arith)
                requires
                    0 <= i < n,
                    cc >= 0,
            ;
        }
        let p = P::read_at(raw, i * cc);
        img.data[i] = p;
        i = i + 1;
    }
    proof {
        assert(img.data@ =~= decoded_pixels::<P>(raw@, n as nat));
    }
    img.flip_vertically();
}

/// The capture size a driver viewport query reports: entries 2 and 3 of
/// the viewport rectangle are its width and height in pixels, never
/// negative for a valid context.
pub fn viewport_size(viewport: [i32; 4]) -> (size: (u32, u32))
    requires
        viewport[2] >= 0,
        viewport[3] >= 0,
    ensures
        size.0 == viewport[2],
        size.1 == viewport[3],
{
    (viewport[2] as u32, viewport[3] as u32)
}

} // verus!
