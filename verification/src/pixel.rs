//! Concrete pixel types, one per supported capture format.
//!
//! Every pixel is a tuple of `u8` channels in a fixed order; a buffer of
//! pixels is therefore byte-for-byte the flat channel sequence the driver
//! writes. Each type declares its format and its clear value through the
//! [`Pixel`] capability, resolved statically.

use vstd::prelude::*;

use crate::CaptureFormat;

verus! {

/// Capability of a concrete pixel type: which [`CaptureFormat`] it stores,
/// what value a freshly allocated buffer is filled with, and how one pixel
/// is decoded from the flat channel bytes the driver hands back.
pub trait Pixel: Copy + Sized {
    /// The capture format this pixel type represents.
    spec fn spec_format() -> CaptureFormat;

    /// The clear value: all color channels zero, alpha (if present) at max.
    spec fn spec_clear() -> Self;

    /// The pixel decoded from the channel bytes at `off`, `off + 1`, ...
    /// in a flat byte sequence.
    spec fn spec_read(bytes: Seq<u8>, off: int) -> Self;

    fn format() -> (f: CaptureFormat)
        ensures
            f == Self::spec_format(),
    ;

    fn clear_value() -> (p: Self)
        ensures
            p == Self::spec_clear(),
    ;

    /// Decode one pixel from the channel bytes starting at `off`.
    fn read_at(bytes: &Vec<u8>, off: usize) -> (p: Self)
        requires
            off + Self::spec_format().spec_channel_count() <= bytes@.len(),
        ensures
            p == Self::spec_read(bytes@, off as int),
    ;
}

/// A pixel with channel order red, green, blue.
#[derive(PartialEq, Eq, Clone, Copy, Debug)]
pub struct Rgb(pub [u8; 3]);

impl Rgb {
    pub fn r(&self) -> (v: u8)
        ensures
            v == self.0[0],
    {
        self.0[0]
    }

    pub fn g(&self) -> (v: u8)
        ensures
            v == self.0[1],
    {
        self.0[1]
    }

    pub fn b(&self) -> (v: u8)
        ensures
            v == self.0[2],
    {
        self.0[2]
    }
}

impl Pixel for Rgb {
    open spec fn spec_format() -> CaptureFormat {
        CaptureFormat::Rgb
    }

    open spec fn spec_clear() -> Self {
        Rgb([0, 0, 0])
    }

    open spec fn spec_read(bytes: Seq<u8>, off: int) -> Self {
        Rgb([bytes[off], bytes[off + 1], bytes[off + 2]])
    }

    fn format() -> CaptureFormat {
        CaptureFormat::Rgb
    }

    fn clear_value() -> Self {
        Rgb([0, 0, 0])
    }

    fn read_at(bytes: &Vec<u8>, off: usize) -> Self {
        let n = bytes.len();
        assert(off + 3 <= n);
        Rgb([bytes[off], bytes[off + 1], bytes[off + 2]])
    }
}

/// A pixel with channel order red, green, blue, alpha.
#[derive(PartialEq, Eq, Clone, Copy, Debug)]
pub struct Rgba(pub [u8; 4]);

impl Rgba {
    pub fn r(&self) -> (v: u8)
        ensures
            v == self.0[0],
    {
        self.0[0]
    }

    pub fn g(&self) -> (v: u8)
        ensures
            v == self.0[1],
    {
        self.0[1]
    }

    pub fn b(&self) -> (v: u8)
        ensures
            v == self.0[2],
    {
        self.0[2]
    }

    pub fn a(&self) -> (v: u8)
        ensures
            v == self.0[3],
    {
        self.0[3]
    }
}

impl Pixel for Rgba {
    open spec fn spec_format() -> CaptureFormat {
        CaptureFormat::Rgba
    }

    open spec fn spec_clear() -> Self {
        Rgba([0, 0, 0, 255])
    }

    open spec fn spec_read(bytes: Seq<u8>, off: int) -> Self {
        Rgba([bytes[off], bytes[off + 1], bytes[off + 2], bytes[off + 3]])
    }

    fn format() -> CaptureFormat {
        CaptureFormat::Rgba
    }

    fn clear_value() -> Self {
        Rgba([0, 0, 0, 255])
    }

    fn read_at(bytes: &Vec<u8>, off: usize) -> Self {
        let n = bytes.len();
        assert(off + 4 <= n);
        Rgba([bytes[off], bytes[off + 1], bytes[off + 2], bytes[off + 3]])
    }
}

/// A pixel with channel order blue, green, red.
#[derive(PartialEq, Eq, Clone, Copy, Debug)]
pub struct Bgr(pub [u8; 3]);

impl Bgr {
    pub fn b(&self) -> (v: u8)
        ensures
            v == self.0[0],
    {
        self.0[0]
    }

    pub fn g(&self) -> (v: u8)
        ensures
            v == self.0[1],
    {
        self.0[1]
    }

    pub fn r(&self) -> (v: u8)
        ensures
            v == self.0[2],
    {
        self.0[2]
    }
}

impl Pixel for Bgr {
    open spec fn spec_format() -> CaptureFormat {
        CaptureFormat::Bgr
    }

    open spec fn spec_clear() -> Self {
        Bgr([0, 0, 0])
    }

    open spec fn spec_read(bytes: Seq<u8>, off: int) -> Self {
        Bgr([bytes[off], bytes[off + 1], bytes[off + 2]])
    }

    fn format() -> CaptureFormat {
        CaptureFormat::Bgr
    }

    fn clear_value() -> Self {
        Bgr([0, 0, 0])
    }

    fn read_at(bytes: &Vec<u8>, off: usize) -> Self {
        let n = bytes.len();
        assert(off + 3 <= n);
        Bgr([bytes[off], bytes[off + 1], bytes[off + 2]])
    }
}

/// A pixel with channel order blue, green, red, alpha.
#[derive(PartialEq, Eq, Clone, Copy, Debug)]
pub struct Bgra(pub [u8; 4]);

impl Bgra {
    pub fn b(&self) -> (v: u8)
        ensures
            v == self.0[0],
    {
        self.0[0]
    }

    pub fn g(&self) -> (v: u8)
        ensures
            v == self.0[1],
    {
        self.0[1]
    }

    pub fn r(&self) -> (v: u8)
        ensures
            v == self.0[2],
    {
        self.0[2]
    }

    pub fn a(&self) -> (v: u8)
        ensures
            v == self.0[3],
    {
        self.0[3]
    }
}

impl Pixel for Bgra {
    open spec fn spec_format() -> CaptureFormat {
        CaptureFormat::Bgra
    }

    open spec fn spec_clear() -> Self {
        Bgra([0, 0, 0, 255])
    }

    open spec fn spec_read(bytes: Seq<u8>, off: int) -> Self {
        Bgra([bytes[off], bytes[off + 1], bytes[off + 2], bytes[off + 3]])
    }

    fn format() -> CaptureFormat {
        CaptureFormat::Bgra
    }

    fn clear_value() -> Self {
        Bgra([0, 0, 0, 255])
    }

    fn read_at(bytes: &Vec<u8>, off: usize) -> Self {
        let n = bytes.len();
        assert(off + 4 <= n);
        Bgra([bytes[off], bytes[off + 1], bytes[off + 2], bytes[off + 3]])
    }
}

} // verus!
