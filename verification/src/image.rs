//! The generic image buffer: a contiguous, resizable sequence of pixels of
//! one layout, always holding exactly `width * height` elements.

use vstd::prelude::*;

use crate::pixel::Pixel;

verus! {

use vstd::arithmetic::div_mod::{
    lemma_fundamental_div_mod,
    lemma_fundamental_div_mod_converse_div,
    lemma_fundamental_div_mod_converse_mod,
    lemma_mod_bound,
};

/// The index that a vertical flip carries flat index `i` of a `w x h`
/// row-major image to: same column, row mirrored about the middle.
pub open spec fn flip_index(w: int, h: int, i: int) -> int {
    (h - 1 - i / w) * w + i % w
}

/// The pixel sequence of a `w x h` row-major image with its row order
/// reversed.
pub open spec fn flipped<T>(s: Seq<T>, w: int, h: int) -> Seq<T> {
    Seq::new(s.len(), |i: int| s[flip_index(w, h, i)])
}

/// Which flat indices the flip loop has already swapped when it stands at
/// row `y`, column `x`: the full rows nearer either edge than `y`, and the
/// first `x` columns of rows `y` and `h - 1 - y`.
pub(crate) open spec fn swapped_at(w: int, h: int, y: int, x: int, i: int) -> bool {
    let r = i / w;
    let c = i % w;
    r < y || r > h - 1 - y || ((r == y || r == h - 1 - y) && c < x)
}

/// Invariant of the flip loops: `cur` agrees with the flip of `orig` on the
/// indices already swapped, and with `orig` everywhere else.
pub(crate) open spec fn flip_progress<T>(
    orig: Seq<T>,
    cur: Seq<T>,
    w: int,
    h: int,
    y: int,
    x: int,
) -> bool {
    &&& cur.len() == orig.len()
    &&& forall|i: int|
        0 <= i < orig.len() ==> cur[i] == (if swapped_at(w, h, y, x, i) {
            orig[flip_index(w, h, i)]
        } else {
            orig[i]
        })
}

/// Row and column of flat index `i` in a `w`-wide, `h`-tall image.
proof fn lemma_decomp(w: int, h: int, i: int)
    requires
        w > 0,
        0 <= i < w * h,
    ensures
        0 <= i / w < h,
        0 <= i % w < w,
        i == (i / w) * w + i % w,
{
    assert((i / w) * w == w * (i / w)) by (nonlinear_arith);
    lemma_fundamental_div_mod(i, w);
    lemma_mod_bound(i, w);
    assert(0 <= i / w < h) by (nonlinear_arith)
        requires
            i == w * (i / w) + i % w,
            0 <= i % w < w,
            0 <= i < w * h,
            w > 0,
    ;
}

/// Flat index of row `y`, column `x` in a `w`-wide, `h`-tall image.
proof fn lemma_compose(w: int, h: int, y: int, x: int)
    requires
        w > 0,
        0 <= x < w,
        0 <= y < h,
    ensures
        0 <= y * w + x < w * h,
        (y * w + x) / w == y,
        (y * w + x) % w == x,
{
    assert(0 <= y * w + x < w * h) by (nonlinear_arith)
        requires
            0 <= x < w,
            0 <= y < h,
    ;
    lemma_fundamental_div_mod_converse_div(y * w + x, w, y, x);
    lemma_fundamental_div_mod_converse_mod(y * w + x, w, y, x);
}

/// The flip index stays inside the image and is an involution on it.
pub proof fn lemma_flip_index_involution(w: int, h: int, i: int)
    requires
        w > 0,
        0 <= i < w * h,
    ensures
        0 <= flip_index(w, h, i) < w * h,
        flip_index(w, h, flip_index(w, h, i)) == i,
{
    lemma_decomp(w, h, i);
    lemma_compose(w, h, h - 1 - i / w, i % w);
}

/// Reversing the row order of a `w x h` image twice restores the image
/// exactly, whatever `w` and `h` are.
pub proof fn lemma_flip_involution<T>(s: Seq<T>, w: int, h: int)
    requires
        w >= 0,
        h >= 0,
        s.len() == w * h,
    ensures
        flipped(flipped(s, w, h), w, h) == s,
{
    let f2 = flipped(flipped(s, w, h), w, h);
    assert forall|i: int| 0 <= i < s.len() implies f2[i] == s[i] by {
        assert(w > 0) by (nonlinear_arith)
            requires
                0 <= i < w * h,
                w >= 0,
        ;
        lemma_flip_index_involution(w, h, i);
        lemma_flip_index_involution(w, h, flip_index(w, h, i));
    };
    assert(f2 =~= s);
}

/// Number of pixels in a `width x height` image.
pub open spec fn pixel_count(size: (u32, u32)) -> nat {
    (size.0 as nat) * (size.1 as nat)
}

/// The pixel sequence after a flat resize to `n` elements: the overlap is
/// kept, new elements take the clear value.
pub open spec fn resized<P: Pixel>(s: Seq<P>, n: nat) -> Seq<P> {
    if n <= s.len() {
        s.take(n as int)
    } else {
        s + Seq::new((n - s.len()) as nat, |i: int| P::spec_clear())
    }
}

/// Reported when a requested buffer would exceed the addressable length.
#[derive(PartialEq, Eq, Clone, Copy, Debug)]
pub struct AllocationError;

/// A flat resize and a flat resize back to the original length restore a
/// sequence of that length, and the elements that survived both resizes —
/// the first `min(n0, n1)` — are the original ones. When the resizes stand
/// for a change of image width, rows are *not* preserved: the flat overlap
/// keeps its values, but they line up with different coordinates.
pub proof fn lemma_resize_round_trip<P: Pixel>(s: Seq<P>, n0: nat, n1: nat)
    requires
        s.len() == n0,
    ensures
        resized::<P>(resized::<P>(s, n1), n0).len() == n0,
        forall|i: int|
            0 <= i < n0 && i < n1 ==> resized::<P>(resized::<P>(s, n1), n0)[i] == s[i],
{
}

/// An image: a size in pixels and a flat, row-major pixel sequence of length
/// exactly `width * height`.
pub struct ImageData<P: Pixel> {
    pub size: (u32, u32),
    pub data: Vec<P>,
}

impl<P: Pixel> Clone for ImageData<P> {
    /// An independent image with the same size and the same pixels.
    fn clone(&self) -> (res: Self)
        ensures
            res.size == self.size,
            res.data@ == self.data@,
    {
        let mut data: Vec<P> = Vec::with_capacity(self.data.len());
        let mut i: usize = 0;
        while i < self.data.len()
            invariant
                i <= self.data@.len(),
                data@ == self.data@.take(i as int),
            decreases self.data@.len() - i,
        {
            data.push(self.data[i]);
            proof {
                assert(data@ =~= self.data@.take(i + 1));
            }
            i = i + 1;
        }
        proof {
            assert(data@ =~= self.data@);
        }
        Self { size: self.size, data }
    }
}

impl<P: Pixel> ImageData<P> {
    /// The storage invariant: the flat sequence holds one pixel per
    /// coordinate of the declared size.
    pub open spec fn well_formed(self) -> bool {
        self.data@.len() == pixel_count(self.size)
    }

    /// Allocate a `size.0 x size.1` image filled with the clear value.
    pub fn new(size: (u32, u32)) -> (img: Self)
        requires
            pixel_count(size) <= usize::MAX,
        ensures
            img.size == size,
            img.well_formed(),
            img.data@.len() == pixel_count(size),
            forall|i: int| 0 <= i < img.data@.len() ==> img.data@[i] == P::spec_clear(),
    {
        let n = (size.0 as usize) * (size.1 as usize);
        let mut data: Vec<P> = Vec::with_capacity(n);
        let mut i: usize = 0;
        while i < n
            invariant
                i <= n,
                data@.len() == i,
                forall|j: int| 0 <= j < i ==> data@[j] == P::spec_clear(),
            decreases n - i,
        {
            data.push(P::clear_value());
            i = i + 1;
        }
        trim_capacity(&mut data);
        Self { size, data }
    }

    /// Allocate like [`Self::new`], first checking that the pixel count
    /// fits the addressable length; a request beyond it is reported, not
    /// attempted.
    pub fn try_new(size: (u32, u32)) -> (r: Result<Self, AllocationError>)
        ensures
            match r {
                Ok(img) => {
                    &&& pixel_count(size) <= usize::MAX
                    &&& img.size == size
                    &&& img.well_formed()
                    &&& forall|i: int|
                        0 <= i < img.data@.len() ==> img.data@[i] == P::spec_clear()
                },
                Err(_) => pixel_count(size) > usize::MAX,
            },
    {
        let w = size.0 as u64;
        let h = size.1 as u64;
        proof {
            assert(w * h <= 0xffff_ffff_ffff_ffff) by (nonlinear_arith)
                requires
                    w <= 0xffff_ffff,
                    h <= 0xffff_ffff,
            ;
        }
        let n = w * h;
        if n <= (usize::MAX as u64) {
            Ok(Self::new(size))
        } else {
            Err(AllocationError)
        }
    }

    /// Set a new size and adjust the flat storage to `width * height`
    /// elements: a truncate or a clear-filled extension, with no row
    /// remapping. After a resize that changed the width, pixel rows of the
    /// old image no longer line up with rows of the new one.
    pub fn resize(&mut self, size: (u32, u32))
        requires
            pixel_count(size) <= usize::MAX,
        ensures
            final(self).size == size,
            final(self).well_formed(),
            final(self).data@ == resized::<P>(old(self).data@, pixel_count(size)),
    {
        self.size = size;
        let n = (size.0 as usize) * (size.1 as usize);
        if n <= self.data.len() {
            self.data.truncate(n);
            proof {
                assert(self.data@ =~= resized::<P>(old(self).data@, pixel_count(size)));
            }
        } else {
            while self.data.len() < n
                invariant
                    old(self).data@.len() < n <= usize::MAX,
                    self.size == size,
                    old(self).data@.len() <= self.data@.len() <= n,
                    self.data@.subrange(0, old(self).data@.len() as int) == old(self).data@,
                    forall|j: int|
                        old(self).data@.len() <= j < self.data@.len()
                            ==> self.data@[j] == P::spec_clear(),
                decreases n - self.data@.len(),
            {
                self.data.push(P::clear_value());
            }
            proof {
                assert(self.data@ =~= resized::<P>(old(self).data@, pixel_count(size)));
            }
        }
    }
}

impl<P: Pixel> ImageData<P> {
    /// Reverse the row order in place: row `y` changes places with row
    /// `h - 1 - y`. Turns the hardware's bottom-up capture into a
    /// conventional top-down image.
    #[verifier::loop_isolation(false)]
    pub fn flip_vertically(&mut self)
        requires
            old(self).well_formed(),
        ensures
            final(self).size == old(self).size,
            final(self).well_formed(),
            final(self).data@ == flipped(
                old(self).data@,
                old(self).size.0 as int,
                old(self).size.1 as int,
            ),
    {
        let w = self.size.0 as usize;
        let h = self.size.1 as usize;
        let len = self.data.len();
        let ghost orig = self.data@;
        let ghost gw = w as int;
        let ghost gh = h as int;
        proof {
            lemma_fundamental_div_mod(gh, 2);
            lemma_mod_bound(gh, 2);
            assert forall|i: int| 0 <= i < len implies !swapped_at(gw, gh, 0, 0, i) by {
                assert(gw > 0) by (nonlinear_arith)
                    requires
                        0 <= i < gw * gh,
                        gw >= 0,
                ;
                lemma_decomp(gw, gh, i);
            };
        }
        let mut y: usize = 0;
        while y < h / 2
            invariant
                y <= h / 2,
                self.size == old(self).size,
                self.data@.len() == len,
                flip_progress(orig, self.data@, gw, gh, y as int, 0),
            decreases h / 2 - y,
        {
            let mut x: usize = 0;
            while x < w
                invariant
                    x <= w,
                    self.size == old(self).size,
                    self.data@.len() == len,
                    flip_progress(orig, self.data@, gw, gh, y as int, x as int),
                decreases w - x,
            {
                proof {
                    lemma_compose(gw, gh, y as int, x as int);
                    lemma_compose(gw, gh, gh - 1 - y, x as int);
                }
                let top = y * w + x;
                let bottom = (h - 1 - y) * w + x;
                let tmp = self.data[top];
                let bv = self.data[bottom];
                self.data[top] = bv;
                self.data[bottom] = tmp;
                proof {
                    assert forall|i: int|
                        0 <= i < len implies self.data@[i] == (if swapped_at(
                        gw,
                        gh,
                        y as int,
                        x as int + 1,
                        i,
                    ) {
                        orig[flip_index(gw, gh, i)]
                    } else {
                        orig[i]
                    }) by {
                        lemma_decomp(gw, gh, i);
                    };
                }
                x = x + 1;
            }
            proof {
                assert forall|i: int|
                    0 <= i < len implies self.data@[i] == (if swapped_at(
                    gw,
                    gh,
                    y as int + 1,
                    0,
                    i,
                ) {
                    orig[flip_index(gw, gh, i)]
                } else {
                    orig[i]
                }) by {
                    lemma_decomp(gw, gh, i);
                };
            }
            y = y + 1;
        }
        proof {
            assert forall|i: int| 0 <= i < len implies self.data@[i] == flipped(
                orig,
                gw,
                gh,
            )[i] by {
                assert(gw > 0) by (nonlinear_arith)
                    requires
                        0 <= i < gw * gh,
                        gw >= 0,
                ;
                lemma_decomp(gw, gh, i);
            };
            assert(self.data@ =~= flipped(orig, gw, gh));
        }
    }
}

/// Relies on `Vec::shrink_to_fit`: it may drop excess capacity, never an
/// element; the contents stay as they were.
#[verifier::external_body]
fn trim_capacity<P: Pixel>(v: &mut Vec<P>)
    ensures
        final(v)@ == old(v)@,
{
    v.shrink_to_fit()
}

} // verus!
