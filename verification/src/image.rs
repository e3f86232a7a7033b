//! Colors and the pixel buffer.
//!
//! A color channel is a fixed-point scalar, conceptually in `[0, 1]`
//! (1.0 is `ONE`); construction does not clamp, but addition saturates
//! at 1.0, exactly as `add_sat` states. Gamma encoding and file output
//! are left to unverified callers.

use vstd::prelude::*;
use crate::fp::{fp_abs, ONE};
use crate::vec3::Vec3;

verus! {

/// Mathematical view of a color: unbounded integer channels.
pub struct CV {
    pub r: int,
    pub g: int,
    pub b: int,
}

/// Linear RGB color with fixed-point channels.
#[derive(Clone, Copy, Debug, PartialEq, Eq, Structural)]
pub struct Color {
    pub r: i64,
    pub g: i64,
    pub b: i64,
}

impl View for Color {
    type V = CV;

    open spec fn view(&self) -> CV {
        CV { r: self.r as int, g: self.g as int, b: self.b as int }
    }
}

/// Channel addition saturating at 1.0 (no clamp below).
pub open spec fn add_sat(a: int, b: int) -> int {
    if a + b > ONE as int {
        ONE as int
    } else {
        a + b
    }
}

pub open spec fn add_c(a: CV, b: CV) -> CV {
    CV { r: add_sat(a.r, b.r), g: add_sat(a.g, b.g), b: add_sat(a.b, b.b) }
}

pub open spec fn black_c() -> CV {
    CV { r: 0, g: 0, b: 0 }
}

/// Channels within `[0, 1]`: the invariant shading maintains.
pub open spec fn color_wf(c: CV) -> bool {
    0 <= c.r <= ONE as int && 0 <= c.g <= ONE as int && 0 <= c.b <= ONE as int
}

impl Color {
    pub fn new(r: i64, g: i64, b: i64) -> (c: Color)
        ensures
            c@ == (CV { r: r as int, g: g as int, b: b as int }),
    {
        Color { r, g, b }
    }

    pub fn from_vec(v: Vec3) -> (c: Color)
        ensures
            c@ == (CV { r: v@.x, g: v@.y, b: v@.z }),
    {
        Color { r: v.x, g: v.y, b: v.z }
    }

    pub fn black() -> (c: Color)
        ensures
            c@ == black_c(),
    {
        Color { r: 0, g: 0, b: 0 }
    }

    /// Channel-wise addition, each channel saturating at 1.0.
    pub fn add(self, other: Color) -> (c: Color)
        requires
            fp_abs(self@.r) <= 0x3fff_ffff_ffff_ffff,
            fp_abs(self@.g) <= 0x3fff_ffff_ffff_ffff,
            fp_abs(self@.b) <= 0x3fff_ffff_ffff_ffff,
            fp_abs(other@.r) <= 0x3fff_ffff_ffff_ffff,
            fp_abs(other@.g) <= 0x3fff_ffff_ffff_ffff,
            fp_abs(other@.b) <= 0x3fff_ffff_ffff_ffff,
        ensures
            c@ == add_c(self@, other@),
    {
        let r: i64 = if self.r + other.r > ONE { ONE } else { self.r + other.r };
        let g: i64 = if self.g + other.g > ONE { ONE } else { self.g + other.g };
        let b: i64 = if self.b + other.b > ONE { ONE } else { self.b + other.b };
        Color { r, g, b }
    }

    /// In-place saturating addition.
    pub fn add_assign(&mut self, other: Color)
        requires
            fp_abs(old(self)@.r) <= 0x3fff_ffff_ffff_ffff,
            fp_abs(old(self)@.g) <= 0x3fff_ffff_ffff_ffff,
            fp_abs(old(self)@.b) <= 0x3fff_ffff_ffff_ffff,
            fp_abs(other@.r) <= 0x3fff_ffff_ffff_ffff,
            fp_abs(other@.g) <= 0x3fff_ffff_ffff_ffff,
            fp_abs(other@.b) <= 0x3fff_ffff_ffff_ffff,
        ensures
            final(self)@ == add_c(old(self)@, other@),
    {
        *self = self.add(other);
    }
}

/// A pixel buffer: `data` holds `height` rows of `width` pixels each.
pub struct Image {
    pub width: u32,
    pub height: u32,
    pub data: Vec<Color>,
}

impl Image {
    pub open spec fn wf(&self) -> bool {
        self.data@.len() == (self.width as int) * (self.height as int)
    }

    pub open spec fn pixel_index(&self, x: int, y: int) -> int {
        y * (self.width as int) + x
    }

    /// A black image of the given dimensions.
    pub fn new(width: u32, height: u32) -> (img: Image)
        requires
            (width as int) * (height as int) <= usize::MAX as int,
        ensures
            img.wf(),
            img.width == width,
            img.height == height,
            forall|i: int| 0 <= i < img.data@.len() ==> img.data@[i]@ == black_c(),
    {
        proof {
            vstd::arithmetic::mul::lemma_mul_nonnegative(width as int, height as int);
        }
        let n: usize = (width as usize) * (height as usize);
        let mut data: Vec<Color> = Vec::new();
        let mut i: usize = 0;
        while i < n
            invariant
                i <= n,
                data@.len() == i as int,
                forall|j: int| 0 <= j < i as int ==> data@[j]@ == black_c(),
                n as int == (width as int) * (height as int),
            decreases n - i,
        {
            data.push(Color::black());
            i = i + 1;
        }
        Image { width, height, data }
    }

    /// Overwrite one pixel.
    pub fn set_pixel(&mut self, x: u32, y: u32, c: Color)
        requires
            old(self).wf(),
            x < old(self).width,
            y < old(self).height,
        ensures
            final(self).wf(),
            final(self).width == old(self).width,
            final(self).height == old(self).height,
            final(self).data@ == old(self).data@.update(old(self).pixel_index(x as int, y as int), c),
    {
        let len: usize = self.data.len();
        proof {
            assert((y as int) * (self.width as int) + (x as int)
                < (self.width as int) * (self.height as int)) by (nonlinear_arith)
                requires
                    0 <= (x as int) && (x as int) < (self.width as int),
                    0 <= (y as int) && (y as int) < (self.height as int);
        }
        let idx: usize = (y as usize) * (self.width as usize) + (x as usize);
        self.data.set(idx, c);
    }
}

} // verus!
