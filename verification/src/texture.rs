//! Procedural color evaluators: solid color, checker pattern, Perlin
//! turbulence, and image lookup.

use crate::fixed::{
    clamp, fadd, fmul, fsub, spec_clamp, spec_fadd, spec_fmul, spec_fsub, HALF, ONE,
};
use crate::perlin::{perlin_wf, spec_turb, Perlin};
use crate::trig::{sin_fx, spec_sin};
use crate::vec3::{spec_nonneg, Vec3};
use vstd::prelude::*;

verus! {

/// The fixed-point representation of 10.
pub const TEN_FX: i64 = 655360;

pub struct SolidColor {
    pub color_value: Vec3,
}

pub struct CheckerTexture {
    pub odd: Box<Texture>,
    pub even: Box<Texture>,
}

pub struct NoiseTexture {
    pub noise: Perlin,
    pub scale: i64,
}

/// A decoded image: tightly packed rows of RGB bytes.
pub struct ImageTexture {
    pub data: Vec<u8>,
    pub width: u32,
    pub height: u32,
}

pub enum Texture {
    Solid(SolidColor),
    Checker(CheckerTexture),
    Noise(NoiseTexture),
    Image(ImageTexture),
}

/// Structural validity: noise tables are full, images are non-empty and
/// tightly packed.
pub open spec fn texture_wf(t: Texture) -> bool
    decreases t,
{
    match t {
        Texture::Solid(_) => true,
        Texture::Checker(c) => texture_wf(*c.odd) && texture_wf(*c.even),
        Texture::Noise(n) => perlin_wf(n.noise),
        Texture::Image(im) => im.width >= 1 && im.height >= 1 && im.data@.len() == 3 * (
        im.width as int) * (im.height as int),
    }
}

/// Every color the texture can produce is componentwise nonnegative.
pub open spec fn texture_nonneg(t: Texture) -> bool
    decreases t,
{
    match t {
        Texture::Solid(s) => spec_nonneg(s.color_value),
        Texture::Checker(c) => texture_nonneg(*c.odd) && texture_nonneg(*c.even),
        Texture::Noise(_) => true,
        Texture::Image(_) => true,
    }
}

/// The checker selector: the product of the sines of the scaled point
/// components; a negative product selects the odd tile.
pub open spec fn spec_checker_sines(p: Vec3) -> int {
    spec_fmul(
        spec_fmul(
            spec_sin(spec_fmul(TEN_FX as int, p.x as int)),
            spec_sin(spec_fmul(TEN_FX as int, p.y as int)),
        ),
        spec_sin(spec_fmul(TEN_FX as int, p.z as int)),
    )
}

/// The gray level of the turbulence texture at `p`:
/// `(1 + sin(scale * z + 10 * turb(p))) / 2`.
pub open spec fn spec_noise_gray(n: NoiseTexture, p: Vec3) -> int {
    spec_fmul(
        HALF as int,
        spec_fadd(
            ONE as int,
            spec_sin(
                spec_fadd(
                    spec_fmul(n.scale as int, p.z as int),
                    spec_fmul(TEN_FX as int, spec_turb(n.noise, p, 7)),
                ),
            ),
        ),
    )
}

/// The image pixel column for texture coordinate `u`.
pub open spec fn spec_image_col(im: ImageTexture, u: int) -> int {
    let uc = spec_clamp(u, 0, ONE as int);
    let i = spec_fmul(uc, im.width as int);
    if i >= im.width as int {
        im.width as int - 1
    } else {
        i
    }
}

/// The image pixel row for texture coordinate `v` (rows run from the top).
pub open spec fn spec_image_row(im: ImageTexture, v: int) -> int {
    let vc = spec_fsub(ONE as int, spec_clamp(v, 0, ONE as int));
    let j = spec_fmul(vc, im.height as int);
    if j >= im.height as int {
        im.height as int - 1
    } else {
        j
    }
}

/// A byte channel rescaled into fixed point: `b / 255`.
pub open spec fn spec_channel(b: int) -> int {
    (b * (ONE as int)) / 255
}

/// The color of the image texture at `(u, v)`.
pub open spec fn spec_image_value(im: ImageTexture, u: int, v: int) -> Vec3 {
    let i = spec_image_col(im, u);
    let j = spec_image_row(im, v);
    let idx: int = 3 * (j * (im.width as int) + i);
    Vec3 {
        x: spec_channel(im.data@[idx] as int) as i64,
        y: spec_channel(im.data@[idx + 1] as int) as i64,
        z: spec_channel(im.data@[idx + 2] as int) as i64,
    }
}

/// The color of a texture at surface coordinates `(u, v)` and point `p`.
pub open spec fn spec_texture_value(t: Texture, u: int, v: int, p: Vec3) -> Vec3
    decreases t,
{
    match t {
        Texture::Solid(s) => s.color_value,
        Texture::Checker(c) => if spec_checker_sines(p) < 0 {
            spec_texture_value(*c.odd, u, v, p)
        } else {
            spec_texture_value(*c.even, u, v, p)
        },
        Texture::Noise(n) => {
            let g = spec_noise_gray(n, p) as i64;
            Vec3 { x: g, y: g, z: g }
        },
        Texture::Image(im) => spec_image_value(im, u, v),
    }
}

impl SolidColor {
    pub fn new_with_vec(c: Vec3) -> (r: SolidColor)
        ensures
            r.color_value == c,
    {
        SolidColor { color_value: c }
    }

    pub fn new_with_col(red: i64, green: i64, blue: i64) -> (r: SolidColor)
        ensures
            r.color_value == (Vec3 { x: red, y: green, z: blue }),
    {
        SolidColor { color_value: Vec3 { x: red, y: green, z: blue } }
    }
}

impl CheckerTexture {
    pub fn new(even: Texture, odd: Texture) -> (r: CheckerTexture)
        ensures
            *r.even == even,
            *r.odd == odd,
    {
        CheckerTexture { even: Box::new(even), odd: Box::new(odd) }
    }
}

impl NoiseTexture {
    pub fn new(sc: i64, rng: &mut crate::rng::Rng) -> (r: NoiseTexture)
        ensures
            perlin_wf(r.noise),
            r.scale == sc,
    {
        NoiseTexture { noise: Perlin::new(rng), scale: sc }
    }
}

impl ImageTexture {
    /// An image texture over decoded, tightly packed RGB rows.
    pub fn new(data: Vec<u8>, width: u32, height: u32) -> (r: ImageTexture)
        requires
            width >= 1,
            height >= 1,
            data@.len() == 3 * (width as int) * (height as int),
        ensures
            r.data == data,
            r.width == width,
            r.height == height,
            texture_wf(Texture::Image(r)),
    {
        ImageTexture { data, width, height }
    }

    fn value(&self, u: i64, v: i64) -> (r: Vec3)
        requires
            texture_wf(Texture::Image(*self)),
        ensures
            r == spec_image_value(*self, u as int, v as int),
            spec_nonneg(r),
    {
        let uc = clamp(u, 0, ONE);
        let vc = fsub(ONE, clamp(v, 0, ONE));
        let mut i = fmul(uc, self.width as i64);
        let mut j = fmul(vc, self.height as i64);
        if i >= self.width as i64 {
            i = self.width as i64 - 1;
        }
        if j >= self.height as i64 {
            j = self.height as i64 - 1;
        }
        proof {
            assert(0 <= spec_fmul(spec_clamp(u as int, 0, ONE as int), self.width as int)) by {
                assert(spec_clamp(u as int, 0, ONE as int) * (self.width as int) >= 0)
                    by (nonlinear_arith)
                    requires
                        spec_clamp(u as int, 0, ONE as int) >= 0,
                        self.width >= 1,
                ;
            }
            assert(0 <= j) by {
                assert(spec_fsub(ONE as int, spec_clamp(v as int, 0, ONE as int)) * (
                self.height as int) >= 0) by (nonlinear_arith)
                    requires
                        spec_fsub(ONE as int, spec_clamp(v as int, 0, ONE as int)) >= 0,
                        self.height >= 1,
                ;
            }
            assert(0 <= (j as int) * (self.width as int) + (i as int)
                && 3 * ((j as int) * (self.width as int) + (i as int)) + 2 < 3 * (
            self.width as int) * (self.height as int)
                && 0 <= (self.width as int) * (self.height as int)
                && 3 * ((j as int) * (self.width as int) + (i as int)) <= 3 * (self.width as int) * (
            self.height as int)) by (nonlinear_arith)
                requires
                    0 <= i < self.width as int,
                    0 <= j < self.height as int,
            ;
        }
        let n = self.data.len();
        assert(3 * ((j as int) * (self.width as int) + (i as int)) + 2 < n as int);
        let idx: usize = 3 * ((j as usize) * (self.width as usize) + (i as usize));
        let red = self.data[idx];
        let green = self.data[idx + 1];
        let blue = self.data[idx + 2];
        proof {
            lemma_channel_bounds(red as int);
            lemma_channel_bounds(green as int);
            lemma_channel_bounds(blue as int);
        }
        Vec3 {
            x: ((red as u64 * ONE as u64) / 255) as i64,
            y: ((green as u64 * ONE as u64) / 255) as i64,
            z: ((blue as u64 * ONE as u64) / 255) as i64,
        }
    }
}

proof fn lemma_channel_bounds(b: int)
    requires
        0 <= b <= 255,
    ensures
        0 <= spec_channel(b) <= ONE,
{
    assert(0 <= (b * (ONE as int)) / 255 <= ONE) by (nonlinear_arith)
        requires
            0 <= b <= 255,
    ;
}

impl Texture {
    /// The color of the texture at surface coordinates `(u, v)` and hit
    /// point `p`; a nonnegative texture yields a nonnegative color.
    pub fn value(&self, u: i64, v: i64, p: &Vec3) -> (r: Vec3)
        requires
            texture_wf(*self),
        ensures
            r == spec_texture_value(*self, u as int, v as int, *p),
            texture_nonneg(*self) ==> spec_nonneg(r),
        decreases *self,
    {
        match self {
            Texture::Solid(s) => s.color_value,
            Texture::Checker(c) => {
                let sines = fmul(
                    fmul(sin_fx(fmul(TEN_FX, p.x)), sin_fx(fmul(TEN_FX, p.y))),
                    sin_fx(fmul(TEN_FX, p.z)),
                );
                if sines < 0 {
                    c.odd.value(u, v, p)
                } else {
                    c.even.value(u, v, p)
                }
            },
            Texture::Noise(n) => {
                let angle = fadd(fmul(n.scale, p.z), fmul(TEN_FX, n.noise.turb(p, 7)));
                let s = sin_fx(angle);
                let g = fmul(HALF, fadd(ONE, s));
                proof {
                    crate::fixed::lemma_fmul_nonneg(HALF as int, spec_fadd(ONE as int, s as int));
                }
                Vec3 { x: g, y: g, z: g }
            },
            Texture::Image(im) => im.value(u, v),
        }
    }
}

} // verus!
