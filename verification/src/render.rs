//! The pinhole camera driver and the tone-mapped byte framebuffer.
//!
//! `render` casts one primary ray per pixel, row-major, from the world
//! origin; each pixel of the result is pinned to a spec function of
//! the scene and the pixel position alone, so two renders of one scene
//! are equal value for value.  `tone_map` turns linear colors into
//! bytes: a pixel brighter than one world unit is scaled down by its
//! largest channel (preserving hue), then each channel is clamped to
//! one unit and quantized to eight bits, rounding to nearest.

use vstd::prelude::*;
use vstd::arithmetic::div_mod::{
    lemma_div_is_ordered, lemma_fundamental_div_mod_converse_div,
    lemma_fundamental_div_mod_converse_mod,
};
use crate::fixed::{Fix, fdiv, fmul, fneg, fsub, fmax, fmin, SCALE};
use crate::vec3::{Vec3f, V3, zero3, normalize3};
use crate::geometry::{Light, Sphere};
use crate::scene::wf_spheres;
use crate::shade::{cast_ray, spec_cast_ray, wf_lights};

verus! {

/// The camera-space direction of the primary ray through pixel
/// `(i, j)` of a `w` by `h` image, under a pinhole projection with the
/// given tangent of half the field-of-view angle.
pub open spec fn spec_pixel_dir(i: int, j: int, w: int, h: int, tanf: int) -> V3 {
    let wv = w * (SCALE as int);
    let hv = h * (SCALE as int);
    let x0 = fsub(fdiv((2 * i + 1) * (SCALE as int), wv), SCALE as int);
    let x = fmul(fmul(x0, tanf), fdiv(wv, hv));
    let y0 = fsub(fdiv((2 * j + 1) * (SCALE as int), hv), SCALE as int);
    let y = fmul(fneg(y0), tanf);
    normalize3(V3 { x, y, z: fneg(SCALE as int) })
}

/// The color of pixel `(i, j)`: its primary ray, cast from the world
/// origin at recursion depth zero.
pub open spec fn spec_render_pixel(
    spheres: Seq<Sphere>,
    lights: Seq<Light>,
    w: int,
    h: int,
    tanf: int,
    i: int,
    j: int,
) -> V3 {
    spec_cast_ray(zero3(), spec_pixel_dir(i, j, w, h, tanf), spheres, lights, 0)
}

/// Render the scene into a row-major framebuffer of linear colors.
/// Every pixel is a pure function of the scene and its position, so
/// the image is deterministic: two renders of equal inputs are equal.
pub fn render(
    spheres: &Vec<Sphere>,
    lights: &Vec<Light>,
    width: usize,
    height: usize,
    tan_half_fov: Fix,
) -> (r: Vec<Vec3f>)
    requires
        wf_spheres(spheres@),
        wf_lights(lights@),
        0 < width <= 1_000_000,
        0 < height <= 1_000_000,
        tan_half_fov.wf(),
    ensures
        r@.len() == width as int * height as int,
        forall|p: int|
            0 <= p < r@.len() ==> (#[trigger] r@[p])@ == spec_render_pixel(
                spheres@,
                lights@,
                width as int,
                height as int,
                tan_half_fov@,
                p % (width as int),
                p / (width as int),
            ),
        forall|p: int| 0 <= p < r@.len() ==> (#[trigger] r@[p]).wf(),
{
    let mut framebuffer: Vec<Vec3f> = Vec::new();
    let one: Fix = Fix::one();
    let wf_: Fix = Fix::from_units(width as i64);
    let hf_: Fix = Fix::from_units(height as i64);
    let mut j: usize = 0;
    while j < height
        invariant
            wf_spheres(spheres@),
            wf_lights(lights@),
            0 < width <= 1_000_000,
            0 < height <= 1_000_000,
            tan_half_fov.wf(),
            one@ == SCALE as int,
            wf_@ == width as int * (SCALE as int),
            hf_@ == height as int * (SCALE as int),
            wf_.wf(),
            hf_.wf(),
            j <= height,
            framebuffer@.len() == j * width as int,
            forall|p: int|
                0 <= p < framebuffer@.len() ==> (#[trigger] framebuffer@[p])@
                    == spec_render_pixel(
                    spheres@,
                    lights@,
                    width as int,
                    height as int,
                    tan_half_fov@,
                    p % (width as int),
                    p / (width as int),
                ),
            forall|p: int|
                0 <= p < framebuffer@.len() ==> (#[trigger] framebuffer@[p]).wf(),
        decreases height - j,
    {
        let mut i: usize = 0;
        while i < width
            invariant
                wf_spheres(spheres@),
                wf_lights(lights@),
                0 < width <= 1_000_000,
                0 < height <= 1_000_000,
                tan_half_fov.wf(),
                one@ == SCALE as int,
                wf_@ == width as int * (SCALE as int),
                hf_@ == height as int * (SCALE as int),
                wf_.wf(),
                hf_.wf(),
                j < height,
                i <= width,
                framebuffer@.len() == j * width as int + i as int,
                forall|p: int|
                    0 <= p < framebuffer@.len() ==> (#[trigger] framebuffer@[p])@
                        == spec_render_pixel(
                        spheres@,
                        lights@,
                        width as int,
                        height as int,
                        tan_half_fov@,
                        p % (width as int),
                        p / (width as int),
                    ),
                forall|p: int|
                    0 <= p < framebuffer@.len() ==> (#[trigger] framebuffer@[p]).wf(),
            decreases width - i,
        {
            let ni: Fix = Fix::from_units(2 * (i as i64) + 1);
            let nj: Fix = Fix::from_units(2 * (j as i64) + 1);
            let x: Fix = ni.div(wf_).sub(one).mul(tan_half_fov).mul(wf_.div(hf_));
            let y: Fix = nj.div(hf_).sub(one).neg().mul(tan_half_fov);
            let dir: Vec3f = Vec3f { x, y, z: one.neg() }.normalize();
            proof {
                assert(dir@ == spec_pixel_dir(
                    i as int,
                    j as int,
                    width as int,
                    height as int,
                    tan_half_fov@,
                ));
            }
            let origin: Vec3f = Vec3f::default();
            let color: Vec3f = cast_ray(&origin, &dir, spheres, lights, 0);
            framebuffer.push(color);
            proof {
                let w = width as int;
                let p0 = j * w + i;
                lemma_fundamental_div_mod_converse_div(p0, w, j as int, i as int);
                lemma_fundamental_div_mod_converse_mod(p0, w, j as int, i as int);
            }
            i = i + 1;
        }
        proof {
            assert((j as int + 1) * (width as int) == j as int * width as int + width as int)
                by (nonlinear_arith);
        }
        j = j + 1;
    }
    proof {
        assert(height as int * width as int == width as int * height as int) by (nonlinear_arith);
    }
    framebuffer
}

/// Rendering is deterministic: any two framebuffers that satisfy
/// `render`'s contract for one scene, image size and field of view are
/// equal, pixel for pixel.  No nondeterminism exists in the model, so
/// repeated renders of identical inputs produce identical images.
pub proof fn lemma_render_deterministic(
    fb1: Seq<Vec3f>,
    fb2: Seq<Vec3f>,
    spheres: Seq<Sphere>,
    lights: Seq<Light>,
    w: int,
    h: int,
    tanf: int,
)
    requires
        fb1.len() == w * h,
        fb2.len() == w * h,
        forall|p: int|
            0 <= p < fb1.len() ==> (#[trigger] fb1[p])@ == spec_render_pixel(
                spheres,
                lights,
                w,
                h,
                tanf,
                p % w,
                p / w,
            ),
        forall|p: int|
            0 <= p < fb2.len() ==> (#[trigger] fb2[p])@ == spec_render_pixel(
                spheres,
                lights,
                w,
                h,
                tanf,
                p % w,
                p / w,
            ),
    ensures
        fb1 =~= fb2,
{
    assert forall|p: int| 0 <= p < fb1.len() implies fb1[p] == fb2[p] by {
        assert(fb1[p]@ == fb2[p]@);
    }
}

/// The larger of a pixel's three channels.
pub open spec fn spec_pixel_max(v: V3) -> int {
    fmax(v.x, fmax(v.y, v.z))
}

/// Quantize one already-scaled channel: clamp to one world unit, then
/// round to the nearest of 256 levels.
pub open spec fn spec_quant(c: int) -> int {
    (255 * fmax(0, fmin(SCALE as int, c)) + 500_000) / (SCALE as int)
}

/// The output byte of channel `c` in a pixel whose largest channel is
/// `m`: channels of a pixel brighter than one unit are first scaled
/// down by the reciprocal of `m`.
pub open spec fn spec_tone_byte(c: int, m: int) -> int {
    if m > SCALE as int {
        spec_quant(fmul(c, fdiv(SCALE as int, m)))
    } else {
        spec_quant(c)
    }
}

/// Every pixel of the framebuffer is well formed.
pub open spec fn wf_frame(fb: Seq<Vec3f>) -> bool {
    forall|p: int| 0 <= p < fb.len() ==> (#[trigger] fb[p]).wf()
}

/// Quantize one clamped channel to a byte.
fn tone_byte(c: Fix) -> (r: u8)
    requires
        c.wf(),
    ensures
        r as int == spec_quant(c@),
{
    let clamped: i64 = if c.bits < 0 {
        0
    } else if c.bits > SCALE {
        SCALE
    } else {
        c.bits
    };
    proof {
        lemma_div_is_ordered(255 * clamped + 500_000, 255_500_000int, SCALE as int);
    }
    ((255u64 * (clamped as u64) + 500_000) / 1_000_000) as u8
}

/// Map a framebuffer of linear colors to raw bytes, three per pixel:
/// scale each over-bright pixel by its largest channel, clamp each
/// channel to one world unit, and round to eight bits.
pub fn tone_map(framebuffer: &Vec<Vec3f>) -> (r: Vec<u8>)
    requires
        wf_frame(framebuffer@),
    ensures
        r@.len() == 3 * framebuffer@.len(),
        forall|p: int|
            0 <= p < framebuffer@.len() ==> {
                let v = (#[trigger] framebuffer@[p])@;
                &&& r@[3 * p] as int == spec_tone_byte(v.x, spec_pixel_max(v))
                &&& r@[3 * p + 1] as int == spec_tone_byte(v.y, spec_pixel_max(v))
                &&& r@[3 * p + 2] as int == spec_tone_byte(v.z, spec_pixel_max(v))
            },
{
    let mut out: Vec<u8> = Vec::new();
    let mut p: usize = 0;
    while p < framebuffer.len()
        invariant
            wf_frame(framebuffer@),
            p <= framebuffer@.len(),
            out@.len() == 3 * p,
            forall|q: int|
                0 <= q < p ==> {
                    let v = (#[trigger] framebuffer@[q])@;
                    &&& out@[3 * q] as int == spec_tone_byte(v.x, spec_pixel_max(v))
                    &&& out@[3 * q + 1] as int == spec_tone_byte(v.y, spec_pixel_max(v))
                    &&& out@[3 * q + 2] as int == spec_tone_byte(v.z, spec_pixel_max(v))
                },
        decreases framebuffer@.len() - p,
    {
        let v: Vec3f = framebuffer[p];
        let m: Fix = v.x.max(v.y.max(v.z));
        let scaled: Vec3f = if m.bits > SCALE {
            v.mul_num(Fix { bits: SCALE }.div(m))
        } else {
            v
        };
        out.push(tone_byte(scaled.x));
        out.push(tone_byte(scaled.y));
        out.push(tone_byte(scaled.z));
        p = p + 1;
    }
    out
}

} // verus!
