//! Materials, primitives, lights, and the reflection and refraction
//! directions.
//!
//! The sphere intersection test follows the classic projection form:
//! project the origin-to-center vector onto the ray, reject when the
//! squared perpendicular distance exceeds the squared radius, and
//! otherwise pick the nearer of the two chord endpoints that lies
//! beyond a small positive offset, so a secondary ray never re-hits
//! the surface it starts on.

use vstd::prelude::*;
use crate::fixed::{Fix, fadd, fsub, fneg, fmul, fdiv, fsqrt, fmin, fmax, BOUND, SCALE};
use crate::vec3::{
    Vec3f, Vec4f, V3, add3, sub3, neg3, scale3, dot3, zero3,
};

verus! {

/// Smallest accepted ray parameter, in bits: 10^-3 world units.
/// Secondary-ray origins are pushed off a surface by the same amount.
pub const EPS_BITS: i64 = 1_000;

/// Per-surface optical properties.
///
/// `albedo` weighs the four shading contributions {diffuse, specular,
/// reflection, refraction}; the weights are free linear factors and
/// may exceed one world unit.  The specular exponent is a whole
/// number; the refractive index is at least one (vacuum).
#[derive(Copy, Clone, Debug, PartialEq, Eq, Structural)]
pub struct Material {
    pub diffuse_color: Vec3f,
    pub albedo: Vec4f,
    pub specular_exponent: u32,
    pub refractive_index: Fix,
}

/// A sphere with its material.
#[derive(Copy, Clone, Debug, PartialEq, Eq, Structural)]
pub struct Sphere {
    pub center: Vec3f,
    pub radius: Fix,
    pub material: Material,
}

/// A point light source.
#[derive(Copy, Clone, Debug, PartialEq, Eq, Structural)]
pub struct Light {
    pub position: Vec3f,
    pub intensity: Fix,
}

impl Material {
    /// Components in range and a physical refractive index.
    pub open spec fn wf(self) -> bool {
        &&& self.diffuse_color.wf()
        &&& self.albedo.wf()
        &&& self.refractive_index.wf()
        &&& self.refractive_index@ >= SCALE as int
    }

    /// Overwrite this material with another.
    pub fn copy_in(&mut self, other: Material)
        ensures
            *final(self) == other,
    {
        self.diffuse_color.copy_in(other.diffuse_color);
        self.albedo.copy_in(other.albedo);
        self.specular_exponent = other.specular_exponent;
        self.refractive_index = other.refractive_index;
    }
}

impl Default for Material {
    /// Matte black: all weight on the diffuse channel, exponent zero,
    /// refractive index of vacuum.
    fn default() -> (r: Material)
        ensures
            r == spec_default_material(),
            r.wf(),
    {
        Material {
            diffuse_color: Vec3f { x: Fix { bits: 0 }, y: Fix { bits: 0 }, z: Fix { bits: 0 } },
            albedo: Vec4f {
                x: Fix { bits: SCALE },
                y: Fix { bits: 0 },
                z: Fix { bits: 0 },
                t: Fix { bits: 0 },
            },
            specular_exponent: 0,
            refractive_index: Fix { bits: SCALE },
        }
    }
}

/// The material `Material::default` returns.
pub open spec fn spec_default_material() -> Material {
    Material {
        diffuse_color: Vec3f { x: Fix { bits: 0 }, y: Fix { bits: 0 }, z: Fix { bits: 0 } },
        albedo: Vec4f {
            x: Fix { bits: SCALE },
            y: Fix { bits: 0 },
            z: Fix { bits: 0 },
            t: Fix { bits: 0 },
        },
        specular_exponent: 0,
        refractive_index: Fix { bits: SCALE },
    }
}

impl Sphere {
    /// In-range center and material, strictly positive radius.
    pub open spec fn wf(self) -> bool {
        &&& self.center.wf()
        &&& self.radius.wf()
        &&& self.radius@ > 0
        &&& self.material.wf()
    }

    /// Whether a ray from `orig` along `dir` strikes this sphere, and
    /// at what parameter.  On a hit, and also when the ray line meets
    /// the sphere only at rejected parameters, `dist` receives the
    /// chosen chord endpoint; when the line misses the sphere `dist`
    /// is left unchanged.
    pub fn ray_intersect(self, orig: &Vec3f, dir: &Vec3f, dist: &mut Fix) -> (hit: bool)
        requires
            self.wf(),
            orig.wf(),
            dir.wf(),
            old(dist).wf(),
        ensures
            hit == spec_ray_hit(self, orig@, dir@),
            spec_ray_d2(self, orig@, dir@) > spec_ray_r2(self) ==> *final(dist) == *old(dist),
            spec_ray_d2(self, orig@, dir@) <= spec_ray_r2(self) ==> final(dist)@ == spec_ray_written(
                self,
                orig@,
                dir@,
            ),
            final(dist).wf(),
    {
        let l: Vec3f = self.center.sub(*orig);
        let proj: Fix = l.dot(*dir);
        let d2: Fix = l.dot(l).sub(proj.mul(proj));
        let r2: Fix = self.radius.mul(self.radius);
        if d2.bits > r2.bits {
            return false;
        }
        let thc: Fix = r2.sub(d2).sqrt();
        let t0: Fix = proj.sub(thc);
        let t1: Fix = proj.add(thc);
        let written: Fix = if t0.bits < EPS_BITS {
            t1
        } else {
            t0
        };
        *dist = written;
        written.bits >= EPS_BITS
    }
}

impl Light {
    /// In-range position and a non-negative intensity.
    pub open spec fn wf(self) -> bool {
        &&& self.position.wf()
        &&& self.intensity.wf()
        &&& self.intensity@ >= 0
    }
}

/// Squared perpendicular distance (in bits) from the sphere center to
/// the ray line.
pub open spec fn spec_ray_d2(s: Sphere, o: V3, d: V3) -> int {
    let l = sub3(s.center@, o);
    let proj = dot3(l, d);
    fsub(dot3(l, l), fmul(proj, proj))
}

/// Squared radius, in bits.
pub open spec fn spec_ray_r2(s: Sphere) -> int {
    fmul(s.radius@, s.radius@)
}

/// The chord endpoint the intersection policy picks: the nearer one
/// when it lies beyond the offset, else the farther one.
pub open spec fn spec_ray_written(s: Sphere, o: V3, d: V3) -> int {
    let l = sub3(s.center@, o);
    let proj = dot3(l, d);
    let d2 = fsub(dot3(l, l), fmul(proj, proj));
    let thc = fsqrt(fsub(spec_ray_r2(s), d2));
    let t0 = fsub(proj, thc);
    let t1 = fadd(proj, thc);
    if t0 < EPS_BITS {
        t1
    } else {
        t0
    }
}

/// The ray strikes the sphere: the line passes within the radius and
/// the chosen endpoint lies beyond the offset.
pub open spec fn spec_ray_hit(s: Sphere, o: V3, d: V3) -> bool {
    spec_ray_d2(s, o, d) <= spec_ray_r2(s) && spec_ray_written(s, o, d) >= EPS_BITS
}

/// Mirror reflection of `d` about the normal `n`.
pub open spec fn spec_reflect(d: V3, n: V3) -> V3 {
    sub3(d, scale3(n, fmul(2 * SCALE, dot3(d, n))))
}

/// Mirror reflection of the incident direction about the surface
/// normal: `d - n * 2 * dot(d, n)`.
pub fn reflect(incident: &Vec3f, normal: &Vec3f) -> (r: Vec3f)
    requires
        incident.wf(),
        normal.wf(),
    ensures
        r@ == spec_reflect(incident@, normal@),
        r.wf(),
{
    let two: Fix = Fix { bits: 2 * SCALE };
    incident.sub(normal.mul_num(two.mul(incident.dot(*normal))))
}

/// Refraction of `d` at a surface of normal `n` by Snell's law, with
/// the index ratio and normal flipped when the ray leaves the medium;
/// the zero vector under total internal reflection.
pub open spec fn spec_refract(d: V3, n: V3, ri: int) -> V3 {
    let cosi0 = fneg(fmax(fneg(SCALE as int), fmin(SCALE as int, dot3(d, n))));
    let cosi = if cosi0 < 0 {
        fneg(cosi0)
    } else {
        cosi0
    };
    let etai = if cosi0 < 0 {
        ri
    } else {
        SCALE as int
    };
    let etat = if cosi0 < 0 {
        SCALE as int
    } else {
        ri
    };
    let nn = if cosi0 < 0 {
        neg3(n)
    } else {
        n
    };
    let eta = fdiv(etai, etat);
    let k = fsub(SCALE as int, fmul(fmul(eta, eta), fsub(SCALE as int, fmul(cosi, cosi))));
    if k < 0 {
        zero3()
    } else {
        add3(scale3(d, eta), scale3(nn, fsub(fmul(eta, cosi), fsqrt(k))))
    }
}

/// Refraction direction by Snell's law.  A negative discriminant
/// (total internal reflection) yields the zero vector: the refracted
/// energy is dropped, not redirected, by design.
pub fn refract(incident: &Vec3f, normal: &Vec3f, refractive_index: Fix) -> (r: Vec3f)
    requires
        incident.wf(),
        normal.wf(),
        refractive_index.wf(),
        refractive_index@ >= SCALE as int,
    ensures
        r@ == spec_refract(incident@, normal@, refractive_index@),
        r.wf(),
{
    let one: Fix = Fix { bits: SCALE };
    let mut cosi: Fix = one.neg().max(one.min(incident.dot(*normal))).neg();
    let mut etai: Fix = one;
    let mut etat: Fix = refractive_index;
    let mut nn: Vec3f = *normal;
    if cosi.bits < 0 {
        cosi = cosi.neg();
        etai = refractive_index;
        etat = one;
        nn = normal.neg();
    }
    let eta: Fix = etai.div(etat);
    let k: Fix = one.sub(eta.mul(eta).mul(one.sub(cosi.mul(cosi))));
    if k.bits < 0 {
        Vec3f::default()
    } else {
        incident.mul_num(eta).add(nn.mul_num(eta.mul(cosi).sub(k.sqrt())))
    }
}

/// Dot product over unscaled integers, with no rescaling step.
pub open spec fn dot_raw(a: V3, b: V3) -> int {
    a.x * b.x + a.y * b.y + a.z * b.z
}

/// The exact mirror reflection, carried at three extra scale factors
/// so that no truncation occurs: each component of the true reflected
/// vector, times `SCALE * SCALE`.
pub open spec fn reflect_raw(d: V3, n: V3) -> V3 {
    V3 {
        x: d.x * (SCALE as int) * (SCALE as int) - 2 * dot_raw(d, n) * n.x,
        y: d.y * (SCALE as int) * (SCALE as int) - 2 * dot_raw(d, n) * n.y,
        z: d.z * (SCALE as int) * (SCALE as int) - 2 * dot_raw(d, n) * n.z,
    }
}

/// Reflection negates the incident component along the normal: for an
/// exactly unit normal `n`, the exact reflection of `d` satisfies
/// `dot(reflect(d, n), n) == -dot(d, n)`, so reflecting twice restores
/// that component.  Stated over the untruncated model, where the
/// reflected vector carries two extra scale factors.
pub proof fn lemma_reflect_involution(d: V3, n: V3)
    requires
        dot_raw(n, n) == (SCALE as int) * (SCALE as int),
    ensures
        dot_raw(reflect_raw(d, n), n) == -(SCALE as int) * (SCALE as int) * dot_raw(d, n),
{
    let s = SCALE as int;
    let t = s * s;
    let dn = dot_raw(d, n);
    assert(d.x * s * s == d.x * t && d.y * s * s == d.y * t && d.z * s * s == d.z * t
        && -s * s * dn == -t * dn) by (nonlinear_arith)
        requires
            t == s * s,
    ;
    lemma_reflect_raw_calc(d.x, d.y, d.z, n.x, n.y, n.z, t, dn);
}

/// The polynomial identity behind `lemma_reflect_involution`, over
/// plain integers: with `dn` the incident dot product and the normal
/// exactly unit (its dot square equal to `t`), the expanded reflection
/// dotted with the normal is `-t * dn`.
proof fn lemma_reflect_raw_calc(
    dx: int,
    dy: int,
    dz: int,
    nx: int,
    ny: int,
    nz: int,
    t: int,
    dn: int,
)
    requires
        dn == dx * nx + dy * ny + dz * nz,
        nx * nx + ny * ny + nz * nz == t,
    ensures
        (dx * t - 2 * dn * nx) * nx + (dy * t - 2 * dn * ny) * ny + (dz * t - 2 * dn * nz) * nz
            == -t * dn,
{
    assert((dx * t - 2 * dn * nx) * nx == t * (dx * nx) - 2 * dn * (nx * nx)) by (nonlinear_arith);
    assert((dy * t - 2 * dn * ny) * ny == t * (dy * ny) - 2 * dn * (ny * ny)) by (nonlinear_arith);
    assert((dz * t - 2 * dn * nz) * nz == t * (dz * nz) - 2 * dn * (nz * nz)) by (nonlinear_arith);
    assert(t * (dx * nx) + t * (dy * ny) + t * (dz * nz) == t * dn) by (nonlinear_arith)
        requires
            dn == dx * nx + dy * ny + dz * nz,
    ;
    assert(2 * dn * (nx * nx) + 2 * dn * (ny * ny) + 2 * dn * (nz * nz) == 2 * (dn * t))
        by (nonlinear_arith)
        requires
            nx * nx + ny * ny + nz * nz == t,
    ;
    assert(t * dn - 2 * (dn * t) == -t * dn) by (nonlinear_arith);
}

} // verus!
