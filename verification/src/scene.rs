//! Nearest-hit search over the scene: every sphere, then an infinite
//! checkerboard plane at `y = -4` bounded to `|x| < 10`, `-30 < z < -10`.
//!
//! The search keeps the smallest accepted ray parameter, starting from
//! a sentinel of one thousand world units: anything farther counts as
//! a miss and the shader substitutes the background color.

use vstd::prelude::*;
use vstd::arithmetic::div_mod::lemma_mod_multiples_vanish;
use crate::fixed::{Fix, fadd, fneg, fmul, fdiv, iabs, sdiv, BOUND, SCALE};
use crate::vec3::{Vec3f, V3, V4, add3, sub3, scale3, normalize3};
use crate::geometry::{
    Material, Sphere, spec_default_material, spec_ray_hit, spec_ray_written, EPS_BITS,
};

verus! {

/// Hits at or beyond this parameter (one thousand world units) are
/// treated as misses.
pub const MAX_DIST_BITS: i64 = 1_000_000_000;

/// Ghost model of a material: bit counts as integers.
pub struct MatM {
    pub diffuse_color: V3,
    pub albedo: V4,
    pub specular_exponent: u32,
    pub refractive_index: int,
}

impl View for Material {
    type V = MatM;

    open spec fn view(&self) -> MatM {
        MatM {
            diffuse_color: self.diffuse_color@,
            albedo: self.albedo@,
            specular_exponent: self.specular_exponent,
            refractive_index: self.refractive_index@,
        }
    }
}

/// Ghost model of an intersection record.
pub struct HitM {
    pub point: V3,
    pub normal: V3,
    pub material: MatM,
    pub distance: int,
}

/// What an intersection query yields: the surface point, the outward
/// unit normal, the surface material and the ray parameter of the hit.
#[derive(Copy, Clone, Debug)]
pub struct HitRecord {
    pub point: Vec3f,
    pub normal: Vec3f,
    pub material: Material,
    pub distance: Fix,
}

impl View for HitRecord {
    type V = HitM;

    open spec fn view(&self) -> HitM {
        HitM {
            point: self.point@,
            normal: self.normal@,
            material: self.material@,
            distance: self.distance@,
        }
    }
}

impl HitRecord {
    /// All components lie in the saturation range.
    pub open spec fn wf(self) -> bool {
        &&& self.point.wf()
        &&& self.normal.wf()
        &&& self.material.wf()
        &&& self.distance.wf()
    }
}

/// The ghost view of an optional hit record.
pub open spec fn opt_hit_view(r: Option<HitRecord>) -> Option<HitM> {
    match r {
        Some(h) => Some(h@),
        None => None,
    }
}

/// Every sphere of the scene is well formed.
pub open spec fn wf_spheres(ss: Seq<Sphere>) -> bool {
    forall|i: int| 0 <= i < ss.len() ==> (#[trigger] ss[i]).wf()
}

/// The nearest-sphere fold: the running best parameter (starting at
/// the sentinel) and the record of the sphere that set it, scanning
/// the scene left to right so the earlier of two equally near spheres
/// wins.
pub open spec fn spec_spheres_fold(ss: Seq<Sphere>, o: V3, d: V3) -> (int, Option<HitM>)
    decreases ss.len(),
{
    if ss.len() == 0 {
        (MAX_DIST_BITS as int, None::<HitM>)
    } else {
        let prev = spec_spheres_fold(ss.drop_last(), o, d);
        let s = ss.last();
        if spec_ray_hit(s, o, d) && spec_ray_written(s, o, d) < prev.0 {
            let t = spec_ray_written(s, o, d);
            let pt = add3(o, scale3(d, t));
            (
                t,
                Some(
                    HitM {
                        point: pt,
                        normal: normalize3(sub3(pt, s.center@)),
                        material: s.material@,
                        distance: t,
                    },
                ),
            )
        } else {
            prev
        }
    }
}

/// The checkerboard tile at `pt` is a white tile: the whole-unit parts
/// of `x / 2 + 1000` and `z / 2` sum to an odd number.
pub open spec fn spec_board_white(a: int, b: int) -> bool {
    (sdiv(a, SCALE as int) + sdiv(b, SCALE as int)) % 2 == 1
}

/// The two tile colors, already dimmed by the fixed factor.
pub open spec fn spec_board_diffuse(white: bool) -> V3 {
    if white {
        scale3(V3 { x: SCALE as int, y: SCALE as int, z: SCALE as int }, 300_000)
    } else {
        scale3(V3 { x: SCALE as int, y: 700_000, z: 300_000 }, 300_000)
    }
}

/// The full scene query: the nearest sphere hit, possibly superseded
/// by the checkerboard plane when the ray is not near-parallel to it,
/// strikes it in front of the origin, inside its bounds, and nearer
/// than every sphere.  The board keeps the optical properties of the
/// superseded material and replaces only its diffuse color.
pub open spec fn spec_scene_intersect(ss: Seq<Sphere>, o: V3, d: V3) -> Option<HitM> {
    let fold = spec_spheres_fold(ss, o, d);
    if iabs(d.y) > EPS_BITS as int {
        let bd = fdiv(fneg(fadd(o.y, 4 * (SCALE as int))), d.y);
        let pt = add3(o, scale3(d, bd));
        if bd > 0 && iabs(pt.x) < 10 * (SCALE as int) && pt.z < -10 * (SCALE as int) && pt.z > -30
            * (SCALE as int) && bd < fold.0 {
            let base = match fold.1 {
                Some(h) => h.material,
                None => spec_default_material()@,
            };
            let a = fadd(fmul(pt.x, 500_000), 1000 * (SCALE as int));
            let b = fmul(pt.z, 500_000);
            Some(
                HitM {
                    point: pt,
                    normal: V3 { x: 0, y: SCALE as int, z: 0 },
                    material: MatM {
                        diffuse_color: spec_board_diffuse(spec_board_white(a, b)),
                        ..base
                    },
                    distance: bd,
                },
            )
        } else {
            fold.1
        }
    } else {
        fold.1
    }
}

/// Whole world units of a scalar, truncated toward zero.
fn trunc_units(a: Fix) -> (r: i64)
    requires
        a.wf(),
    ensures
        r as int == sdiv(a@, SCALE as int),
        -(BOUND as int) <= r as int <= BOUND as int,
{
    if a.bits >= 0 {
        ((a.bits as u64) / (SCALE as u64)) as i64
    } else {
        -(((-a.bits) as u64 / (SCALE as u64)) as i64)
    }
}

/// Whether the tile holding the two truncated coordinates is white.
fn board_white(a: Fix, b: Fix) -> (r: bool)
    requires
        a.wf(),
        b.wf(),
    ensures
        r == spec_board_white(a@, b@),
{
    let ta: i64 = trunc_units(a);
    let tb: i64 = trunc_units(b);
    let sum: i64 = ta + tb;
    if sum >= 0 {
        (sum as u64) % 2 == 1
    } else {
        proof {
            lemma_mod_multiples_vanish(-(sum as int), sum as int, 2);
        }
        ((-sum) as u64) % 2 == 1
    }
}

/// Test the ray against every sphere and the checkerboard plane and
/// return the globally nearest accepted hit, or `None` when nothing
/// is struck within the sentinel distance.
pub fn scene_intersect(orig: &Vec3f, dir: &Vec3f, spheres: &Vec<Sphere>) -> (r: Option<HitRecord>)
    requires
        orig.wf(),
        dir.wf(),
        wf_spheres(spheres@),
    ensures
        opt_hit_view(r) == spec_scene_intersect(spheres@, orig@, dir@),
        r matches Some(h) ==> h.wf(),
{
    let mut best_dist: Fix = Fix { bits: MAX_DIST_BITS };
    let mut best: Option<HitRecord> = None;
    let mut i: usize = 0;
    while i < spheres.len()
        invariant
            orig.wf(),
            dir.wf(),
            wf_spheres(spheres@),
            i <= spheres.len(),
            best_dist.wf(),
            best matches Some(h) ==> h.wf(),
            best_dist@ == spec_spheres_fold(spheres@.take(i as int), orig@, dir@).0,
            opt_hit_view(best) == spec_spheres_fold(spheres@.take(i as int), orig@, dir@).1,
        decreases spheres.len() - i,
    {
        let s: Sphere = spheres[i];
        let mut dist_i: Fix = Fix::zero();
        let hit: bool = s.ray_intersect(orig, dir, &mut dist_i);
        if hit && dist_i.bits < best_dist.bits {
            let pt: Vec3f = orig.add(dir.mul_num(dist_i));
            let n: Vec3f = pt.sub(s.center).normalize();
            best = Some(HitRecord { point: pt, normal: n, material: s.material, distance: dist_i });
            best_dist = dist_i;
        }
        proof {
            assert(spheres@.take(i as int + 1).drop_last() =~= spheres@.take(i as int));
            assert(spheres@.take(i as int + 1).last() == spheres@[i as int]);
        }
        i = i + 1;
    }
    proof {
        assert(spheres@.take(spheres@.len() as int) =~= spheres@);
    }
    let dy_abs: i64 = if dir.y.bits < 0 {
        -dir.y.bits
    } else {
        dir.y.bits
    };
    if dy_abs > EPS_BITS {
        let four: Fix = Fix { bits: 4 * SCALE };
        let bd: Fix = orig.y.add(four).neg().div(dir.y);
        let pt: Vec3f = orig.add(dir.mul_num(bd));
        let px_abs: i64 = if pt.x.bits < 0 {
            -pt.x.bits
        } else {
            pt.x.bits
        };
        if bd.bits > 0 && px_abs < 10 * SCALE && pt.z.bits < -10 * SCALE && pt.z.bits > -30 * SCALE
            && bd.bits < best_dist.bits {
            let base: Material = match best {
                Some(h) => h.material,
                None => Material::default(),
            };
            let half: Fix = Fix { bits: 500_000 };
            let a: Fix = pt.x.mul(half).add(Fix { bits: 1000 * SCALE });
            let b: Fix = pt.z.mul(half);
            let color: Vec3f = if board_white(a, b) {
                Vec3f { x: Fix { bits: SCALE }, y: Fix { bits: SCALE }, z: Fix { bits: SCALE } }
            } else {
                Vec3f { x: Fix { bits: SCALE }, y: Fix { bits: 700_000 }, z: Fix { bits: 300_000 } }
            };
            let dim: Fix = Fix { bits: 300_000 };
            let mat: Material = Material {
                diffuse_color: color.mul_num(dim),
                albedo: base.albedo,
                specular_exponent: base.specular_exponent,
                refractive_index: base.refractive_index,
            };
            return Some(
                HitRecord {
                    point: pt,
                    normal: Vec3f { x: Fix { bits: 0 }, y: Fix { bits: SCALE }, z: Fix { bits: 0 } },
                    material: mat,
                    distance: bd,
                },
            );
        }
    }
    best
}

/// Structural facts about the nearest-sphere fold: the running best
/// never exceeds the sentinel, a record exists exactly when it is
/// below the sentinel, and the record's distance is the running best.
pub proof fn lemma_fold_invariants(ss: Seq<Sphere>, o: V3, d: V3)
    ensures
        spec_spheres_fold(ss, o, d).0 <= MAX_DIST_BITS as int,
        spec_spheres_fold(ss, o, d).1 is Some <==> spec_spheres_fold(ss, o, d).0 < MAX_DIST_BITS
            as int,
        spec_spheres_fold(ss, o, d).1 matches Some(h) ==> h.distance == spec_spheres_fold(
            ss,
            o,
            d,
        ).0,
    decreases ss.len(),
{
    if ss.len() > 0 {
        lemma_fold_invariants(ss.drop_last(), o, d);
    }
}

/// The fold never invents a hit: a record it returns carries the
/// accepted parameter and the material of some sphere the ray strikes.
pub proof fn lemma_fold_sound(ss: Seq<Sphere>, o: V3, d: V3)
    ensures
        spec_spheres_fold(ss, o, d).1 matches Some(h) ==> exists|i: int|
            0 <= i < ss.len() && #[trigger] spec_ray_hit(ss[i], o, d) && h.distance
                == spec_ray_written(ss[i], o, d) && h.material == ss[i].material@,
    decreases ss.len(),
{
    if ss.len() > 0 {
        lemma_fold_sound(ss.drop_last(), o, d);
        let s = ss.last();
        let prev = spec_spheres_fold(ss.drop_last(), o, d);
        if spec_ray_hit(s, o, d) && spec_ray_written(s, o, d) < prev.0 {
            assert(spec_ray_hit(ss[ss.len() - 1], o, d));
        } else {
            if prev.1 is Some {
                let i = choose|i: int|
                    0 <= i < ss.drop_last().len() && #[trigger] spec_ray_hit(
                        ss.drop_last()[i],
                        o,
                        d,
                    ) && prev.1->Some_0.distance == spec_ray_written(ss.drop_last()[i], o, d)
                        && prev.1->Some_0.material == ss.drop_last()[i].material@;
                assert(ss.drop_last()[i] == ss[i]);
                assert(spec_ray_hit(ss[i], o, d));
            }
        }
    }
}

/// The fold is a running minimum: no sphere the ray strikes has a
/// smaller accepted parameter than the fold's result.
pub proof fn lemma_fold_nearest(ss: Seq<Sphere>, o: V3, d: V3, i: int)
    requires
        0 <= i < ss.len(),
        spec_ray_hit(ss[i], o, d),
    ensures
        spec_spheres_fold(ss, o, d).0 <= spec_ray_written(ss[i], o, d),
    decreases ss.len(),
{
    lemma_fold_invariants(ss.drop_last(), o, d);
    if i < ss.len() - 1 {
        lemma_fold_nearest(ss.drop_last(), o, d, i);
        assert(ss.drop_last()[i] == ss[i]);
    } else {
        if spec_ray_written(ss[i], o, d) >= MAX_DIST_BITS as int {
        }
    }
}

/// The scene intersector returns the globally nearest hit: if any
/// sphere is struck at an accepted parameter below the sentinel, the
/// query returns a record, and its distance is no larger than that
/// sphere's parameter.  The checkerboard plane can only bring the
/// distance further down.
pub proof fn lemma_scene_nearest(ss: Seq<Sphere>, o: V3, d: V3, i: int)
    requires
        0 <= i < ss.len(),
        spec_ray_hit(ss[i], o, d),
        spec_ray_written(ss[i], o, d) < MAX_DIST_BITS as int,
    ensures
        spec_scene_intersect(ss, o, d) is Some,
        spec_scene_intersect(ss, o, d)->Some_0.distance <= spec_ray_written(ss[i], o, d),
{
    lemma_fold_invariants(ss, o, d);
    lemma_fold_nearest(ss, o, d, i);
}

} // verus!
