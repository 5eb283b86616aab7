//! The recursive Whitted shader.
//!
//! A ray's color combines shadowed Phong illumination with the colors
//! of a reflected and a refracted secondary ray, each weighted by the
//! material's albedo channels.  Recursion stops after five levels:
//! past that depth, and whenever nothing is struck, the ray yields the
//! fixed background color.

use vstd::prelude::*;
use crate::fixed::{Fix, fadd, fmul, fmax, fpow, SCALE};
use crate::vec3::{Vec3f, V3, add3, sub3, scale3, dot3, norm3, normalize3};
use crate::geometry::{Light, Sphere, reflect, refract, spec_reflect, spec_refract, EPS_BITS};
use crate::scene::{
    scene_intersect, spec_scene_intersect, wf_spheres, HitRecord,
};

verus! {

/// The sky-blue background color.
pub open spec fn spec_background() -> V3 {
    V3 { x: 200_000, y: 700_000, z: 800_000 }
}

/// Every light of the scene is well formed.
pub open spec fn wf_lights(ls: Seq<Light>) -> bool {
    forall|i: int| 0 <= i < ls.len() ==> (#[trigger] ls[i]).wf()
}

/// Where a secondary ray starts: the surface point pushed a little
/// along the normal, to the side its direction points to, so it does
/// not immediately re-hit the surface it leaves.
pub open spec fn spec_offset_orig(point: V3, n: V3, toward: V3) -> V3 {
    if dot3(toward, n) < 0 {
        sub3(point, scale3(n, EPS_BITS as int))
    } else {
        add3(point, scale3(n, EPS_BITS as int))
    }
}

/// A shadow ray from the lit point toward the light strikes some
/// surface strictly nearer than the light itself.
pub open spec fn spec_light_occluded(l: Light, spheres: Seq<Sphere>, point: V3, n: V3) -> bool {
    let ldir = normalize3(sub3(l.position@, point));
    let ldist = norm3(sub3(l.position@, point));
    let sorig = spec_offset_orig(point, n, ldir);
    match spec_scene_intersect(spheres, sorig, ldir) {
        Some(h) => norm3(sub3(h.point, sorig)) < ldist,
        None => false,
    }
}

/// What one unoccluded light adds to the diffuse and specular sums.
pub open spec fn spec_light_terms(l: Light, point: V3, n: V3, dir: V3, exp: u32) -> (int, int) {
    let ldir = normalize3(sub3(l.position@, point));
    (
        fmul(l.intensity@, fmax(0, dot3(ldir, n))),
        fmul(fpow(fmax(0, dot3(spec_reflect(ldir, n), dir)), exp as nat), l.intensity@),
    )
}

/// Accumulated diffuse and specular intensities over the lights, left
/// to right; an occluded light contributes nothing to either sum, and
/// the remaining lights are unaffected.
pub open spec fn spec_light_sums(
    lights: Seq<Light>,
    spheres: Seq<Sphere>,
    point: V3,
    n: V3,
    dir: V3,
    exp: u32,
) -> (int, int)
    decreases lights.len(),
{
    if lights.len() == 0 {
        (0, 0)
    } else {
        let prev = spec_light_sums(lights.drop_last(), spheres, point, n, dir, exp);
        let l = lights.last();
        if spec_light_occluded(l, spheres, point, n) {
            prev
        } else {
            let terms = spec_light_terms(l, point, n, dir, exp);
            (fadd(prev.0, terms.0), fadd(prev.1, terms.1))
        }
    }
}

/// The color of a ray: the background past the depth cap or on a
/// miss; otherwise Phong illumination from the unoccluded lights plus
/// the recursively traced reflection and refraction colors, the four
/// parts weighted by the material's albedo channels.
pub open spec fn spec_cast_ray(
    o: V3,
    d: V3,
    spheres: Seq<Sphere>,
    lights: Seq<Light>,
    depth: nat,
) -> V3
    decreases 5 - depth,
{
    let hit = spec_scene_intersect(spheres, o, d);
    if depth > 4 || hit is None {
        spec_background()
    } else {
        let h = hit->Some_0;
        let rdir = normalize3(spec_reflect(d, h.normal));
        let fdir = normalize3(spec_refract(d, h.normal, h.material.refractive_index));
        let rorig = spec_offset_orig(h.point, h.normal, rdir);
        let forig = spec_offset_orig(h.point, h.normal, fdir);
        let rcol = spec_cast_ray(rorig, rdir, spheres, lights, depth + 1);
        let fcol = spec_cast_ray(forig, fdir, spheres, lights, depth + 1);
        let sums = spec_light_sums(lights, spheres, h.point, h.normal, d, h.material.specular_exponent);
        let white = V3 { x: SCALE as int, y: SCALE as int, z: SCALE as int };
        add3(
            add3(
                add3(
                    scale3(scale3(h.material.diffuse_color, sums.0), h.material.albedo.x),
                    scale3(white, fmul(sums.1, h.material.albedo.y)),
                ),
                scale3(rcol, h.material.albedo.z),
            ),
            scale3(fcol, h.material.albedo.t),
        )
    }
}

/// Past the recursion cap the shader returns exactly the background
/// color, whatever the scene holds: the cap is the termination
/// guarantee of the mutual reflection/refraction recursion.
pub proof fn lemma_depth_cap(o: V3, d: V3, spheres: Seq<Sphere>, lights: Seq<Light>, depth: nat)
    requires
        depth > 4,
    ensures
        spec_cast_ray(o, d, spheres, lights, depth) == spec_background(),
{
}

/// A light occluded by some surface contributes nothing: appending it
/// to the scene's lights leaves both illumination sums unchanged.
pub proof fn lemma_occluded_light_dark(
    lights: Seq<Light>,
    l: Light,
    spheres: Seq<Sphere>,
    point: V3,
    n: V3,
    dir: V3,
    exp: u32,
)
    requires
        spec_light_occluded(l, spheres, point, n),
    ensures
        spec_light_sums(lights.push(l), spheres, point, n, dir, exp) == spec_light_sums(
            lights,
            spheres,
            point,
            n,
            dir,
            exp,
        ),
{
    assert(lights.push(l).drop_last() =~= lights);
    assert(lights.push(l).last() == l);
}

/// Compute the color of the ray from `orig` along `dir`, recursively
/// shading reflection, refraction and shadow rays.
#[verifier::rlimit(100)]
pub fn cast_ray(
    orig: &Vec3f,
    dir: &Vec3f,
    spheres: &Vec<Sphere>,
    lights: &Vec<Light>,
    depth: usize,
) -> (r: Vec3f)
    requires
        orig.wf(),
        dir.wf(),
        wf_spheres(spheres@),
        wf_lights(lights@),
    ensures
        r@ == spec_cast_ray(orig@, dir@, spheres@, lights@, depth as nat),
        r.wf(),
        depth > 4 ==> r@ == spec_background(),
    decreases 5 - depth,
{
    if depth > 4 {
        return Vec3f { x: Fix { bits: 200_000 }, y: Fix { bits: 700_000 }, z: Fix { bits: 800_000 } };
    }
    let hit: Option<HitRecord> = scene_intersect(orig, dir, spheres);
    let h: HitRecord = match hit {
        None => {
            return Vec3f {
                x: Fix { bits: 200_000 },
                y: Fix { bits: 700_000 },
                z: Fix { bits: 800_000 },
            };
        },
        Some(h) => h,
    };
    let reflect_dir: Vec3f = reflect(dir, &h.normal).normalize();
    let refract_dir: Vec3f = refract(dir, &h.normal, h.material.refractive_index).normalize();
    let reflect_orig: Vec3f = if reflect_dir.dot(h.normal).bits < 0 {
        h.point.sub(h.normal.mul_num(Fix { bits: EPS_BITS }))
    } else {
        h.point.add(h.normal.mul_num(Fix { bits: EPS_BITS }))
    };
    let refract_orig: Vec3f = if refract_dir.dot(h.normal).bits < 0 {
        h.point.sub(h.normal.mul_num(Fix { bits: EPS_BITS }))
    } else {
        h.point.add(h.normal.mul_num(Fix { bits: EPS_BITS }))
    };
    let reflect_color: Vec3f = cast_ray(&reflect_orig, &reflect_dir, spheres, lights, depth + 1);
    let refract_color: Vec3f = cast_ray(&refract_orig, &refract_dir, spheres, lights, depth + 1);

    let mut diffuse_sum: Fix = Fix { bits: 0 };
    let mut specular_sum: Fix = Fix { bits: 0 };
    let mut li: usize = 0;
    while li < lights.len()
        invariant
            li <= lights.len(),
            wf_spheres(spheres@),
            wf_lights(lights@),
            h.wf(),
            dir.wf(),
            diffuse_sum.wf(),
            specular_sum.wf(),
            diffuse_sum@ == spec_light_sums(
                lights@.take(li as int),
                spheres@,
                h.point@,
                h.normal@,
                dir@,
                h.material.specular_exponent,
            ).0,
            specular_sum@ == spec_light_sums(
                lights@.take(li as int),
                spheres@,
                h.point@,
                h.normal@,
                dir@,
                h.material.specular_exponent,
            ).1,
        decreases lights.len() - li,
    {
        let light: Light = lights[li];
        let to_light: Vec3f = light.position.sub(h.point);
        let light_dir: Vec3f = to_light.normalize();
        let light_distance: Fix = to_light.norm();
        let shadow_orig: Vec3f = if light_dir.dot(h.normal).bits < 0 {
            h.point.sub(h.normal.mul_num(Fix { bits: EPS_BITS }))
        } else {
            h.point.add(h.normal.mul_num(Fix { bits: EPS_BITS }))
        };
        let shadow_hit: Option<HitRecord> = scene_intersect(&shadow_orig, &light_dir, spheres);
        let occluded: bool = match shadow_hit {
            Some(sh) => sh.point.sub(shadow_orig).norm().bits < light_distance.bits,
            None => false,
        };
        if !occluded {
            diffuse_sum = diffuse_sum.add(
                light.intensity.mul(Fix { bits: 0 }.max(light_dir.dot(h.normal))),
            );
            specular_sum = specular_sum.add(
                Fix { bits: 0 }.max(reflect(&light_dir, &h.normal).dot(*dir)).pow(
                    h.material.specular_exponent,
                ).mul(light.intensity),
            );
        }
        proof {
            assert(lights@.take(li as int + 1).drop_last() =~= lights@.take(li as int));
            assert(lights@.take(li as int + 1).last() == lights@[li as int]);
        }
        li = li + 1;
    }
    proof {
        assert(lights@.take(lights@.len() as int) =~= lights@);
    }

    let white: Vec3f = Vec3f { x: Fix { bits: SCALE }, y: Fix { bits: SCALE }, z: Fix { bits: SCALE } };
    h.material.diffuse_color.mul_num(diffuse_sum).mul_num(h.material.albedo.x).add(
        white.mul_num(specular_sum.mul(h.material.albedo.y)),
    ).add(reflect_color.mul_num(h.material.albedo.z)).add(
        refract_color.mul_num(h.material.albedo.t),
    )
}

} // verus!
