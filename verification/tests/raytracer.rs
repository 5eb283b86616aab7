//! End-to-end tests of the fixed-point ray tracer: vector algebra,
//! intersection policy, nearest-hit selection, shadowing, recursion
//! termination, determinism and tone mapping.

use tinyraytracer::fixed::{Fix, SCALE};
use tinyraytracer::geometry::{reflect, Light, Material, Sphere};
use tinyraytracer::render::{render, tone_map};
use tinyraytracer::scene::scene_intersect;
use tinyraytracer::shade::cast_ray;
use tinyraytracer::vec3::{Vec3f, Vec4f};

fn fx(bits: i64) -> Fix {
    Fix::from_bits(bits)
}

fn units(u: i64) -> Fix {
    Fix::from_units(u)
}

fn v3u(x: i64, y: i64, z: i64) -> Vec3f {
    Vec3f::new(units(x), units(y), units(z))
}

fn matte(r: i64, g: i64, b: i64) -> Material {
    Material {
        diffuse_color: v3u(r, g, b),
        albedo: Vec4f::new(units(1), fx(0), fx(0), fx(0)),
        specular_exponent: 1,
        refractive_index: units(1),
    }
}

#[test]
fn dot_product_is_exact() {
    let a = v3u(1, 2, 3);
    let b = v3u(4, 5, 6);
    assert_eq!(a.dot(b).bits, 32 * SCALE);
}

#[test]
fn add_sub_neg_scale_are_exact() {
    let a = v3u(1, -2, 3);
    let b = v3u(4, 5, -6);
    assert_eq!(a.add(b), v3u(5, 3, -3));
    assert_eq!(a.sub(b), v3u(-3, -7, 9));
    assert_eq!(a.neg(), v3u(-1, 2, -3));
    assert_eq!(a.mul_num(units(2)), v3u(2, -4, 6));
}

#[test]
fn normalize_zero_vector_is_zero() {
    let z = v3u(0, 0, 0);
    assert_eq!(z.normalize(), v3u(0, 0, 0));
}

#[test]
fn normalize_gives_unit_norm_within_tolerance() {
    // A Pythagorean direction normalizes exactly.
    let v = v3u(3, 4, 0);
    let n = v.normalize();
    assert_eq!(n.x.bits, 600_000);
    assert_eq!(n.y.bits, 800_000);
    assert_eq!(n.norm().bits, SCALE);
    // A diagonal direction normalizes to unit norm within a few bits.
    let w = v3u(1, 1, 0).normalize();
    let err = (w.norm().bits - SCALE).abs();
    assert!(err <= 10, "norm after normalize was off by {err} bits");
}

#[test]
fn norm_squared_equals_dot_for_exact_squares() {
    let v = v3u(1, 2, 2);
    let d = v.dot(v);
    let n = v.norm();
    assert_eq!(d.bits, 9 * SCALE);
    assert_eq!(n.bits, 3 * SCALE);
    // dot(v, v) == norm(v)^2, at scale: bits^2 == dot_bits * SCALE.
    assert_eq!(n.bits * n.bits, d.bits * SCALE);
}

#[test]
fn reflect_negates_component_along_normal() {
    let d = v3u(1, -1, 0);
    let n = v3u(0, 1, 0);
    let r = reflect(&d, &n);
    assert_eq!(r, v3u(1, 1, 0));
    // dot(reflect(d, n), n) == -dot(d, n).
    assert_eq!(r.dot(n).bits, -d.dot(n).bits);
    // Reflecting twice restores the original direction.
    assert_eq!(reflect(&r, &n), d);
}

#[test]
fn sphere_intersection_distance_is_exact() {
    let s = Sphere {
        center: v3u(0, 0, 0),
        radius: units(1),
        material: matte(1, 1, 1),
    };
    let orig = v3u(0, 0, 5);
    let dir = v3u(0, 0, -1);
    let mut dist = fx(0);
    let hit = s.ray_intersect(&orig, &dir, &mut dist);
    assert!(hit);
    assert_eq!(dist.bits, 4 * SCALE);
}

#[test]
fn tangential_ray_is_a_boundary_hit_not_a_false_positive() {
    // The ray passes at perpendicular distance exactly the radius:
    // dist2 == r^2 exactly in fixed point, so the strict comparison
    // must report a (grazing) hit, with no floating error to mask it.
    let s = Sphere {
        center: v3u(0, 0, -5),
        radius: units(1),
        material: matte(1, 1, 1),
    };
    let orig = v3u(1, 0, 0);
    let dir = v3u(0, 0, -1);
    let mut dist = fx(0);
    let hit = s.ray_intersect(&orig, &dir, &mut dist);
    assert!(hit);
    assert_eq!(dist.bits, 5 * SCALE);
}

#[test]
fn ray_clearly_outside_the_radius_misses() {
    let s = Sphere {
        center: v3u(0, 0, -5),
        radius: units(1),
        material: matte(1, 1, 1),
    };
    let orig = v3u(2, 0, 0);
    let dir = v3u(0, 0, -1);
    let mut dist = fx(7);
    assert!(!s.ray_intersect(&orig, &dir, &mut dist));
    assert_eq!(dist.bits, 7);
}

#[test]
fn scene_intersector_returns_globally_nearest_hit() {
    let near = Sphere {
        center: v3u(0, 0, -10),
        radius: units(2),
        material: matte(1, 0, 0),
    };
    let far = Sphere {
        center: v3u(0, 0, -11),
        radius: units(2),
        material: matte(0, 1, 0),
    };
    let spheres = vec![far, near];
    let hit = scene_intersect(&v3u(0, 0, 0), &v3u(0, 0, -1), &spheres).unwrap();
    assert_eq!(hit.distance.bits, 8 * SCALE);
    assert_eq!(hit.material.diffuse_color, v3u(1, 0, 0));
    assert_eq!(hit.normal, v3u(0, 0, 1));
    assert_eq!(hit.point, v3u(0, 0, -8));
}

#[test]
fn scene_intersector_reports_miss_beyond_sentinel() {
    let spheres = vec![Sphere {
        center: v3u(0, 0, -2000),
        radius: units(1),
        material: matte(1, 1, 1),
    }];
    assert!(scene_intersect(&v3u(0, 0, 0), &v3u(0, 0, -1), &spheres).is_none());
}

#[test]
fn checkerboard_plane_is_hit_with_dimmed_tile_color() {
    let spheres: Vec<Sphere> = Vec::new();
    let dir = v3u(0, -4, -15).normalize();
    let hit = scene_intersect(&v3u(0, 0, 0), &dir, &spheres).unwrap();
    assert_eq!(hit.normal, v3u(0, 1, 0));
    // Tile parity at (0, -4, -15): floor-toward-zero of x/2 + 1000 and
    // of z/2 sum to 993, an odd number: the white tile, dimmed by 0.3.
    assert_eq!(hit.material.diffuse_color.x.bits, 300_000);
    assert_eq!(hit.material.diffuse_color.y.bits, 300_000);
    assert_eq!(hit.material.diffuse_color.z.bits, 300_000);
    // The hit point lies on the plane y = -4, up to one rounding bit.
    assert!((hit.point.y.bits + 4 * SCALE).abs() <= 2);
}

#[test]
fn occluded_light_contributes_nothing() {
    let lit = Sphere {
        center: v3u(0, 0, -5),
        radius: units(1),
        material: matte(1, 1, 1),
    };
    let occluder = Sphere {
        center: v3u(0, 0, 2),
        radius: units(1),
        material: matte(1, 1, 1),
    };
    let light = Light {
        position: v3u(0, 0, 10),
        intensity: units(1),
    };
    let orig = v3u(0, 0, 0);
    let dir = v3u(0, 0, -1);
    // With the occluder between the lit point and the light, the only
    // light is shadowed and the purely diffuse surface renders black.
    let shadowed = cast_ray(&orig, &dir, &vec![lit, occluder], &vec![light], 0);
    assert_eq!(shadowed, v3u(0, 0, 0));
    // Removing the occluder restores a nonzero diffuse contribution.
    let open = cast_ray(&orig, &dir, &vec![lit], &vec![light], 0);
    assert_eq!(open, v3u(1, 1, 1));
}

#[test]
fn recursion_depth_cap_returns_background() {
    let spheres = vec![Sphere {
        center: v3u(0, 0, -5),
        radius: units(3),
        material: matte(1, 1, 1),
    }];
    let lights = vec![Light {
        position: v3u(0, 10, 0),
        intensity: units(1),
    }];
    let c = cast_ray(&v3u(0, 0, 0), &v3u(0, 0, -1), &spheres, &lights, 5);
    assert_eq!(c.x.bits, 200_000);
    assert_eq!(c.y.bits, 700_000);
    assert_eq!(c.z.bits, 800_000);
}

#[test]
fn missing_everything_returns_background() {
    let spheres: Vec<Sphere> = Vec::new();
    let lights: Vec<Light> = Vec::new();
    let c = cast_ray(&v3u(0, 0, 0), &v3u(0, 1, 0), &spheres, &lights, 0);
    assert_eq!(c.x.bits, 200_000);
    assert_eq!(c.y.bits, 700_000);
    assert_eq!(c.z.bits, 800_000);
}

fn reference_scene() -> (Vec<Sphere>, Vec<Light>) {
    let ivory = Material {
        diffuse_color: Vec3f {
            x: fx(400_000),
            y: fx(400_000),
            z: fx(300_000),
        },
        albedo: Vec4f {
            x: fx(600_000),
            y: fx(300_000),
            z: fx(100_000),
            t: fx(0),
        },
        specular_exponent: 50,
        refractive_index: units(1),
    };
    let glass = Material {
        diffuse_color: Vec3f {
            x: fx(600_000),
            y: fx(700_000),
            z: fx(800_000),
        },
        albedo: Vec4f {
            x: fx(0),
            y: fx(500_000),
            z: fx(100_000),
            t: fx(800_000),
        },
        specular_exponent: 125,
        refractive_index: fx(1_500_000),
    };
    let red_rubber = Material {
        diffuse_color: Vec3f {
            x: fx(300_000),
            y: fx(100_000),
            z: fx(100_000),
        },
        albedo: Vec4f {
            x: fx(900_000),
            y: fx(100_000),
            z: fx(0),
            t: fx(0),
        },
        specular_exponent: 10,
        refractive_index: units(1),
    };
    let mirror = Material {
        diffuse_color: v3u(1, 1, 1),
        albedo: Vec4f {
            x: fx(0),
            y: units(10),
            z: fx(800_000),
            t: fx(0),
        },
        specular_exponent: 1425,
        refractive_index: units(1),
    };
    let spheres = vec![
        Sphere {
            center: v3u(-3, 0, -16),
            radius: units(2),
            material: ivory,
        },
        Sphere {
            center: Vec3f {
                x: units(-1),
                y: fx(-1_500_000),
                z: units(-12),
            },
            radius: units(2),
            material: glass,
        },
        Sphere {
            center: Vec3f {
                x: fx(1_500_000),
                y: fx(-500_000),
                z: units(-18),
            },
            radius: units(3),
            material: red_rubber,
        },
        Sphere {
            center: v3u(7, 5, -18),
            radius: units(4),
            material: mirror,
        },
    ];
    let lights = vec![
        Light {
            position: v3u(-20, 20, 20),
            intensity: fx(1_500_000),
        },
        Light {
            position: v3u(30, 50, -25),
            intensity: fx(1_800_000),
        },
        Light {
            position: v3u(30, 20, 30),
            intensity: fx(1_700_000),
        },
    ];
    (spheres, lights)
}

#[test]
fn rendering_is_deterministic() {
    let (spheres, lights) = reference_scene();
    let tan_half_fov = units(1);
    let first = render(&spheres, &lights, 64, 48, tan_half_fov);
    let second = render(&spheres, &lights, 64, 48, tan_half_fov);
    assert_eq!(first.len(), 64 * 48);
    assert_eq!(first, second);
    assert_eq!(tone_map(&first), tone_map(&second));
    // The top-left ray escapes the scene: background color.
    assert_eq!(first[0].x.bits, 200_000);
}

#[test]
fn tone_mapping_scales_by_max_then_clamps() {
    let pixel = Vec3f {
        x: units(2),
        y: fx(500_000),
        z: units(1),
    };
    let bytes = tone_map(&vec![pixel]);
    assert_eq!(bytes, vec![255u8, 64u8, 128u8]);
}

#[test]
fn tone_mapping_clamps_negative_channels_to_zero() {
    let pixel = Vec3f {
        x: fx(-500_000),
        y: fx(0),
        z: fx(250_000),
    };
    let bytes = tone_map(&vec![pixel]);
    assert_eq!(bytes, vec![0u8, 0u8, 64u8]);
}

#[test]
fn component_indexing_is_bounds_checked_access() {
    let v = v3u(1, 2, 3);
    assert_eq!(v.index(0).bits, SCALE);
    assert_eq!(v.index(1).bits, 2 * SCALE);
    assert_eq!(v.index(2).bits, 3 * SCALE);
    let w = Vec4f {
        x: fx(1),
        y: fx(2),
        z: fx(3),
        t: fx(4),
    };
    assert_eq!(w.index(3).bits, 4);
}

#[test]
fn copy_in_overwrites_every_component() {
    let mut v = v3u(0, 0, 0);
    v.copy_in(v3u(4, 5, 6));
    assert_eq!(v, v3u(4, 5, 6));
    let mut a = Vec4f {
        x: fx(0),
        y: fx(0),
        z: fx(0),
        t: fx(0),
    };
    a.copy_in(Vec4f {
        x: fx(1),
        y: fx(2),
        z: fx(3),
        t: fx(4),
    });
    assert_eq!(a.t.bits, 4);
    let mut m = Material::default();
    m.copy_in(matte(1, 0, 0));
    assert_eq!(m.diffuse_color, v3u(1, 0, 0));
}

#[test]
fn default_material_is_matte_vacuum() {
    let m = Material::default();
    assert_eq!(m.diffuse_color, v3u(0, 0, 0));
    assert_eq!(m.albedo.x.bits, SCALE);
    assert_eq!(m.albedo.y.bits, 0);
    assert_eq!(m.specular_exponent, 0);
    assert_eq!(m.refractive_index.bits, SCALE);
}
