use std::rc::Rc;

use pathtracer::material::{Dielectric, Lambertian, Material, MaterialKind, Metal};
use pathtracer::ray::hittable::HitInfo;
use pathtracer::ray::utils::{reflect, refract};
use pathtracer::ray::{Ray, Vec3};
use pathtracer::scalar::Scalar;
use rand::rngs::SmallRng;
use rand::SeedableRng;

fn n(x: f64) -> Scalar {
    Scalar::from_raw((x * 65536.0).round() as i64)
}

fn v3(x: f64, y: f64, z: f64) -> Vec3 {
    Vec3::from_coords(n(x), n(y), n(z))
}

fn raws(v: &Vec3) -> (i64, i64, i64) {
    (v.x().raw(), v.y().raw(), v.z().raw())
}

fn close(a: &Vec3, b: &Vec3, steps: i64) -> bool {
    let (ax, ay, az) = raws(a);
    let (bx, by, bz) = raws(b);
    (ax - bx).abs() <= steps && (ay - by).abs() <= steps && (az - bz).abs() <= steps
}

/// A hit at `point` on a surface whose outward normal is +z, met by `ray`.
fn hit_on_floor(ray: &Ray, point: Vec3) -> HitInfo {
    let mut rec = HitInfo::new(point, Vec3::new(), n(1.0));
    rec.set_face_normal(ray, &v3(0.0, 0.0, 1.0));
    rec
}

#[test]
fn reflect_mirrors_at_the_normal() {
    assert_eq!(reflect(&v3(1.0, 0.0, -1.0), &v3(0.0, 0.0, 1.0)), v3(1.0, 0.0, 1.0));
    assert_eq!(reflect(&v3(0.0, 0.0, -1.0), &v3(0.0, 0.0, 1.0)), v3(0.0, 0.0, 1.0));
    assert_eq!(reflect(&v3(0.5, -0.25, 0.0), &v3(0.0, 1.0, 0.0)), v3(0.5, 0.25, 0.0));
    assert_eq!(reflect(&v3(1.0, 2.0, 3.0), &v3(0.0, 0.0, 0.0)), v3(1.0, 2.0, 3.0));
}

#[test]
fn refract_head_on_goes_straight() {
    let down = v3(0.0, 0.0, -1.0);
    let up = v3(0.0, 0.0, 1.0);
    assert_eq!(refract(&down, &up, n(1.0)), down);
    assert_eq!(refract(&down, &up, n(1.5)), down);
    assert_eq!(refract(&down, &up, Scalar::from_ratio(2, 3)), down);
}

#[test]
fn refract_bends_toward_the_normal_in_a_denser_medium() {
    // 45 degrees in, ratio 1 / 1.5: sin of the outgoing angle is 0.4714.
    let incoming = v3(1.0, 0.0, -1.0).unit();
    let out = refract(&incoming, &v3(0.0, 0.0, 1.0), Scalar::from_ratio(2, 3));
    assert!(close(&out, &v3(0.4714, 0.0, -0.8819), 8), "{:?}", out);
}

#[test]
fn lambertian_scatters_along_normal_plus_unit_sample() {
    let material = Lambertian::new(v3(0.8, 0.8, 0.0));
    let ray = Ray::new(v3(0.0, 0.0, 1.0), v3(0.0, 0.0, -1.0));
    let rec = hit_on_floor(&ray, v3(0.25, 0.5, 0.0));
    let (scattered, out, attenuation) =
        material.scatter_with(&ray, &rec, v3(0.0, 0.0, 0.5), Scalar::zero());
    assert!(scattered);
    assert_eq!(out.origin, v3(0.25, 0.5, 0.0));
    assert_eq!(out.direction, v3(0.0, 0.0, 2.0));
    assert_eq!(attenuation, v3(0.8, 0.8, 0.0));

    let sample = v3(0.3, -0.2, 0.1);
    let (scattered, out, _) = material.scatter_with(&ray, &rec, sample, Scalar::zero());
    assert!(scattered);
    assert_eq!(out.direction, rec.normal + sample.unit());
}

#[test]
fn lambertian_falls_back_to_the_normal() {
    let material = Lambertian::new(v3(0.1, 0.2, 0.5));
    let ray = Ray::new(v3(0.0, 0.0, 1.0), v3(0.0, 0.0, -1.0));
    let rec = hit_on_floor(&ray, v3(0.0, 0.0, 0.0));
    // The unit sample is the opposite of the normal: the sum has no direction.
    let (scattered, out, attenuation) =
        material.scatter_with(&ray, &rec, v3(0.0, 0.0, -0.5), Scalar::zero());
    assert!(scattered);
    assert_eq!(out.direction, v3(0.0, 0.0, 1.0));
    assert_eq!(attenuation, v3(0.1, 0.2, 0.5));
}

#[test]
fn lambertian_always_scatters() {
    let material = Lambertian::new(v3(0.5, 0.5, 0.5));
    let mut rng = SmallRng::seed_from_u64(21);
    let mut directions = Vec::new();
    for k in 0..300 {
        let ray = Ray::new(v3(0.0, 0.0, 1.0), v3(0.01 * k as f64, 0.3, -1.0));
        let rec = hit_on_floor(&ray, v3(0.0, 0.0, 0.0));
        let (scattered, out, attenuation) = material.scatter(&ray, &rec, &mut rng);
        assert!(scattered);
        assert_eq!(out.origin, rec.point);
        assert_eq!(attenuation, v3(0.5, 0.5, 0.5));
        assert!(!out.direction.near_zero());
        directions.push(out.direction);
    }
    assert!(directions.iter().any(|d| *d != directions[0]));
}

#[test]
fn polished_metal_mirrors() {
    let material = Metal::new(v3(0.8, 0.6, 0.2), n(0.0));
    let ray = Ray::new(v3(0.0, 0.0, 1.0), v3(0.0, 0.0, -2.0));
    let rec = hit_on_floor(&ray, v3(0.0, 0.0, 0.0));
    let (scattered, out, attenuation) =
        material.scatter_with(&ray, &rec, v3(0.3, 0.3, 0.3), Scalar::zero());
    assert!(scattered);
    assert_eq!(out.origin, rec.point);
    assert_eq!(out.direction, v3(0.0, 0.0, 1.0));
    assert_eq!(attenuation, v3(0.8, 0.6, 0.2));

    let slanted = Ray::new(v3(0.0, 0.0, 1.0), v3(3.0, 0.0, -4.0));
    let rec = hit_on_floor(&slanted, v3(0.0, 0.0, 0.0));
    let (scattered, out, _) =
        material.scatter_with(&slanted, &rec, v3(0.3, 0.3, 0.3), Scalar::zero());
    assert!(scattered);
    assert_eq!(raws(&out.direction), (39321, 0, 52428));
}

#[test]
fn rough_metal_perturbs_by_fuzz_times_sample() {
    let material = Metal::new(v3(0.8, 0.6, 0.2), n(0.5));
    let ray = Ray::new(v3(0.0, 0.0, 1.0), v3(0.0, 0.0, -1.0));
    let rec = hit_on_floor(&ray, v3(0.0, 0.0, 0.0));
    let (scattered, out, _) =
        material.scatter_with(&ray, &rec, v3(0.25, 0.0, -0.5), Scalar::zero());
    assert!(scattered);
    assert_eq!(out.direction, v3(0.125, 0.0, 0.75));
}

#[test]
fn metal_fuzz_is_at_most_one() {
    let rough = Metal::new(v3(1.0, 1.0, 1.0), n(5.0));
    let one = Metal::new(v3(1.0, 1.0, 1.0), n(1.0));
    let ray = Ray::new(v3(0.0, 0.0, 1.0), v3(0.0, 0.0, -1.0));
    let rec = hit_on_floor(&ray, v3(0.0, 0.0, 0.0));
    let sample = v3(0.25, -0.5, 0.125);
    let a = rough.scatter_with(&ray, &rec, sample, Scalar::zero());
    let b = one.scatter_with(&ray, &rec, sample, Scalar::zero());
    assert_eq!(a.1.direction, v3(0.25, -0.5, 1.125));
    assert_eq!(a.1.direction, b.1.direction);
    assert_eq!(a.0, b.0);
}

#[test]
fn metal_absorbs_what_points_into_the_surface() {
    let material = Metal::new(v3(0.8, 0.6, 0.2), n(1.0));
    let ray = Ray::new(v3(0.0, 0.0, 1.0), v3(0.0, 0.0, -1.0));
    let rec = hit_on_floor(&ray, v3(0.0, 0.0, 0.0));
    // The perturbed direction lies in the surface.
    let (scattered, out, _) =
        material.scatter_with(&ray, &rec, v3(0.5, 0.0, -1.0), Scalar::zero());
    assert!(!scattered);
    assert_eq!(out.direction, v3(0.5, 0.0, 0.0));
    // It points below the surface.
    let (scattered, out, _) =
        material.scatter_with(&ray, &rec, v3(0.0, 0.0, -1.5), Scalar::zero());
    assert!(!scattered);
    assert_eq!(out.direction, v3(0.0, 0.0, -0.5));
    // Barely above it.
    let (scattered, _, _) = material.scatter_with(
        &ray,
        &rec,
        Vec3::from_coords(Scalar::zero(), Scalar::zero(), Scalar::from_raw(-65535)),
        Scalar::zero(),
    );
    assert!(scattered);
}

#[test]
fn metal_scatter_reports_the_side_of_the_outgoing_ray() {
    let material = Metal::new(v3(0.8, 0.6, 0.2), n(1.0));
    let mut rng = SmallRng::seed_from_u64(22);
    let mut absorbed = 0;
    let mut kept = 0;
    for k in 0..400 {
        let ray = Ray::new(v3(0.0, 0.0, 1.0), v3(1.0, 0.02 * k as f64, -0.05));
        let rec = hit_on_floor(&ray, v3(0.0, 0.0, 0.0));
        let (scattered, out, _) = material.scatter(&ray, &rec, &mut rng);
        assert_eq!(scattered, out.direction.dot_wide(&rec.normal) > 0);
        assert_eq!(out.origin, rec.point);
        if scattered {
            kept += 1;
        } else {
            absorbed += 1;
        }
    }
    assert!(absorbed > 0 && kept > 0);
}

#[test]
fn glass_refracts_or_reflects_by_the_draw() {
    let glass = Dielectric::new(n(1.5));
    let ray = Ray::new(v3(0.0, 0.0, 1.0), v3(0.0, 0.0, -3.0));
    let rec = hit_on_floor(&ray, v3(0.0, 0.0, 0.0));
    assert!(rec.front_face);
    // Head-on the reflectance is r0 = ((1 - 2/3) / (1 + 2/3))^2, about 0.04.
    let reflectance = Dielectric::reflectance(n(1.0), Scalar::one() / n(1.5));
    assert_eq!(reflectance.raw(), 2621);
    let (scattered, out, attenuation) =
        glass.scatter_with(&ray, &rec, Vec3::new(), Scalar::from_raw(2621));
    assert!(scattered);
    assert_eq!(out.origin, rec.point);
    assert_eq!(out.direction, v3(0.0, 0.0, -1.0));
    assert_eq!(attenuation, v3(1.0, 1.0, 1.0));
    let (scattered, out, attenuation) =
        glass.scatter_with(&ray, &rec, Vec3::new(), Scalar::from_raw(2620));
    assert!(scattered);
    assert_eq!(out.direction, v3(0.0, 0.0, 1.0));
    assert_eq!(attenuation, v3(1.0, 1.0, 1.0));
}

#[test]
fn reflectance_follows_schlick() {
    // Grazing: everything is reflected.
    assert_eq!(Dielectric::reflectance(n(0.0), n(1.5)), n(1.0));
    // Index one, head-on: nothing is.
    assert_eq!(Dielectric::reflectance(n(1.0), n(1.0)), n(0.0));
    // Index one, cosine one half: (1/2)^5.
    assert_eq!(Dielectric::reflectance(n(0.5), n(1.0)), n(0.03125));
    // Index 1.5, cosine one half: r0 = 0.04, then 0.04 + 0.96 / 32 = 0.07.
    let r = Dielectric::reflectance(n(0.5), n(1.5)).raw();
    assert!((r - 4587).abs() <= 2, "{}", r);
}

#[test]
fn glass_reflects_totally_from_inside() {
    let glass = Dielectric::new(n(1.5));
    // Leaving the glass at a shallow angle: no draw lets the ray out.
    let ray = Ray::new(v3(0.0, 0.0, -1.0), v3(1.0, 0.0, 0.1));
    let rec = hit_on_floor(&ray, v3(0.0, 0.0, 0.0));
    assert!(!rec.front_face);
    let unit = ray.direction.unit();
    for draw in [0, 1, 30000, 65535] {
        let (scattered, out, _) =
            glass.scatter_with(&ray, &rec, Vec3::new(), Scalar::from_raw(draw));
        assert!(scattered);
        assert_eq!(out.direction, reflect(&unit, &rec.normal));
    }
}

#[test]
fn index_one_goes_straight_through_head_on() {
    let air = Dielectric::new(n(1.0));
    for direction in [v3(0.0, 0.0, -1.0), v3(0.0, 0.0, -7.5)] {
        let ray = Ray::new(v3(0.0, 0.0, 1.0), direction);
        let rec = hit_on_floor(&ray, v3(0.0, 0.0, 0.0));
        for draw in [0, 1, 40000, 65535] {
            let (scattered, out, attenuation) =
                air.scatter_with(&ray, &rec, Vec3::new(), Scalar::from_raw(draw));
            assert!(scattered);
            assert_eq!(out.direction, v3(0.0, 0.0, -1.0));
            assert_eq!(attenuation, v3(1.0, 1.0, 1.0));
        }
    }
}

#[test]
fn index_one_hardly_bends_at_an_angle() {
    let air = Dielectric::new(n(1.0));
    let directions = [
        v3(1.0, 0.0, -1.0),
        v3(0.3, -0.2, -1.0),
        v3(-2.0, 1.0, -0.5),
        v3(0.1, 0.1, -3.0),
    ];
    for direction in directions.iter() {
        for front in [true, false] {
            let (origin, d) = if front {
                (v3(0.0, 0.0, 1.0), *direction)
            } else {
                (v3(0.0, 0.0, -1.0), -*direction)
            };
            let ray = Ray::new(origin, d);
            let rec = hit_on_floor(&ray, v3(0.0, 0.0, 0.0));
            assert_eq!(rec.front_face, front);
            // The largest draw: the ray is refracted unless all light is reflected.
            let (scattered, out, _) =
                air.scatter_with(&ray, &rec, Vec3::new(), Scalar::from_raw(65535));
            assert!(scattered);
            assert!(close(&out.direction, &d.unit(), 700), "{:?} {:?}", out.direction, d.unit());
        }
    }
}

#[test]
fn glass_scatter_never_absorbs() {
    let glass = Dielectric::new(n(1.5));
    let mut rng = SmallRng::seed_from_u64(23);
    let mut up = 0;
    let mut down = 0;
    for k in 0..400 {
        let ray = Ray::new(v3(0.0, 0.0, 1.0), v3(1.0, 0.01 * k as f64, -0.3));
        let rec = hit_on_floor(&ray, v3(0.0, 0.0, 0.0));
        let (scattered, out, attenuation) = glass.scatter(&ray, &rec, &mut rng);
        assert!(scattered);
        assert_eq!(out.origin, rec.point);
        assert_eq!(attenuation, v3(1.0, 1.0, 1.0));
        if out.direction.z().raw() > 0 {
            up += 1;
        } else {
            down += 1;
        }
    }
    assert!(up > 0 && down > 0);
}

#[test]
fn material_kind_dispatches() {
    let ray = Ray::new(v3(0.0, 0.0, 1.0), v3(0.0, 0.0, -1.0));
    let rec = hit_on_floor(&ray, v3(0.0, 0.0, 0.0));
    let sample = v3(0.25, 0.0, -0.5);
    let draw = n(0.5);

    let matte = Lambertian::new(v3(0.8, 0.8, 0.0));
    let expected = matte.scatter_with(&ray, &rec, sample, draw);
    let got = MaterialKind::Lambertian(matte).scatter_with(&ray, &rec, sample, draw);
    assert_eq!((got.0, got.1.origin, got.1.direction, got.2),
        (expected.0, expected.1.origin, expected.1.direction, expected.2));

    let metal = Metal::new(v3(0.8, 0.6, 0.2), n(0.5));
    let expected = metal.scatter_with(&ray, &rec, sample, draw);
    let got = MaterialKind::Metal(metal).scatter_with(&ray, &rec, sample, draw);
    assert_eq!((got.0, got.1.direction, got.2), (expected.0, expected.1.direction, expected.2));
    assert_eq!(got.1.direction, v3(0.125, 0.0, 0.75));

    let glass = Dielectric::new(n(1.5));
    let expected = glass.scatter_with(&ray, &rec, sample, draw);
    let got = MaterialKind::Dielectric(glass).scatter_with(&ray, &rec, sample, draw);
    assert_eq!((got.0, got.1.direction, got.2), (expected.0, expected.1.direction, expected.2));
    assert_eq!(got.1.direction, v3(0.0, 0.0, -1.0));

    let shared = Rc::new(MaterialKind::Metal(Metal::new(v3(0.8, 0.6, 0.2), n(0.0))));
    let mut rng = SmallRng::seed_from_u64(24);
    let (scattered, out, attenuation) = shared.scatter(&ray, &rec, &mut rng);
    assert!(scattered);
    assert_eq!(out.direction, v3(0.0, 0.0, 1.0));
    assert_eq!(attenuation, v3(0.8, 0.6, 0.2));
}
