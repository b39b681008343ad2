use std::rc::Rc;

use pathtracer::material::{Lambertian, MaterialKind};
use pathtracer::ray::hittable::{HitInfo, Hittable, HittableList, Sphere};
use pathtracer::ray::vec3::COORD_MAX;
use pathtracer::ray::{Ray, Vec3};
use pathtracer::scalar::Scalar;

fn num(x: f64) -> Scalar {
    Scalar::from_raw((x * 65536.0).round() as i64)
}

fn vec(x: f64, y: f64, z: f64) -> Vec3 {
    Vec3::from_coords(num(x), num(y), num(z))
}

fn grey() -> Rc<MaterialKind> {
    Rc::new(MaterialKind::Lambertian(Lambertian::new(vec(0.5, 0.5, 0.5))))
}

fn sphere(x: f64, y: f64, z: f64, radius: f64) -> Sphere {
    Sphere::new(vec(x, y, z), num(radius), grey())
}

fn is_empty(info: &HitInfo) -> bool {
    info.point == Vec3::new()
        && info.normal == Vec3::new()
        && info.t == Scalar::zero()
        && !info.front_face
        && info.material.is_none()
}

#[test]
fn ray_down_the_axis_hits_the_front() {
    let s = sphere(0.0, 0.0, -1.0, 0.5);
    let ray = Ray::new(vec(0.0, 0.0, 0.0), vec(0.0, 0.0, -1.0));
    let (found, info) = s.hit(&ray, num(0.001), Scalar::max_value());
    assert!(found);
    assert_eq!(info.t, num(0.5));
    assert_eq!(info.point, vec(0.0, 0.0, -0.5));
    assert_eq!(info.normal, vec(0.0, 0.0, 1.0));
    assert!(info.front_face);
    assert_eq!(ray.direction.dot(&info.normal), num(-1.0));
}

#[test]
fn hit_record_shares_the_material() {
    let material = grey();
    let s = Sphere::new(vec(0.0, 0.0, -1.0), num(0.5), Rc::clone(&material));
    let ray = Ray::new(vec(0.0, 0.0, 0.0), vec(0.0, 0.0, -1.0));
    let (found, info) = s.hit(&ray, num(0.001), Scalar::max_value());
    assert!(found);
    assert!(Rc::ptr_eq(info.material.as_ref().unwrap(), &material));
    let copy = info.clone();
    assert!(Rc::ptr_eq(copy.material.as_ref().unwrap(), &material));
    assert_eq!(copy.t, info.t);
    assert_eq!(copy.point, info.point);
    assert_eq!(copy.normal, info.normal);
    assert_eq!(copy.front_face, info.front_face);
}

#[test]
fn ray_from_inside_hits_the_back() {
    let s = sphere(0.0, 0.0, -1.0, 0.5);
    let ray = Ray::new(vec(0.0, 0.0, -1.0), vec(0.0, 0.0, -1.0));
    let (found, info) = s.hit(&ray, num(0.001), Scalar::max_value());
    assert!(found);
    assert_eq!(info.t, num(0.5));
    assert_eq!(info.point, vec(0.0, 0.0, -1.5));
    assert_eq!(info.normal, vec(0.0, 0.0, 1.0));
    assert!(!info.front_face);
}

#[test]
fn negative_radius_turns_the_normal() {
    let s = sphere(0.0, 0.0, -1.0, -0.5);
    let ray = Ray::new(vec(0.0, 0.0, 0.0), vec(0.0, 0.0, -1.0));
    let (found, info) = s.hit(&ray, num(0.001), Scalar::max_value());
    assert!(found);
    assert_eq!(info.t, num(0.5));
    assert!(!info.front_face);
    assert_eq!(info.normal, vec(0.0, 0.0, 1.0));
}

#[test]
fn parameter_scales_with_the_direction() {
    let s = sphere(0.0, 0.0, -1.0, 0.5);
    let ray = Ray::new(vec(0.0, 0.0, 0.0), vec(0.0, 0.0, -2.0));
    let (found, info) = s.hit(&ray, num(0.001), Scalar::max_value());
    assert!(found);
    assert_eq!(info.t, num(0.25));
    assert_eq!(info.point, vec(0.0, 0.0, -0.5));
}

#[test]
fn bounds_are_exclusive() {
    let s = sphere(0.0, 0.0, -1.0, 0.5);
    let ray = Ray::new(vec(0.0, 0.0, 0.0), vec(0.0, 0.0, -1.0));
    // The near root 0.5 is the lower bound: the far root 1.5 is taken.
    let (found, info) = s.hit(&ray, num(0.5), Scalar::max_value());
    assert!(found);
    assert_eq!(info.t, num(1.5));
    assert!(!info.front_face);
    // The near root is the upper bound: nothing between.
    let (found, info) = s.hit(&ray, num(0.001), num(0.5));
    assert!(!found);
    assert!(is_empty(&info));
    // Both roots outside.
    let (found, _) = s.hit(&ray, num(0.5), num(1.5));
    assert!(!found);
    let (found, info) = s.hit(&ray, num(0.5), num(1.5001));
    assert!(found);
    assert_eq!(info.t, num(1.5));
}

#[test]
fn ray_that_passes_at_a_distance_misses() {
    let s = sphere(0.0, 0.0, -1.0, 0.5);
    let ray = Ray::new(vec(0.0, 0.0, 0.0), vec(0.0, 1.0, -1.0));
    let (found, info) = s.hit(&ray, num(0.001), Scalar::max_value());
    assert!(!found);
    assert!(is_empty(&info));
    let ray = Ray::new(vec(0.51, 0.0, 0.0), vec(0.0, 0.0, -1.0));
    let (found, _) = s.hit(&ray, Scalar::from_raw(i64::MIN), Scalar::max_value());
    assert!(!found);
}

#[test]
fn ray_that_leads_away_misses() {
    let s = sphere(0.0, 0.0, -1.0, 0.5);
    let ray = Ray::new(vec(0.0, 0.0, 0.0), vec(0.0, 0.0, 1.0));
    let (found, _) = s.hit(&ray, Scalar::zero(), Scalar::max_value());
    assert!(!found);
}

#[test]
fn ray_without_direction_hits_nothing() {
    let s = sphere(0.0, 0.0, -1.0, 0.5);
    let inside = Ray::new(vec(0.0, 0.0, -1.0), vec(0.0, 0.0, 0.0));
    let (found, info) = s.hit(&inside, Scalar::from_raw(i64::MIN), Scalar::max_value());
    assert!(!found);
    assert!(is_empty(&info));
}

#[test]
fn grazing_ray_touches_once() {
    let s = sphere(0.0, 0.0, -1.0, 0.5);
    let ray = Ray::new(vec(0.5, 0.0, 0.0), vec(0.0, 0.0, -1.0));
    let (found, info) = s.hit(&ray, num(0.001), Scalar::max_value());
    assert!(found);
    assert_eq!(info.t, num(1.0));
    assert_eq!(info.point, vec(0.5, 0.0, -1.0));
    // The outward normal is at right angles to the ray, which does not
    // count as facing it.
    assert!(!info.front_face);
    assert_eq!(info.normal, vec(-1.0, 0.0, 0.0));
}

#[test]
fn normal_opposes_the_ray() {
    let spheres = [sphere(0.0, 0.0, -1.0, 0.5), sphere(0.3, -0.2, -2.0, 1.25), sphere(0.0, -100.5, -1.0, 100.0)];
    let origins = [vec(0.0, 0.0, 0.0), vec(0.2, -0.1, -1.9), vec(0.0, 0.0, -1.0)];
    let directions = [
        vec(0.0, 0.0, -1.0),
        vec(0.1, -0.3, -1.0),
        vec(-0.2, 0.05, -0.7),
        vec(0.0, -1.0, 0.0),
        vec(0.3, 0.2, 1.0),
        vec(1.0, 0.0, 0.0),
    ];
    let mut hits = 0;
    for s in spheres.iter() {
        for o in origins.iter() {
            for d in directions.iter() {
                let ray = Ray::new(*o, *d);
                let (found, info) = s.hit(&ray, num(0.001), Scalar::max_value());
                if found {
                    hits += 1;
                    assert!(ray.direction.dot_wide(&info.normal) <= 0);
                    assert!(ray.direction.dot(&info.normal) <= Scalar::zero());
                    assert!(num(0.001) < info.t && info.t < Scalar::max_value());
                    assert_eq!(info.point, ray.at(info.t));
                }
            }
        }
    }
    assert!(hits >= 10);
}

#[test]
fn radius_saturates() {
    let s = Sphere::new(vec(0.0, 0.0, 0.0), Scalar::max_value(), grey());
    let ray = Ray::new(vec(0.0, 0.0, 0.0), vec(1.0, 0.0, 0.0));
    let (found, info) = s.hit(&ray, num(0.001), Scalar::max_value());
    assert!(found);
    assert_eq!(info.t.raw(), COORD_MAX);
}

#[test]
fn set_face_normal_orients_the_normal() {
    let ray = Ray::new(vec(0.0, 0.0, 0.0), vec(0.0, 0.0, -1.0));
    let mut info = HitInfo::new(vec(0.0, 0.0, -1.0), vec(0.0, 0.0, 0.0), num(1.0));
    info.set_face_normal(&ray, &vec(0.0, 0.0, 1.0));
    assert!(info.front_face);
    assert_eq!(info.normal, vec(0.0, 0.0, 1.0));
    info.set_face_normal(&ray, &vec(0.0, 0.0, -1.0));
    assert!(!info.front_face);
    assert_eq!(info.normal, vec(0.0, 0.0, 1.0));
    // A normal at right angles to the ray does not face it.
    info.set_face_normal(&ray, &vec(1.0, 0.0, 0.0));
    assert!(!info.front_face);
    assert_eq!(info.normal, vec(-1.0, 0.0, 0.0));
    // The sign is taken of the exact product, however small.
    let tiny = Vec3::from_coords(Scalar::zero(), Scalar::zero(), Scalar::from_raw(1));
    info.set_face_normal(&ray, &tiny);
    assert!(info.front_face);
    assert_eq!(info.normal, tiny);
    assert_eq!(info.point, vec(0.0, 0.0, -1.0));
    assert_eq!(info.t, num(1.0));
}

#[test]
fn empty_and_new_records() {
    assert!(is_empty(&HitInfo::empty()));
    let info = HitInfo::new(vec(1.0, 2.0, 3.0), vec(0.0, 1.0, 0.0), num(2.5));
    assert_eq!(info.point, vec(1.0, 2.0, 3.0));
    assert_eq!(info.normal, vec(0.0, 1.0, 0.0));
    assert_eq!(info.t, num(2.5));
    assert!(!info.front_face);
    assert!(info.material.is_none());
}

#[test]
fn ray_at_is_origin_plus_scaled_direction() {
    let ray = Ray::new(vec(1.0, 2.0, 3.0), vec(0.5, -1.0, 2.0));
    assert_eq!(ray.origin, vec(1.0, 2.0, 3.0));
    assert_eq!(ray.direction, vec(0.5, -1.0, 2.0));
    assert_eq!(ray.at(num(2.0)), vec(2.0, 0.0, 7.0));
    assert_eq!(ray.at(num(-0.5)), vec(0.75, 2.5, 2.0));
    assert_eq!(ray.at(Scalar::zero()), ray.origin);
}

#[test]
fn empty_scene_hits_nothing() {
    let world = HittableList::new();
    assert!(world.objects.is_empty());
    let ray = Ray::new(vec(0.0, 0.0, 0.0), vec(0.0, 0.0, -1.0));
    let (found, info) = world.hit(&ray, num(0.001), Scalar::max_value());
    assert!(!found);
    assert!(is_empty(&info));
}

#[test]
fn scene_returns_the_nearer_of_two_overlapping_spheres() {
    let ray = Ray::new(vec(0.0, 0.0, 0.0), vec(0.0, 0.0, -1.0));
    let near = || sphere(0.0, 0.0, -1.0, 0.5);
    let far = || sphere(0.0, 0.0, -1.25, 0.5);

    let mut first = HittableList::new();
    first.objects.push(near());
    first.objects.push(far());
    let mut second = HittableList::new();
    second.objects.push(far());
    second.objects.push(near());

    for world in [first, second].iter() {
        let (found, info) = world.hit(&ray, num(0.001), Scalar::max_value());
        assert!(found);
        assert_eq!(info.t, num(0.5));
        assert_eq!(info.point, vec(0.0, 0.0, -0.5));
        assert_eq!(info.normal, vec(0.0, 0.0, 1.0));
        assert!(info.front_face);
    }
}

#[test]
fn scene_order_does_not_change_the_distance() {
    let make = |order: &[usize]| {
        let all = [
            (0.0, 0.0, -3.0, 0.5),
            (0.1, 0.0, -1.0, 0.25),
            (0.0, -100.5, -1.0, 100.0),
            (-0.2, 0.1, -2.0, 0.75),
        ];
        let mut world = HittableList::new();
        for k in order.iter() {
            let (x, y, z, r) = all[*k];
            world.objects.push(sphere(x, y, z, r));
        }
        world
    };
    let orders: [[usize; 4]; 4] = [[0, 1, 2, 3], [3, 2, 1, 0], [2, 0, 3, 1], [1, 3, 0, 2]];
    let directions = [
        vec(0.0, 0.0, -1.0),
        vec(0.05, -0.02, -1.0),
        vec(0.0, -1.0, -0.2),
        vec(-0.1, 0.05, -1.0),
        vec(0.0, 1.0, 0.0),
    ];
    for d in directions.iter() {
        let ray = Ray::new(vec(0.0, 0.0, 0.0), *d);
        let (found0, info0) = make(&orders[0]).hit(&ray, num(0.001), Scalar::max_value());
        for order in orders.iter() {
            let (found, info) = make(order).hit(&ray, num(0.001), Scalar::max_value());
            assert_eq!(found, found0);
            assert_eq!(info.t, info0.t);
            assert_eq!(info.point, info0.point);
        }
    }
}

#[test]
fn scene_respects_the_bounds() {
    let mut world = HittableList::new();
    world.objects.push(sphere(0.0, 0.0, -1.0, 0.5));
    world.objects.push(sphere(0.0, 0.0, -4.0, 0.5));
    let ray = Ray::new(vec(0.0, 0.0, 0.0), vec(0.0, 0.0, -1.0));
    let (found, info) = world.hit(&ray, num(2.0), Scalar::max_value());
    assert!(found);
    assert_eq!(info.t, num(3.5));
    let (found, info) = world.hit(&ray, num(2.0), num(3.0));
    assert!(!found);
    assert!(is_empty(&info));
}
