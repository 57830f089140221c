use raytracer::aabb::{surrounding_box, Slab, Slabs, AABB};
use raytracer::ray::Ray;
use raytracer::scalar::Scalar;
use raytracer::vec3::Vec3;

fn bk(x: f64) -> i64 {
    let b = x.to_bits() as i64;
    b ^ ((((b >> 63) as u64) >> 1) as i64)
}

fn bs(x: f64) -> Scalar {
    Scalar::from_key(bk(x))
}

fn bf(s: Scalar) -> f64 {
    let k = s.key();
    f64::from_bits((k ^ ((((k >> 63) as u64) >> 1) as i64)) as u64)
}

fn bv(x: f64, y: f64, z: f64) -> Vec3 {
    Vec3::new(bs(x), bs(y), bs(z))
}

fn bbox(lo: (f64, f64, f64), hi: (f64, f64, f64)) -> AABB {
    AABB::new(bv(lo.0, lo.1, lo.2), bv(hi.0, hi.1, hi.2))
}

fn slabs_for(b: &AABB, origin: (f64, f64, f64), dir: (f64, f64, f64)) -> Slabs {
    let o = [origin.0, origin.1, origin.2];
    let d = [dir.0, dir.1, dir.2];
    let mut s = Vec::new();
    for a in 0..3 {
        let inv = 1.0 / d[a];
        let t0 = (bf(b.min().get(a)) - o[a]) * inv;
        let t1 = (bf(b.max().get(a)) - o[a]) * inv;
        s.push(Slab::new(bs(inv), bs(t0), bs(t1)));
    }
    Slabs::new(s[0], s[1], s[2])
}

fn unit_box() -> AABB {
    bbox((-1.0, -1.0, -1.0), (1.0, 1.0, 1.0))
}

#[test]
fn box_keeps_its_corners() {
    let b = bbox((1.0, 2.0, 3.0), (4.0, 5.0, 6.0));
    assert_eq!(b.min(), bv(1.0, 2.0, 3.0));
    assert_eq!(b.max(), bv(4.0, 5.0, 6.0));
    let d = AABB::default();
    assert_eq!(d.min(), Vec3::zero());
    assert_eq!(d.max(), Vec3::zero());
}

#[test]
fn surrounding_box_takes_the_extremes() {
    let a = bbox((0.0, -1.0, 2.0), (1.0, 1.0, 3.0));
    let b = bbox((-2.0, 0.0, 2.5), (0.5, 4.0, 2.75));
    let u = surrounding_box(a, b);
    assert_eq!(u, bbox((-2.0, -1.0, 2.0), (1.0, 4.0, 3.0)));
}

#[test]
fn surrounding_box_is_commutative_and_tight() {
    let boxes = vec![
        bbox((0.0, 0.0, 0.0), (1.0, 1.0, 1.0)),
        bbox((-5.0, 2.0, -0.0), (-4.0, 3.0, 0.0)),
        bbox((0.25, 0.25, 0.25), (0.5, 0.5, 0.5)),
        bbox((-1e300, -1e-300, 7.0), (1e300, 1e-300, 7.0)),
    ];
    for a in boxes.iter() {
        for b in boxes.iter() {
            let u = surrounding_box(*a, *b);
            assert_eq!(u, surrounding_box(*b, *a));
            for c in 0..3 {
                let lo = bf(u.min().get(c));
                let hi = bf(u.max().get(c));
                assert!(lo <= bf(a.min().get(c)) && lo <= bf(b.min().get(c)));
                assert!(hi >= bf(a.max().get(c)) && hi >= bf(b.max().get(c)));
                assert!(lo == bf(a.min().get(c)) || lo == bf(b.min().get(c)));
                assert!(hi == bf(a.max().get(c)) || hi == bf(b.max().get(c)));
            }
            for c in boxes.iter() {
                assert_eq!(
                    surrounding_box(surrounding_box(*a, *b), *c),
                    surrounding_box(*a, surrounding_box(*b, *c))
                );
            }
        }
        assert_eq!(surrounding_box(*a, *a), *a);
    }
}

#[test]
fn ray_through_the_centre_hits() {
    let b = unit_box();
    let origins = [(-5.0, 0.0, 0.0), (3.0, 4.0, 5.0), (0.0, -9.0, 0.5), (2.0, 2.0, -7.0)];
    for o in origins.iter() {
        let d = (-o.0, -o.1, -o.2);
        let s = slabs_for(&b, *o, d);
        assert!(AABB::hit(&s, bs(0.001), bs(f64::INFINITY)));
    }
}

#[test]
fn ray_parallel_to_a_face_and_outside_misses() {
    let b = unit_box();
    let s = slabs_for(&b, (-5.0, 2.0, 0.0), (1.0, 0.0, 0.0));
    assert!(!AABB::hit(&s, bs(0.001), bs(f64::INFINITY)));
    let s = slabs_for(&b, (0.0, 0.0, -1.5), (0.0, 1.0, 0.0));
    assert!(!AABB::hit(&s, bs(0.001), bs(f64::INFINITY)));
    let s = slabs_for(&b, (-5.0, 0.5, 0.0), (1.0, 0.0, 0.0));
    assert!(AABB::hit(&s, bs(0.001), bs(f64::INFINITY)));
}

#[test]
fn slab_test_respects_the_bounds() {
    let b = unit_box();
    let s = slabs_for(&b, (-5.0, 0.0, 0.0), (1.0, 0.0, 0.0));
    assert!(AABB::hit(&s, bs(0.0), bs(10.0)));
    assert!(AABB::hit(&s, bs(0.0), bs(4.5)));
    assert!(!AABB::hit(&s, bs(0.0), bs(4.0)));
    assert!(!AABB::hit(&s, bs(6.0), bs(10.0)));
    assert!(AABB::hit(&s, bs(5.5), bs(10.0)));
    let back = slabs_for(&b, (-5.0, 0.0, 0.0), (-1.0, 0.0, 0.0));
    assert!(!AABB::hit(&back, bs(0.0), bs(f64::INFINITY)));
    assert!(AABB::hit(&back, bs(-10.0), bs(0.0)));
}

#[test]
fn slab_entry_and_exit_swap_against_the_axis() {
    let forward = Slab::new(bs(0.5), bs(1.0), bs(3.0));
    assert_eq!(forward.span(), (bs(1.0), bs(3.0)));
    let backward = Slab::new(bs(-0.5), bs(3.0), bs(1.0));
    assert_eq!(backward.span(), (bs(1.0), bs(3.0)));
    let minus_zero = Slab::new(bs(-0.0), bs(1.0), bs(3.0));
    assert_eq!(minus_zero.span(), (bs(1.0), bs(3.0)));
}

#[test]
fn ray_keeps_its_parts() {
    let r = Ray::new(bv(1.0, 2.0, 3.0), bv(0.0, 0.0, -1.0), bs(0.25));
    assert_eq!(r.origin(), bv(1.0, 2.0, 3.0));
    assert_eq!(r.direction(), bv(0.0, 0.0, -1.0));
    assert_eq!(r.time(), bs(0.25));
    let z = Ray::zero();
    assert_eq!(z.origin(), Vec3::zero());
    assert_eq!(z.direction(), Vec3::zero());
    assert_eq!(z.time(), bs(0.0));
}

#[test]
fn zero_direction_component_is_no_error() {
    let b = unit_box();
    for origin in [(0.5, -5.0, 0.5), (-0.5, 7.0, 0.25), (0.0, -3.0, 0.0)] {
        let dir = (0.0, if origin.1 < 0.0 { 1.0 } else { -1.0 }, 0.0);
        assert!(AABB::hit(&slabs_for(&b, origin, dir), bs(0.001), bs(f64::INFINITY)));
        let away = (-0.0, -dir.1, -0.0);
        assert!(!AABB::hit(&slabs_for(&b, origin, away), bs(0.001), bs(f64::INFINITY)));
    }
    for origin in [(1.5, -5.0, 0.5), (0.5, -5.0, -1.5), (-2.0, 7.0, 3.0)] {
        let dir = (0.0, if origin.1 < 0.0 { 1.0 } else { -1.0 }, 0.0);
        assert!(!AABB::hit(&slabs_for(&b, origin, dir), bs(0.001), bs(f64::INFINITY)));
    }
    let s = slabs_for(&b, (0.0, 0.0, 0.0), (0.0, 0.0, 0.0));
    assert!(AABB::hit(&s, bs(0.001), bs(f64::INFINITY)));
    let twice = slabs_for(&b, (0.0, 0.0, 0.0), (0.0, 0.0, 0.0));
    assert_eq!(AABB::hit(&s, bs(0.001), bs(5.0)), AABB::hit(&twice, bs(0.001), bs(5.0)));
}
