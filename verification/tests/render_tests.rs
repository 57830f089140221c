use raytracer::aabb::{enclosing_box, AABB};
use raytracer::aarect::{rectangle_hit, XYRectangle, XZRectangle, YZRectangle};
use raytracer::hit::{RotateY, Translate};
use raytracer::render::{image_row, pixel_index, row_range};
use raytracer::scalar::Scalar;
use raytracer::texture::ImageTexture;
use raytracer::vec3::Vec3;

fn rs(x: f64) -> Scalar {
    let b = x.to_bits() as i64;
    Scalar::from_key(b ^ ((((b >> 63) as u64) >> 1) as i64))
}

fn rv(x: f64, y: f64, z: f64) -> Vec3 {
    Vec3::new(rs(x), rs(y), rs(z))
}

#[test]
fn sixteen_workers_share_six_hundred_rows() {
    assert_eq!(row_range(0, 16, 600), (0, 37));
    assert_eq!(row_range(1, 16, 600), (37, 74));
    assert_eq!(row_range(14, 16, 600), (518, 555));
    assert_eq!(row_range(15, 16, 600), (555, 600));
}

#[test]
fn row_ranges_tile_the_image() {
    for workers in 1..20usize {
        for height in [0usize, 1, 5, 15, 16, 17, 225, 600] {
            let mut next = 0;
            for id in 0..workers {
                let (first, last) = row_range(id, workers, height);
                assert_eq!(first, next);
                assert!(first <= last && last <= height);
                next = last;
            }
            assert_eq!(next, height);
        }
    }
    assert_eq!(row_range(0, 1, 10), (0, 10));
    assert_eq!(row_range(3, 4, 2), (0, 2));
    assert_eq!(row_range(2, 4, 2), (0, 0));
}

#[test]
fn pixels_are_gathered_row_by_row() {
    assert_eq!(pixel_index(0, 0, 600, 600), 0);
    assert_eq!(pixel_index(599, 0, 600, 600), 599);
    assert_eq!(pixel_index(0, 1, 600, 600), 600);
    assert_eq!(pixel_index(3, 2, 4, 3), 11);
}

#[test]
fn image_rows_run_from_the_top() {
    assert_eq!(image_row(0, 600), 599);
    assert_eq!(image_row(599, 600), 0);
    assert_eq!(image_row(0, 1), 0);
}

#[test]
fn enclosing_box_is_tight_around_its_points() {
    let points = vec![rv(1.0, 5.0, -2.0), rv(-3.0, 6.0, 0.0), rv(2.0, -1.0, -0.5)];
    assert_eq!(enclosing_box(&points), AABB::new(rv(-3.0, -1.0, -2.0), rv(2.0, 6.0, 0.0)));
    assert_eq!(enclosing_box(&vec![rv(1.0, 2.0, 3.0)]), AABB::new(rv(1.0, 2.0, 3.0), rv(1.0, 2.0, 3.0)));
    let inf = f64::INFINITY;
    assert_eq!(enclosing_box(&Vec::new()), AABB::new(rv(inf, inf, inf), rv(-inf, -inf, -inf)));
}

#[test]
fn turned_box_encloses_the_turned_corners() {
    let (sin, cos) = (30.0f64.to_radians().sin(), 30.0f64.to_radians().cos());
    let mut corners = Vec::new();
    let mut xs = Vec::new();
    let mut zs = Vec::new();
    for x in [0.0, 2.0] {
        for y in [0.0, 1.0] {
            for z in [0.0, 4.0] {
                let (nx, nz) = (cos * x + sin * z, -sin * x + cos * z);
                xs.push(nx);
                zs.push(nz);
                corners.push(rv(nx, y, nz));
            }
        }
    }
    let t = RotateY::new(7, rs(sin), rs(cos), true, &corners);
    assert_eq!((t.ptr, t.sin_theta, t.cos_theta), (7, rs(sin), rs(cos)));
    let lo = |v: &Vec<f64>| v.iter().cloned().fold(f64::INFINITY, f64::min);
    let hi = |v: &Vec<f64>| v.iter().cloned().fold(f64::NEG_INFINITY, f64::max);
    let expected = AABB::new(rv(lo(&xs), 0.0, lo(&zs)), rv(hi(&xs), 1.0, hi(&zs)));
    assert_eq!(t.bounding_box(), Some(expected));
    let none = RotateY::new(7, rs(sin), rs(cos), false, &corners);
    assert_eq!(none.bounding_box(), None);
    assert_eq!(none.bbox, expected);
}

#[test]
fn translate_keeps_its_parts() {
    let t = Translate::new(4, rv(265.0, 0.0, 295.0));
    assert_eq!(t.ptr, 4);
    assert_eq!(t.offset, rv(265.0, 0.0, 295.0));
}

#[test]
fn default_image_has_no_pixels() {
    let t = ImageTexture::default();
    assert_eq!((t.width, t.height), (0, 0));
}

#[test]
fn rectangle_is_hit_within_its_ranges() {
    let inf = rs(f64::INFINITY);
    let q = XYRectangle::new(rs(3.0), rs(5.0), rs(1.0), rs(3.0), rs(-2.0), 4);
    assert_eq!((q.k, q.material), (rs(-2.0), 4));
    assert!(q.hit(rs(2.0), rs(4.0), rs(2.0), rs(0.001), inf));
    assert!(q.hit(rs(2.0), rs(3.0), rs(3.0), rs(0.001), inf));
    assert!(!q.hit(rs(2.0), rs(2.9), rs(2.0), rs(0.001), inf));
    assert!(!q.hit(rs(2.0), rs(4.0), rs(3.1), rs(0.001), inf));
    assert!(!q.hit(rs(0.0005), rs(4.0), rs(2.0), rs(0.001), inf));
    assert!(!q.hit(rs(2.0), rs(4.0), rs(2.0), rs(0.001), rs(1.5)));
    assert!(q.hit(rs(f64::NAN), rs(4.0), rs(2.0), rs(0.001), inf));
    let w = XZRectangle::new(rs(0.0), rs(555.0), rs(0.0), rs(555.0), rs(554.0), 1);
    assert!(w.hit(rs(1.0), rs(0.0), rs(555.0), rs(0.001), inf));
    assert!(!w.hit(rs(1.0), rs(-0.1), rs(5.0), rs(0.001), inf));
    let s = YZRectangle::new(rs(0.0), rs(555.0), rs(0.0), rs(555.0), rs(0.0), 2);
    assert!(s.hit(rs(1.0), rs(10.0), rs(20.0), rs(0.001), inf));
    assert!(!s.hit(rs(1.0), rs(10.0), rs(600.0), rs(0.001), inf));
    assert!(rectangle_hit(rs(1.0), rs(0.5), rs(0.5), rs(0.0), rs(2.0), rs(0.0), rs(1.0), rs(0.0), rs(1.0)));
}
