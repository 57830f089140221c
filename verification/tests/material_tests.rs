use raytracer::constant_medium::ConstantMedium;
use raytracer::hit::HitRecord;
use raytracer::integrator::ray_color;
use raytracer::material::{
    Dielectric, DiffuseLight, Isotropic, Lambertian, Material, Metal, Scatter,
};
use raytracer::ray::Ray;
use raytracer::scalar::Scalar;
use raytracer::texture::{CheckerTexture, ImageTexture, NoiseTexture, SolidColor, Texture};
use raytracer::vec3::Vec3;

fn ms(x: f64) -> Scalar {
    let b = x.to_bits() as i64;
    Scalar::from_key(b ^ ((((b >> 63) as u64) >> 1) as i64))
}

fn mf(s: Scalar) -> f64 {
    let k = s.key();
    f64::from_bits((k ^ ((((k >> 63) as u64) >> 1) as i64)) as u64)
}

fn mv(x: f64, y: f64, z: f64) -> Vec3 {
    Vec3::new(ms(x), ms(y), ms(z))
}

fn arr(v: Vec3) -> [f64; 3] {
    [mf(v.x()), mf(v.y()), mf(v.z())]
}

fn incoming() -> Ray {
    Ray::new(mv(0.0, 0.0, 0.0), mv(0.0, 0.0, -1.0), ms(0.75))
}

fn surface() -> HitRecord {
    let mut h = HitRecord::new(2);
    h.p = mv(0.0, 0.0, -0.5);
    h.normal = mv(0.0, 0.0, 1.0);
    h.t = ms(0.5);
    h
}

fn solid(t: &Texture) -> Vec3 {
    match t {
        Texture::Solid(s) => s.value(),
        _ => panic!("not a solid colour"),
    }
}

#[test]
fn lambertian_scatters_along_the_candidate() {
    let m = Lambertian::new(mv(0.1, 0.2, 0.3));
    assert_eq!(solid(&m.albedo), mv(0.1, 0.2, 0.3));
    let s = m.scatter(&incoming(), &surface(), mv(0.3, 0.1, 1.2), mv(0.1, 0.2, 0.3)).unwrap();
    assert_eq!(s.attenuation, mv(0.1, 0.2, 0.3));
    assert_eq!(s.scattered, Ray::new(mv(0.0, 0.0, -0.5), mv(0.3, 0.1, 1.2), ms(0.75)));
}

#[test]
fn lambertian_falls_back_to_the_normal() {
    let m = Lambertian::new_texture(Texture::Solid(SolidColor::new(mv(0.5, 0.5, 0.5))));
    let s = m.scatter(&incoming(), &surface(), mv(1e-9, -1e-9, 0.0), mv(0.5, 0.5, 0.5)).unwrap();
    assert_eq!(s.scattered.direction(), mv(0.0, 0.0, 1.0));
    let s = m.scatter(&incoming(), &surface(), mv(1e-9, -1e-7, 0.0), mv(0.5, 0.5, 0.5)).unwrap();
    assert_eq!(s.scattered.direction(), mv(1e-9, -1e-7, 0.0));
}

#[test]
fn metal_fuzz_is_at_most_one() {
    assert_eq!(Metal::new(mv(0.8, 0.6, 0.2), ms(0.3)).fuzzy, ms(0.3));
    assert_eq!(Metal::new(mv(0.8, 0.6, 0.2), ms(1.0)).fuzzy, ms(1.0));
    assert_eq!(Metal::new(mv(0.8, 0.6, 0.2), ms(7.0)).fuzzy, ms(1.0));
    assert_eq!(Metal::new(mv(0.8, 0.6, 0.2), ms(0.0)).fuzzy, ms(0.0));
    assert_eq!(Metal::new(mv(0.8, 0.6, 0.2), ms(f64::NAN)).fuzzy, ms(1.0));
    assert_eq!(Metal::new(mv(0.8, 0.6, 0.2), ms(0.3)).albedo, mv(0.8, 0.6, 0.2));
}

#[test]
fn metal_absorbs_rays_into_the_surface() {
    let m = Metal::new(mv(0.8, 0.6, 0.2), ms(0.0));
    let out = m.scatter(&incoming(), &surface(), mv(0.0, 0.0, 1.0), ms(1.0)).unwrap();
    assert_eq!(
        out,
        Scatter {
            attenuation: mv(0.8, 0.6, 0.2),
            scattered: Ray::new(mv(0.0, 0.0, -0.5), mv(0.0, 0.0, 1.0), ms(0.75)),
        }
    );
    assert!(m.scatter(&incoming(), &surface(), mv(0.0, 0.3, -0.1), ms(-0.1)).is_none());
    assert!(m.scatter(&incoming(), &surface(), mv(0.0, 0.3, 0.0), ms(0.0)).is_none());
    assert!(m.scatter(&incoming(), &surface(), mv(0.0, 0.3, 0.0), ms(-0.0)).is_none());
}

#[test]
fn dielectric_reflects_above_the_critical_angle() {
    let ior: f64 = 1.5;
    for step in 0..100 {
        let cos_theta: f64 = 0.7 * (step as f64) / 100.0;
        let sin_theta = (1.0 - cos_theta * cos_theta).sqrt();
        let bend = ior * sin_theta;
        assert!(bend > 1.0);
        for sample in [0.0, 0.5, 0.999999] {
            for reflectance in [0.0, 0.04, 1.0] {
                assert!(Dielectric::reflects(ms(bend), ms(reflectance), ms(sample)));
                let g = Dielectric::new(ms(ior));
                let s = g
                    .scatter(
                        &incoming(),
                        &surface(),
                        mv(0.0, 1.0, 0.0),
                        mv(f64::NAN, f64::NAN, f64::NAN),
                        ms(bend),
                        ms(reflectance),
                        ms(sample),
                    )
                    .unwrap();
                assert_eq!(s.scattered.direction(), mv(0.0, 1.0, 0.0));
                assert_eq!(s.attenuation, Vec3::ones());
            }
        }
    }
}

#[test]
fn dielectric_refracts_unless_the_sample_says_otherwise() {
    let g = Dielectric::new(ms(1.5));
    assert_eq!(g.ref_idx, ms(1.5));
    assert_eq!(mf(g.refraction_ratio(true, ms(1.0 / 1.5))), 1.0 / 1.5);
    assert_eq!(mf(g.refraction_ratio(false, ms(1.0 / 1.5))), 1.5);
    assert!(!Dielectric::reflects(ms(0.4), ms(0.04), ms(0.5)));
    assert!(Dielectric::reflects(ms(0.4), ms(0.6), ms(0.5)));
    assert!(!Dielectric::reflects(ms(1.0), ms(0.5), ms(0.5)));
    let s = g
        .scatter(
            &incoming(),
            &surface(),
            mv(0.0, 1.0, 0.0),
            mv(0.0, 0.0, -1.0),
            ms(0.4),
            ms(0.04),
            ms(0.5),
        )
        .unwrap();
    assert_eq!(s.scattered, Ray::new(mv(0.0, 0.0, -0.5), mv(0.0, 0.0, -1.0), ms(0.75)));
    assert_eq!(arr(s.attenuation), [1.0, 1.0, 1.0]);
}

#[test]
fn light_emits_and_never_scatters() {
    let l = DiffuseLight::new(mv(4.0, 4.0, 4.0));
    assert!(l.scatter(&incoming(), &surface()).is_none());
    assert_eq!(Material::DiffuseLight(l).emitted(), mv(4.0, 4.0, 4.0));
    assert_eq!(Material::Metal(Metal::new(mv(1.0, 1.0, 1.0), ms(0.0))).emitted(), Vec3::zero());
    assert_eq!(Material::Dielectric(Dielectric::new(ms(1.5))).emitted(), Vec3::zero());
    assert_eq!(Material::Lambertian(Lambertian::new(mv(1.0, 0.0, 0.0))).emitted(), Vec3::zero());
    assert_eq!(Material::Isotropic(Isotropic::new(mv(1.0, 0.0, 0.0))).emitted(), Vec3::zero());
}

#[test]
fn isotropic_scatters_anywhere() {
    let m = Isotropic::new(mv(0.9, 0.9, 0.9));
    assert_eq!(solid(&m.albedo), mv(0.9, 0.9, 0.9));
    let m = Isotropic::new_texture(Texture::Solid(SolidColor::new(mv(0.2, 0.2, 0.2))));
    let s = m.scatter(&incoming(), &surface(), mv(0.1, -0.2, 0.3), mv(0.2, 0.2, 0.2)).unwrap();
    assert_eq!(s.attenuation, mv(0.2, 0.2, 0.2));
    assert_eq!(s.scattered, Ray::new(mv(0.0, 0.0, -0.5), mv(0.1, -0.2, 0.3), ms(0.75)));
}

#[test]
fn medium_segment_is_clipped_to_the_bounds() {
    let inf = ms(f64::INFINITY);
    assert_eq!(ConstantMedium::segment(ms(2.0), ms(5.0), ms(0.001), inf), Some((ms(2.0), ms(5.0))));
    assert_eq!(ConstantMedium::segment(ms(-2.0), ms(5.0), ms(0.001), inf), Some((ms(0.001), ms(5.0))));
    assert_eq!(ConstantMedium::segment(ms(2.0), ms(5.0), ms(0.001), ms(3.0)), Some((ms(2.0), ms(3.0))));
    assert_eq!(ConstantMedium::segment(ms(2.0), ms(5.0), ms(0.001), ms(2.0)), None);
    assert_eq!(ConstantMedium::segment(ms(2.0), ms(5.0), ms(6.0), inf), None);
    assert_eq!(ConstantMedium::segment(ms(-4.0), ms(-1.0), ms(-3.0), inf), Some((ms(0.0), ms(-1.0))));
    assert_eq!(ConstantMedium::segment(ms(-4.0), ms(3.0), ms(-3.0), inf), Some((ms(0.0), ms(3.0))));
}

#[test]
fn medium_scatters_within_the_free_path() {
    let m = ConstantMedium::new(3, ms(-1.0 / 0.01), 8);
    assert_eq!((m.boundary, m.phase_function, m.neg_inv_density), (3, 8, ms(-100.0)));
    let h = m.hit(ms(1.0), ms(2.0), ms(3.5), mv(1.0, 2.0, 3.0)).unwrap();
    assert_eq!(h.t, ms(3.5));
    assert_eq!(h.p, mv(1.0, 2.0, 3.0));
    assert_eq!(h.normal, mv(1.0, 0.0, 0.0));
    assert!(h.front_face);
    assert_eq!(h.material, 8);
    assert!(m.hit(ms(2.0), ms(2.0), ms(3.5), mv(1.0, 2.0, 3.0)).is_some());
    assert!(m.hit(ms(2.5), ms(2.0), ms(3.5), mv(1.0, 2.0, 3.0)).is_none());
}

#[test]
fn thin_medium_lets_rays_through_and_dense_medium_scatters_at_once() {
    let (enter, exit) = ConstantMedium::segment(ms(2.0), ms(4.0), ms(0.001), ms(f64::INFINITY)).unwrap();
    let ray_length = 1.0;
    let inside = (mf(exit) - mf(enter)) * ray_length;
    for step in 1..1000 {
        let sample: f64 = step as f64 / 1000.0;
        let thin = ConstantMedium::new(0, ms(-1.0 / 1e-12), 1);
        let free = mf(thin.neg_inv_density) * sample.ln();
        let t = mf(enter) + free / ray_length;
        assert!(thin.hit(ms(free), ms(inside), ms(t), mv(0.0, 0.0, -t)).is_none());
        let dense = ConstantMedium::new(0, ms(-1.0 / 1e12), 1);
        let free = mf(dense.neg_inv_density) * sample.ln();
        let t = mf(enter) + free / ray_length;
        let h = dense.hit(ms(free), ms(inside), ms(t), mv(0.0, 0.0, -t)).unwrap();
        assert!((mf(h.t) - mf(enter)).abs() < 1e-9);
    }
}

#[test]
fn checker_picks_by_the_sign_of_the_sines() {
    let c = CheckerTexture::new_rgb(mv(0.2, 0.3, 0.1), mv(0.9, 0.9, 0.9));
    assert_eq!(solid(c.value(ms(0.5))), mv(0.2, 0.3, 0.1));
    assert_eq!(solid(c.value(ms(0.0))), mv(0.2, 0.3, 0.1));
    assert_eq!(solid(c.value(ms(-0.0))), mv(0.2, 0.3, 0.1));
    assert_eq!(solid(c.value(ms(-0.5))), mv(0.9, 0.9, 0.9));
    let p: [f64; 3] = [0.1, 0.2, 0.4];
    let sines = (10.0 * p[0]).sin() * (10.0 * p[1]).sin() * (10.0 * p[2]).sin();
    assert!(sines < 0.0);
    assert_eq!(solid(c.value(ms(sines))), mv(0.9, 0.9, 0.9));
}

#[test]
fn nested_checkers_resolve_to_a_leaf() {
    let inner = CheckerTexture::new_rgb(mv(1.0, 0.0, 0.0), mv(0.0, 1.0, 0.0));
    let outer = Texture::Checker(CheckerTexture::new(
        Texture::Checker(inner),
        Texture::Noise(NoiseTexture::new(4, ms(2.0))),
    ));
    assert_eq!(solid(outer.resolve(ms(0.25))), mv(1.0, 0.0, 0.0));
    match outer.resolve(ms(-0.25)) {
        Texture::Noise(n) => assert_eq!((n.noise, n.scale), (4, ms(2.0))),
        _ => panic!("the odd cell is the noise"),
    }
    let plain = Texture::Solid(SolidColor::new(SolidColor::new_rgb(ms(0.1), ms(0.2), ms(0.3))));
    assert_eq!(solid(plain.resolve(ms(-1.0))), mv(0.1, 0.2, 0.3));
}

#[test]
fn image_needs_enough_bytes() {
    assert!(ImageTexture::new(2, 2, vec![0; 12]).is_some());
    assert!(ImageTexture::new(2, 2, vec![0; 13]).is_some());
    assert!(ImageTexture::new(2, 2, vec![0; 11]).is_none());
    assert!(ImageTexture::new(0, 0, Vec::new()).is_some());
    assert!(ImageTexture::new(u32::MAX, u32::MAX, vec![0; 12]).is_none());
}

#[test]
fn image_lookup_takes_the_nearest_pixel() {
    let data: Vec<u8> = (0..18).collect();
    let t = ImageTexture::new(3, 2, data).unwrap();
    assert_eq!((t.width, t.height), (3, 2));
    assert_eq!(t.value(0, 0), (0, 1, 2));
    assert_eq!(t.value(1, 0), (3, 4, 5));
    assert_eq!(t.value(2, 0), (6, 7, 8));
    assert_eq!(t.value(0, 1), (9, 10, 11));
    assert_eq!(t.value(2, 1), (15, 16, 17));
    assert_eq!(t.value(3, 1), (15, 16, 17));
    assert_eq!(t.value(1, 2), (12, 13, 14));
    assert_eq!(t.value(usize::MAX, usize::MAX), (15, 16, 17));
    let (u, v): (f64, f64) = (0.5, 0.25);
    let i = (u * t.width as f64).floor() as usize;
    let j = ((1.0 - v) * t.height as f64).floor() as usize;
    assert_eq!(t.value(i, j), (12, 13, 14));
}

fn world_of_one_light(r: Ray) -> Option<HitRecord> {
    if mf(r.direction().z()) < 0.0 {
        let mut h = HitRecord::new(if mf(r.origin().z()) < -5.0 { 1 } else { 0 });
        h.t = ms(1.0);
        h.p = Vec3::new(r.origin().x(), r.origin().y(), ms(mf(r.origin().z()) - 3.0));
        Some(h)
    } else {
        None
    }
}

fn always_forward(r: Ray, h: HitRecord) -> Option<Scatter> {
    if h.material == 1 {
        None
    } else {
        Some(Scatter { attenuation: mv(0.5, 0.25, 0.125), scattered: Ray::new(h.p, r.direction(), r.time()) })
    }
}

fn blend(e: Vec3, a: Vec3, i: Vec3) -> Vec3 {
    let (e, a, i) = (arr(e), arr(a), arr(i));
    mv(e[0] + a[0] * i[0], e[1] + a[1] * i[1], e[2] + a[2] * i[2])
}

fn table() -> Vec<Material> {
    vec![
        Material::Lambertian(Lambertian::new(mv(0.5, 0.25, 0.125))),
        Material::DiffuseLight(DiffuseLight::new(mv(8.0, 8.0, 8.0))),
    ]
}

#[test]
fn exhausted_depth_is_black() {
    let down = Ray::new(mv(0.0, 0.0, 0.0), mv(0.0, 0.0, -1.0), ms(0.0));
    let up = Ray::new(mv(0.0, 0.0, 0.0), mv(0.0, 0.0, 1.0), ms(0.0));
    let bg = mv(0.7, 0.8, 1.0);
    for depth in [0, -1, i32::MIN] {
        assert_eq!(ray_color(down, &bg, &table(), &world_of_one_light, &always_forward, &blend, depth), Vec3::zero());
        assert_eq!(ray_color(up, &bg, &table(), &world_of_one_light, &always_forward, &blend, depth), Vec3::zero());
    }
}

#[test]
fn a_miss_sees_the_background() {
    let up = Ray::new(mv(0.0, 0.0, 0.0), mv(0.0, 0.0, 1.0), ms(0.0));
    let bg = mv(0.7, 0.8, 1.0);
    assert_eq!(ray_color(up, &bg, &table(), &world_of_one_light, &always_forward, &blend, 50), bg);
}

#[test]
fn light_is_gathered_bounce_by_bounce() {
    let down = Ray::new(mv(0.0, 0.0, 0.0), mv(0.0, 0.0, -1.0), ms(0.0));
    let bg = mv(0.7, 0.8, 1.0);
    let c = ray_color(down, &bg, &table(), &world_of_one_light, &always_forward, &blend, 50);
    assert_eq!(arr(c), [0.5 * 0.5 * 8.0, 0.25 * 0.25 * 8.0, 0.125 * 0.125 * 8.0]);
    let c = ray_color(down, &bg, &table(), &world_of_one_light, &always_forward, &blend, 3);
    assert_eq!(arr(c), [2.0, 0.5, 0.125]);
    let c = ray_color(down, &bg, &table(), &world_of_one_light, &always_forward, &blend, 2);
    assert_eq!(arr(c), [0.0, 0.0, 0.0]);
    let c = ray_color(down, &bg, &table(), &world_of_one_light, &always_forward, &blend, 1);
    assert_eq!(arr(c), [0.0, 0.0, 0.0]);
    let from_light = Ray::new(mv(0.0, 0.0, -6.0), mv(0.0, 0.0, -1.0), ms(0.0));
    let c = ray_color(from_light, &bg, &table(), &world_of_one_light, &always_forward, &blend, 1);
    assert_eq!(arr(c), [8.0, 8.0, 8.0]);
}

#[test]
fn the_same_query_gives_the_same_light() {
    let bg = mv(0.7, 0.8, 1.0);
    for depth in 0..6 {
        for z in [-1.0, 1.0] {
            let r = Ray::new(mv(0.5, 0.5, 0.0), mv(0.0, 0.0, z), ms(0.25));
            let a = ray_color(r, &bg, &table(), &world_of_one_light, &always_forward, &blend, depth);
            let b = ray_color(r, &bg, &table(), &world_of_one_light, &always_forward, &blend, depth);
            assert_eq!(a, b);
        }
    }
}
