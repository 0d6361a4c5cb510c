use ray_tracer::material::{Diffusor, Material, Reflector, Refractor};
use ray_tracer::ray_tracing::HitRecord;
use ray_tracer::scalar::Scalar;
use ray_tracer::vec_math::Vec3;

fn s(x: f64) -> Scalar {
    Scalar::from_bits(x.to_bits())
}

fn f(x: Scalar) -> f64 {
    f64::from_bits(x.to_bits())
}

fn v(a: [f64; 3]) -> Vec3 {
    Vec3::new(s(a[0]), s(a[1]), s(a[2]))
}

fn parts(a: &Vec3) -> [f64; 3] {
    [f(a.data[0]), f(a.data[1]), f(a.data[2])]
}

fn dot(a: [f64; 3], b: [f64; 3]) -> f64 {
    a[0] * b[0] + a[1] * b[1] + a[2] * b[2]
}

fn scaled(a: [f64; 3], k: f64) -> [f64; 3] {
    [a[0] * k, a[1] * k, a[2] * k]
}

fn sum(a: [f64; 3], b: [f64; 3]) -> [f64; 3] {
    [a[0] + b[0], a[1] + b[1], a[2] + b[2]]
}

fn unit(a: [f64; 3]) -> [f64; 3] {
    scaled(a, 1.0 / dot(a, a).sqrt())
}

fn reflect(d: [f64; 3], n: [f64; 3]) -> [f64; 3] {
    sum(d, scaled(n, -2.0 * dot(d, n)))
}

fn refract(d: [f64; 3], n: [f64; 3], ratio: f64) -> [f64; 3] {
    let cos_theta = (-dot(d, n)).min(1.0);
    let across = scaled(sum(d, scaled(n, cos_theta)), ratio);
    let along = scaled(n, -((1.0 - dot(across, across)).abs().sqrt()));
    sum(across, along)
}

fn reflectance(cosine: f64, ratio: f64) -> f64 {
    let r0 = ((1.0 - ratio) / (1.0 + ratio)).powi(2);
    r0 + (1.0 - r0) * (1.0 - cosine).powi(5)
}

fn record_at(point: [f64; 3], outward: [f64; 3], facing: f64, material: Material) -> HitRecord {
    HitRecord::new(v(point), v(outward), material, s(facing), s(1.0))
}

fn matte() -> Diffusor {
    Diffusor { color: v([0.4, 0.2, 0.1]) }
}

#[test]
fn diffusor_scatters_along_the_sample() {
    let m = matte();
    let record = record_at([1.0, 2.0, 3.0], [0.0, 1.0, 0.0], -1.0, Material::Diffuse(m));
    let (color, ray) = m.scatter(&record, v([0.3, 0.4, -0.5])).unwrap();
    assert_eq!(parts(&color), [0.4, 0.2, 0.1]);
    assert_eq!(parts(&ray.origin), [1.0, 2.0, 3.0]);
    assert_eq!(parts(&ray.direction), [0.3, 0.4, -0.5]);
}

#[test]
fn diffusor_falls_back_to_the_normal() {
    let m = matte();
    let record = record_at([1.0, 2.0, 3.0], [0.0, 1.0, 0.0], -1.0, Material::Diffuse(m));
    let (color, ray) = m.scatter(&record, v([1e-9, -1e-9, 0.0])).unwrap();
    assert_eq!(parts(&color), [0.4, 0.2, 0.1]);
    assert_eq!(parts(&ray.origin), [1.0, 2.0, 3.0]);
    assert_eq!(parts(&ray.direction), [0.0, 1.0, 0.0]);
}

#[test]
fn diffusor_falls_back_to_the_turned_normal_inside() {
    let m = matte();
    let record = record_at([0.0, 0.0, 0.0], [0.0, 1.0, 0.0], 1.0, Material::Diffuse(m));
    let (_, ray) = m.scatter(&record, v([0.0, 0.0, 0.0])).unwrap();
    assert_eq!(parts(&ray.direction), [0.0, -1.0, 0.0]);
}

fn next(state: &mut u64) -> f64 {
    *state = state.wrapping_mul(6364136223846793005).wrapping_add(1442695040888963407);
    ((*state >> 11) as f64) / ((1u64 << 53) as f64) * 2.0 - 1.0
}

#[test]
fn diffusor_never_scatters_into_the_surface() {
    let m = matte();
    let mut state = 42u64;
    for _ in 0..2000 {
        let normal = unit([next(&mut state), next(&mut state), next(&mut state)]);
        let record = record_at([0.0, 0.0, 0.0], normal, -1.0, Material::Diffuse(m));
        let drawn = [next(&mut state), next(&mut state), next(&mut state)];
        let sample = Vec3::random_in_hemisphere(v(drawn), s(dot(drawn, normal)));
        let (_, ray) = m.scatter(&record, sample).unwrap();
        assert!(dot(parts(&ray.direction), normal) >= 0.0);
    }
}

fn mirror() -> Reflector {
    Reflector { color: v([0.7, 0.6, 0.5]), fuzz_coeff: s(0.0) }
}

#[test]
fn reflector_mirrors_a_head_on_ray_back() {
    let m = mirror();
    let incoming = [0.0, 0.0, -3.0];
    let normal = [0.0, 0.0, 1.0];
    let record = record_at([0.0, 0.0, 1.0], normal, dot(incoming, normal), Material::Reflective(m));
    let fuzz = scaled([0.2, 0.1, 0.3], f(m.fuzz_coeff));
    let direction = sum(reflect(unit(incoming), parts(&record.normal)), fuzz);
    let alignment = dot(direction, parts(&record.normal));
    let (color, ray) = m.scatter(&record, v(direction), s(alignment)).unwrap();
    assert_eq!(parts(&color), [0.7, 0.6, 0.5]);
    assert_eq!(parts(&ray.origin), [0.0, 0.0, 1.0]);
    assert_eq!(parts(&ray.direction), [0.0, 0.0, 1.0]);
    assert_eq!(parts(&ray.direction), scaled(unit(incoming), -1.0));
}

#[test]
fn reflector_keeps_the_angle() {
    let m = mirror();
    let normal = [0.0, 1.0, 0.0];
    let record = record_at([0.0, 0.0, 0.0], normal, -1.0, Material::Reflective(m));
    let direction = reflect([0.6, -0.8, 0.0], normal);
    let (_, ray) = m.scatter(&record, v(direction), s(dot(direction, normal))).unwrap();
    let got = parts(&ray.direction);
    assert!((got[0] - 0.6).abs() < 1e-15 && (got[1] - 0.8).abs() < 1e-15 && got[2] == 0.0);
}

#[test]
fn reflector_swallows_a_ray_that_points_into_the_surface() {
    let m = mirror();
    let record = record_at([0.0, 0.0, 0.0], [0.0, 1.0, 0.0], -1.0, Material::Reflective(m));
    assert!(m.scatter(&record, v([1.0, -0.1, 0.0]), s(-0.1)).is_none());
    assert!(m.scatter(&record, v([1.0, 0.0, 0.0]), s(0.0)).is_none());
    assert!(m.scatter(&record, v([1.0, 0.0, 0.0]), s(-0.0)).is_none());
    assert!(m.scatter(&record, v([1.0, 0.0, 0.0]), s(f64::NAN)).is_none());
    assert!(m.scatter(&record, v([1.0, 1e-300, 0.0]), s(1e-300)).is_some());
}

fn glass(index: f64) -> Refractor {
    Refractor { color: v([1.0, 1.0, 0.9]), fuzz_coeff: s(0.0), refr_coeff: s(index) }
}

#[test]
fn refraction_ratio_is_inverted_for_a_ray_that_enters() {
    let m = glass(1.5);
    let entering = m.refraction_ratio(true, |index| s(1.0 / f(index)));
    assert_eq!(f(entering), 1.0 / 1.5);
    let leaving = m.refraction_ratio(false, |_| -> Scalar { panic!("inverted for a leaving ray") });
    assert_eq!(f(leaving), 1.5);
}

#[test]
fn refractor_reflects_where_no_refracted_ray_exists() {
    assert!(Refractor::reflects(s(1.2), s(0.0), || -> Scalar { panic!("drawn for nothing") }));
    assert!(Refractor::reflects(s(f64::INFINITY), s(0.0), || -> Scalar { panic!("drawn") }));
}

#[test]
fn refractor_reflects_by_chance_otherwise() {
    assert!(Refractor::reflects(s(0.5), s(0.3), || s(0.29)));
    assert!(!Refractor::reflects(s(0.5), s(0.3), || s(0.3)));
    assert!(!Refractor::reflects(s(0.5), s(0.3), || s(0.9)));
    assert!(!Refractor::reflects(s(1.0), s(0.0), || s(0.0)));
    assert!(Refractor::reflects(s(1.0), s(1.0), || s(0.999)));
    assert!(!Refractor::reflects(s(f64::NAN), s(0.3), || s(0.9)));
}

#[test]
fn refractor_draws_once_when_it_has_to() {
    let drawn = std::cell::Cell::new(0u32);
    let got = Refractor::reflects(s(0.9), s(0.5), || {
        drawn.set(drawn.get() + 1);
        s(0.7)
    });
    assert!(!got);
    assert_eq!(drawn.get(), 1);
}

#[test]
fn refractor_never_swallows() {
    let m = glass(1.5);
    let record = record_at([1.0, 2.0, 3.0], [0.0, 1.0, 0.0], -1.0, Material::Refractive(m));
    let (color, ray) = m.scatter(&record, v([0.1, -0.9, 0.2])).unwrap();
    assert_eq!(parts(&color), [1.0, 1.0, 0.9]);
    assert_eq!(parts(&ray.origin), [1.0, 2.0, 3.0]);
    assert_eq!(parts(&ray.direction), [0.1, -0.9, 0.2]);
}

#[test]
fn refractor_of_index_one_lets_a_ray_pass_unbent() {
    let m = glass(1.0);
    let mut state = 7u64;
    for _ in 0..500 {
        let normal = unit([next(&mut state), next(&mut state), next(&mut state)]);
        let mut incoming = unit([next(&mut state), next(&mut state), next(&mut state)]);
        if dot(incoming, normal) > 0.0 {
            incoming = scaled(incoming, -1.0);
        }
        let record = record_at([0.0, 0.0, 0.0], normal, dot(incoming, normal), Material::Refractive(m));
        let ratio = f(m.refraction_ratio(record.front_face, |index| s(1.0 / f(index))));
        assert_eq!(ratio, 1.0);
        let cos_theta = (-dot(incoming, normal)).min(1.0);
        let sin_theta = (1.0 - cos_theta * cos_theta).sqrt();
        let mirrored = Refractor::reflects(
            s(ratio * sin_theta),
            s(reflectance(cos_theta, ratio)),
            || s(0.9999999),
        );
        if mirrored {
            continue;
        }
        let direction = refract(incoming, parts(&record.normal), ratio);
        let (_, ray) = m.scatter(&record, v(direction)).unwrap();
        let got = parts(&ray.direction);
        for k in 0..3 {
            assert!((got[k] - incoming[k]).abs() < 1e-7, "{:?} against {:?}", got, incoming);
        }
    }
}
