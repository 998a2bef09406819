//! Scene-level behaviour: BVH construction and traversal against a
//! brute-force list, pruning, translation, shading terminals and the
//! sampling mixture.
use solstrale::geo::{Ray, Uv, Vec3};
use solstrale::hittable::bvh::Bvh;
use solstrale::hittable::constant_medium::ConstantMedium;
use solstrale::hittable::hittable_list::HittableList;
use solstrale::hittable::motion_blur::MotionBlur;
use solstrale::hittable::quad::Quad;
use solstrale::hittable::rotation_y::RotationY;
use solstrale::hittable::sphere::Sphere;
use solstrale::hittable::translation::Translation;
use solstrale::hittable::triangle::Triangle;
use solstrale::hittable::Hittables;
use solstrale::interval::Interval;
use solstrale::material::{HitRecord, Material, ScatterRecord};
use solstrale::pdf::{HittablePdf, Pdfs, SpherePdf};
use solstrale::renderer::shader::{
    scatter_radiance, PathTracingShader, Shaders,
};
use solstrale::renderer::Renderer;
use solstrale::rng::RngState;
use solstrale::UNIT;

/// Fixed-point value of a small float, for readable fixtures.
fn u(x: f64) -> i64 {
    (x * 65536.0).round() as i64
}

fn v3(x: f64, y: f64, z: f64) -> Vec3 {
    Vec3::new(u(x), u(y), u(z))
}

/// A simple diffuse-ish test material: fixed attenuation, samples the
/// uniform sphere, constant scattering density.
struct TestMat {
    emit: Vec3,
    attenuation: Option<Vec3>,
}

impl Material for TestMat {
    fn emitted(&self, _rec: &HitRecord) -> Vec3 {
        self.emit
    }

    fn scatter(&self, _r_in: &Ray, _rec: &HitRecord, _rng: &mut RngState) -> Option<ScatterRecord> {
        self.attenuation.map(|attenuation| ScatterRecord {
            attenuation,
            skip_pdf_ray: None,
            pdf: Pdfs::Uniform(SpherePdf {}),
        })
    }

    fn scattering_pdf(&self, _rec: &HitRecord, _scattered: &Ray) -> i64 {
        UNIT / 4
    }
}

fn tri(ax: f64, ay: f64, az: f64, b: (f64, f64, f64), c: (f64, f64, f64)) -> Triangle {
    Triangle::new(v3(ax, ay, az), v3(b.0, b.1, b.2), v3(c.0, c.1, c.2), 0)
}

/// A deterministic spread of triangles for randomized-style fixtures.
fn fixture_triangles(n: u64) -> Vec<Triangle> {
    let mut out = Vec::new();
    let mut s: u64 = 12345;
    for _ in 0..n {
        // A tiny linear congruential walk keeps the fixture spread out
        // but reproducible.
        s = s.wrapping_mul(6364136223846793005).wrapping_add(1442695040888963407);
        let x = ((s >> 33) % 32) as f64 - 16.0;
        let y = ((s >> 21) % 32) as f64 - 16.0;
        let z = ((s >> 11) % 16) as f64;
        out.push(tri(
            x,
            y,
            z,
            (x + 1.5, y + 0.25, z),
            (x + 0.5, y + 1.5, z + 0.5),
        ));
    }
    out
}

fn whole_ray_interval() -> Interval {
    Interval::new(65, 0x8000_0000)
}

#[test]
fn bvh_root_box_is_union_of_leaf_boxes() {
    let tris = fixture_triangles(13);
    let mut min = [i64::MAX; 3];
    let mut max = [i64::MIN; 3];
    for t in &tris {
        let b = t.bounding_box();
        for (a, (mn, mx)) in [
            (0usize, (b.min.x, b.max.x)),
            (1, (b.min.y, b.max.y)),
            (2, (b.min.z, b.max.z)),
        ] {
            min[a] = min[a].min(mn);
            max[a] = max[a].max(mx);
        }
    }
    let bvh = Bvh::new(tris);
    let root = bvh.bounding_box();
    assert_eq!(root.min, Vec3::new(min[0], min[1], min[2]));
    assert_eq!(root.max, Vec3::new(max[0], max[1], max[2]));
}

#[test]
fn bvh_matches_brute_force_scan() {
    let tris = fixture_triangles(17);
    let mut list = HittableList::create();
    if let Hittables::HittableListType(l) = &mut list {
        for t in &tris {
            l.add(Hittables::TriangleType(t.clone()));
        }
    }
    let bvh = Bvh::new(tris);
    let itv = whole_ray_interval();
    let mut hits = 0;
    let mut misses = 0;
    for ox in [-12i64, -4, 0, 4, 12] {
        for oy in [-9i64, -1, 3, 11] {
            for (dx, dy, dz) in [(0i64, 0i64, 1i64), (1, 1, 8), (-1, 2, 10), (0, 0, -1)] {
                let ray = Ray::new(
                    Vec3::new(ox * UNIT, oy * UNIT, -3 * UNIT),
                    Vec3::new(dx * UNIT, dy * UNIT, dz * UNIT),
                    0,
                );
                let a = bvh.hit(&ray, &itv);
                let b = list.hit(&ray, &itv);
                assert_eq!(a, b);
                if a.is_some() {
                    hits += 1;
                } else {
                    misses += 1;
                }
            }
        }
    }
    // The fixture must exercise both outcomes.
    assert!(hits > 0 && misses > 0);
}

#[test]
fn bvh_builds_for_all_small_sizes() {
    for n in [1u64, 2, 3, 9] {
        let tris = fixture_triangles(n);
        let expected = {
            let mut list = HittableList::create();
            if let Hittables::HittableListType(l) = &mut list {
                for t in &tris {
                    l.add(Hittables::TriangleType(t.clone()));
                }
            }
            list
        };
        let bvh = Bvh::new(tris);
        let itv = whole_ray_interval();
        let ray = Ray::new(v3(0.5, 0.5, -4.0), v3(0.0, 0.0, 1.0), 0);
        assert_eq!(bvh.hit(&ray, &itv), expected.hit(&ray, &itv));
        let b = bvh.bounding_box();
        assert!(b.min.x <= b.max.x && b.min.y <= b.max.y && b.min.z <= b.max.z);
    }
}

#[test]
fn ray_outside_node_box_is_pruned() {
    // Two triangles in the plane z = 0; their union box spans
    // x in [0, 3], y in [0, 3] tightly.
    let tris = vec![
        tri(0.0, 0.0, 0.0, (1.0, 0.0, 0.0), (0.0, 1.0, 0.0)),
        tri(3.0, 3.0, 0.0, (2.0, 3.0, 0.0), (3.0, 2.0, 0.0)),
    ];
    let bvh = Bvh::new(tris);
    let itv = whole_ray_interval();
    // Straight down just outside the box: pruned, no hit.
    let outside = Ray::new(v3(-0.25, 0.5, -5.0), v3(0.0, 0.0, 1.0), 0);
    assert!(bvh.hit(&outside, &itv).is_none());
    // Straight down inside the first triangle: a hit.
    let inside = Ray::new(v3(0.25, 0.25, -5.0), v3(0.0, 0.0, 1.0), 0);
    assert!(bvh.hit(&inside, &itv).is_some());
}

#[test]
fn triangle_hit_is_exact() {
    let t = tri(0.0, 0.0, 0.0, (2.0, 0.0, 0.0), (0.0, 2.0, 0.0));
    let ray = Ray::new(v3(0.5, 0.5, 5.0), v3(0.0, 0.0, -1.0), 0);
    let rec = t.hit(&ray, &whole_ray_interval()).expect("must hit");
    assert_eq!(rec.ray_length, 5 * UNIT);
    assert_eq!(rec.hit_point, v3(0.5, 0.5, 0.0));
    assert!(rec.front_face);
    assert_eq!(rec.normal, Vec3::new(0, 0, UNIT));
}

#[test]
fn nearest_of_two_triangles_wins() {
    let near = tri(-1.0, -1.0, 1.0, (1.0, -1.0, 1.0), (0.0, 1.0, 1.0));
    let far = tri(-1.0, -1.0, 4.0, (1.0, -1.0, 4.0), (0.0, 1.0, 4.0));
    let mut list = HittableList::create();
    if let Hittables::HittableListType(l) = &mut list {
        l.add(Hittables::TriangleType(far));
        l.add(Hittables::TriangleType(near));
    }
    let ray = Ray::new(v3(0.0, 0.0, 0.0), v3(0.0, 0.0, 1.0), 0);
    let rec = list.hit(&ray, &whole_ray_interval()).expect("must hit");
    assert_eq!(rec.ray_length, UNIT);
}

#[test]
fn translation_round_trip() {
    // A unit sphere at the origin, translated one unit along z. A ray
    // from (0,0,5) toward -z hits the moved surface at (0,0,2): the
    // child's local hit point (0,0,1) plus the offset.
    let child = Sphere::create(v3(0.0, 0.0, 0.0), UNIT, 0, false);
    let local = child
        .hit(
            &Ray::new(v3(0.0, 0.0, 4.0), v3(0.0, 0.0, -1.0), 0),
            &whole_ray_interval(),
        )
        .expect("child must hit");
    assert_eq!(local.hit_point, v3(0.0, 0.0, 1.0));
    let child = Sphere::create(v3(0.0, 0.0, 0.0), UNIT, 0, false);
    let translated = Translation::create(child, v3(0.0, 0.0, 1.0));
    let ray = Ray::new(v3(0.0, 0.0, 5.0), v3(0.0, 0.0, -1.0), 0);
    let rec = translated.hit(&ray, &whole_ray_interval()).expect("must hit");
    assert_eq!(rec.hit_point, v3(0.0, 0.0, 2.0));
    assert_eq!(rec.ray_length, 3 * UNIT);
    assert_eq!(rec.normal, Vec3::new(0, 0, UNIT));
}

fn test_renderer(max_depth: i32, emit: Vec3, attenuation: Option<Vec3>) -> Renderer<TestMat> {
    let world = Sphere::create(v3(0.0, 0.0, 0.0), UNIT, 0, false);
    let lights = HittableList::create();
    Renderer::new(
        world,
        lights,
        Shaders::PathTracingType(PathTracingShader::new(max_depth)),
        Vec3::new(0, 0, 0),
        vec![TestMat { emit, attenuation }],
    )
}

fn sample_record() -> HitRecord {
    HitRecord {
        hit_point: v3(0.0, 0.0, 1.0),
        normal: Vec3::new(0, 0, UNIT),
        material: 0,
        ray_length: UNIT,
        uv: Uv { u: 0, v: 0 },
        front_face: true,
    }
}

#[test]
fn shade_at_max_depth_is_zero() {
    let emit = v3(0.7, 0.3, 0.1);
    let renderer = test_renderer(4, emit, Some(v3(0.5, 0.5, 0.5)));
    let shader = PathTracingShader::new(4);
    let ray = Ray::new(v3(0.0, 0.0, 5.0), v3(0.0, 0.0, -1.0), 0);
    let mut rng = RngState::new(7);
    let res = shader.shade(&renderer, &sample_record(), &ray, 4, &mut rng);
    assert_eq!(res, Vec3::new(0, 0, 0));
    let res = shader.shade(&renderer, &sample_record(), &ray, 9, &mut rng);
    assert_eq!(res, Vec3::new(0, 0, 0));
}

#[test]
fn shade_pure_light_returns_emission() {
    let emit = v3(0.7, 0.3, 0.1);
    let renderer = test_renderer(4, emit, None);
    let shader = PathTracingShader::new(4);
    let mut rng = RngState::new(7);
    for dir in [v3(0.0, 0.0, -1.0), v3(1.0, 2.0, -3.0)] {
        let ray = Ray::new(v3(0.0, 0.0, 5.0), dir, 0);
        let res = shader.shade(&renderer, &sample_record(), &ray, 0, &mut rng);
        assert_eq!(res, emit);
    }
}

#[test]
fn mixture_density_is_mean_of_components() {
    let light = Sphere::create(v3(0.0, 4.0, 0.0), UNIT, 0, true);
    let mut lights = HittableList::create();
    if let Hittables::HittableListType(l) = &mut lights {
        l.add(light);
    }
    let origin = v3(0.0, 0.0, 0.0);
    let material_pdf = Pdfs::Uniform(SpherePdf {});
    let light_pdf = HittablePdf::new(&lights, origin);
    let mut rng = RngState::new(99);
    for _ in 0..16 {
        let dir = solstrale::pdf::mix_generate(&light_pdf, &material_pdf, &mut rng);
        let mixed = solstrale::pdf::mix_value(&light_pdf, &material_pdf, &dir);
        let a = lights.pdf_value(&origin, &dir);
        let b = material_pdf.value(&dir);
        assert_eq!(mixed, (a + b) / 2);
        // The uniform component is strictly positive, so the mean of
        // the mixture at a drawn direction is, too.
        assert!(mixed > 0);
    }
}

#[test]
fn zero_density_configuration_yields_finite_zero() {
    let att = v3(0.9, 0.9, 0.9);
    let incoming = v3(0.8, 0.8, 0.8);
    // Density zero: the guarded division reports zero radiance
    // instead of an invalid value.
    let res = scatter_radiance(&att, UNIT / 4, &incoming, 0);
    assert_eq!(res, Vec3::new(0, 0, 0));
    // A positive density divides through: 0.9 * 0.8, truncated in
    // fixed point.
    let res = scatter_radiance(&att, UNIT, &incoming, UNIT);
    let expected = u(0.9) * u(0.8) / UNIT;
    assert_eq!(res, Vec3::new(expected, expected, expected));
}

#[test]
fn sphere_hit_second_root_from_inside() {
    let s = Sphere::create(v3(0.0, 0.0, 0.0), 2 * UNIT, 0, false);
    let ray = Ray::new(v3(0.0, 0.0, 0.0), v3(0.0, 0.0, 1.0), 0);
    let rec = s.hit(&ray, &whole_ray_interval()).expect("must hit from inside");
    assert_eq!(rec.ray_length, 2 * UNIT);
    assert_eq!(rec.hit_point, v3(0.0, 0.0, 2.0));
    assert!(!rec.front_face);
}

#[test]
fn motion_blur_moves_child_with_ray_time() {
    // A unit sphere at the origin blurred two units along x: at the
    // end of the exposure it sits at (2,0,0).
    let child = Sphere::create(v3(0.0, 0.0, 0.0), UNIT, 0, false);
    let blurred = MotionBlur::create(child, v3(2.0, 0.0, 0.0));
    let down = Vec3::new(0, 0, -UNIT);
    let late = Ray::new(v3(2.0, 0.0, 5.0), down, UNIT);
    let rec = blurred.hit(&late, &whole_ray_interval()).expect("must hit at full exposure");
    assert_eq!(rec.hit_point, v3(2.0, 0.0, 1.0));
    assert_eq!(rec.ray_length, 4 * UNIT);
    let early = Ray::new(v3(2.0, 0.0, 5.0), down, 0);
    assert!(blurred.hit(&early, &whole_ray_interval()).is_none());
}

#[test]
fn rotation_about_vertical_axis() {
    // A unit sphere at (2,0,0), rotated a quarter turn about the
    // vertical axis (cosine 0, sine 1), appears at (0,0,-2).
    let child = Sphere::create(v3(2.0, 0.0, 0.0), UNIT, 0, false);
    let rotated = RotationY::create(child, 0, UNIT);
    let ray = Ray::new(v3(0.0, 0.0, -5.0), v3(0.0, 0.0, 1.0), 0);
    let rec = rotated.hit(&ray, &whole_ray_interval()).expect("must hit");
    assert_eq!(rec.hit_point, v3(0.0, 0.0, -3.0));
    assert_eq!(rec.ray_length, 2 * UNIT);
    // The same ray misses the unrotated sphere.
    let plain = Sphere::create(v3(2.0, 0.0, 0.0), UNIT, 0, false);
    assert!(plain.hit(&ray, &whole_ray_interval()).is_none());
}

#[test]
fn quad_hits_as_parallelogram() {
    // A two-by-two quad in the plane z = 1, centered on the axis.
    let quad = Quad::create(v3(-1.0, -1.0, 1.0), v3(2.0, 0.0, 0.0), v3(0.0, 2.0, 0.0), 0, false);
    let itv = whole_ray_interval();
    let ray = Ray::new(v3(0.0, 0.0, 0.0), v3(0.0, 0.0, 1.0), 0);
    let rec = quad.hit(&ray, &itv).expect("center must hit");
    assert_eq!(rec.ray_length, UNIT);
    assert_eq!(rec.hit_point, v3(0.0, 0.0, 1.0));
    // Both halves of the parallelogram are solid.
    let corner_a = Ray::new(v3(-0.9, -0.9, 0.0), v3(0.0, 0.0, 1.0), 0);
    let corner_b = Ray::new(v3(0.9, 0.9, 0.0), v3(0.0, 0.0, 1.0), 0);
    assert!(quad.hit(&corner_a, &itv).is_some());
    assert!(quad.hit(&corner_b, &itv).is_some());
    // Just outside the edge: a miss.
    let outside = Ray::new(v3(1.1, 0.0, 0.0), v3(0.0, 0.0, 1.0), 0);
    assert!(quad.hit(&outside, &itv).is_none());
}

#[test]
fn quad_light_density_positive_toward_it() {
    let quad = Quad::create(v3(-1.0, -1.0, 4.0), v3(2.0, 0.0, 0.0), v3(0.0, 2.0, 0.0), 0, true);
    let origin = v3(0.0, 0.0, 0.0);
    let toward = v3(0.0, 0.0, 1.0);
    let away = v3(0.0, 0.0, -1.0);
    assert!(quad.pdf_value(&origin, &toward) > 0);
    assert_eq!(quad.pdf_value(&origin, &away), 0);
}

#[test]
fn constant_medium_scatters_inside_dense_fog() {
    let itv = whole_ray_interval();
    let ray = Ray::new(v3(0.0, 0.0, -5.0), v3(0.0, 0.0, 1.0), 0);
    // Dense fog in a sphere of radius two: the free flight ends at
    // once, so the ray scatters inside the boundary.
    let boundary = Sphere::create(v3(0.0, 0.0, 0.0), 2 * UNIT, 0, false);
    let fog = ConstantMedium::create(boundary, 100 * UNIT, 7);
    let rec = fog.hit(&ray, &itv).expect("dense fog must scatter");
    assert_eq!(rec.material, 7);
    assert!(3 * UNIT <= rec.ray_length && rec.ray_length < 7 * UNIT);
    // A ray starting inside the boundary crosses it only once, so
    // no entry-exit stretch exists and the medium reports a miss.
    let boundary = Sphere::create(v3(0.0, 0.0, 0.0), 2 * UNIT, 0, false);
    let fog_inside = ConstantMedium::create(boundary, 100 * UNIT, 7);
    let from_inside = Ray::new(v3(0.0, 0.0, 0.0), v3(0.0, 0.0, 1.0), 0);
    assert!(fog_inside.hit(&from_inside, &itv).is_none());
    // A ray that misses the boundary misses the fog.
    let boundary = Sphere::create(v3(0.0, 0.0, 0.0), 2 * UNIT, 0, false);
    let fog = ConstantMedium::create(boundary, 100 * UNIT, 7);
    let miss = Ray::new(v3(5.0, 5.0, -5.0), v3(0.0, 0.0, 1.0), 0);
    assert!(fog.hit(&miss, &itv).is_none());
}

#[test]
fn specular_shade_adds_emission() {
    // A specular material: fixed continuation ray, no sampling. The
    // continuation misses everything, so the recursive radiance is
    // the background (zero here) and the result is the emission.
    struct Mirror {
        emit: Vec3,
    }
    impl Material for Mirror {
        fn emitted(&self, _rec: &HitRecord) -> Vec3 {
            self.emit
        }
        fn scatter(
            &self,
            _r_in: &Ray,
            _rec: &HitRecord,
            _rng: &mut RngState,
        ) -> Option<ScatterRecord> {
            Some(ScatterRecord {
                attenuation: Vec3::new(UNIT / 2, UNIT / 2, UNIT / 2),
                skip_pdf_ray: Some(Ray::new(
                    Vec3::new(0, 0, 10 * UNIT),
                    Vec3::new(0, 0, UNIT),
                    0,
                )),
                pdf: Pdfs::Uniform(SpherePdf {}),
            })
        }
        fn scattering_pdf(&self, _rec: &HitRecord, _scattered: &Ray) -> i64 {
            0
        }
    }
    let emit = v3(0.25, 0.5, 0.125);
    let world = Sphere::create(v3(0.0, 0.0, 0.0), UNIT, 0, false);
    let lights = HittableList::create();
    let renderer: Renderer<Mirror> = Renderer::new(
        world,
        lights,
        Shaders::PathTracingType(PathTracingShader::new(4)),
        Vec3::new(0, 0, 0),
        vec![Mirror { emit }],
    );
    let shader = PathTracingShader::new(4);
    let ray = Ray::new(v3(0.0, 0.0, 5.0), v3(0.0, 0.0, -1.0), 0);
    let mut rng = RngState::new(3);
    let res = shader.shade(&renderer, &sample_record(), &ray, 0, &mut rng);
    assert_eq!(res, emit);
}
