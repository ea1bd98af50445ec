use raytracer::fixed::Fixed;
use raytracer::image::Color;
use raytracer::matrix::vector::Vector3D;
use raytracer::raytracer::geometry::material::Material;
use raytracer::raytracer::geometry::material::MaterialError;
use raytracer::raytracer::geometry::Geometry;
use raytracer::raytracer::geometry::Light;
use raytracer::raytracer::geometry::Lights;
use raytracer::raytracer::geometry::Ray;
use raytracer::raytracer::geometry::Rayhit;
use raytracer::raytracer::geometry::Sphere;
use raytracer::raytracer::geometry::Triangle;

fn fx(v: f64) -> Fixed {
    Fixed::from_raw((v * 65536.0).round() as i32)
}

fn fl(v: Fixed) -> f64 {
    v.raw as f64 / 65536.0
}

fn vec3(x: f64, y: f64, z: f64) -> Vector3D {
    Vector3D::new([fx(x), fx(y), fx(z)])
}

fn unit(x: f64, y: f64, z: f64) -> Vector3D {
    let len = (x * x + y * y + z * z).sqrt();
    vec3(x / len, y / len, z / len)
}

fn grey() -> Material {
    Material::new(Color::new(128, 128, 128, 255), fx(1.0), fx(0.0), 0, fx(0.0), None).unwrap()
}

fn ball(x: f64, y: f64, z: f64, r: f64) -> Sphere {
    Sphere { origin: vec3(x, y, z), radius: fx(r), material: grey() }
}

fn flat() -> Triangle {
    Triangle { a: vec3(0.0, 0.0, 5.0), b: vec3(4.0, 0.0, 5.0), c: vec3(0.0, 4.0, 5.0), material: grey() }
}

fn upward(x: f64, y: f64) -> Ray {
    Ray { origin: vec3(x, y, 0.0), direction: vec3(0.0, 0.0, 1.0) }
}

fn distance(a: Vector3D, b: Vector3D) -> f64 {
    let d = (fl(a.x) - fl(b.x), fl(a.y) - fl(b.y), fl(a.z) - fl(b.z));
    (d.0 * d.0 + d.1 * d.1 + d.2 * d.2).sqrt()
}

#[test]
fn sphere_hit_lies_on_the_surface() {
    let sphere = ball(1.0, -2.0, 16.0, 5.0);
    let origin = vec3(0.5, 0.25, -1.0);
    let mut hits = 0;
    for ix in -6..=6 {
        for iy in -6..=6 {
            let target = (1.0 + ix as f64 * 0.7, -2.0 + iy as f64 * 0.7, 16.0);
            let ray = Ray {
                origin,
                direction: unit(target.0 - 0.5, target.1 - 0.25, target.2 + 1.0),
            };
            let to_centre = (0.5, -2.25, 17.0);
            let dir = (fl(ray.direction.x), fl(ray.direction.y), fl(ray.direction.z));
            let along = to_centre.0 * dir.0 + to_centre.1 * dir.1 + to_centre.2 * dir.2;
            let off = (0.25 + 2.25 * 2.25 + 17.0 * 17.0 - along * along).max(0.0).sqrt();
            match sphere.intersect(0, &ray, Fixed::infinity()) {
                Some(hit) => {
                    hits += 1;
                    assert!(off < 5.01);
                    assert!((distance(hit.pos, sphere.origin) - 5.0).abs() < 0.005);
                    assert!((distance(hit.pos, origin) - fl(hit.dist)).abs() < 0.005);
                    assert_eq!(hit.pos, ray.at(hit.dist));
                    assert_eq!(hit.normal, sphere.normal(hit.pos));
                    assert!((distance(hit.normal, vec3(0.0, 0.0, 0.0)) - 1.0).abs() < 0.001);
                    assert_eq!(hit.obj, 0);
                    assert_eq!(hit.material, sphere.material);
                },
                None => assert!(off > 4.99),
            }
        }
    }
    assert!(hits > 100);
}

#[test]
fn sphere_on_the_axis_is_hit_at_the_near_root() {
    let sphere = ball(0.0, 0.0, 16.0, 5.0);
    let ray = upward(0.0, 0.0);
    let hit = sphere.intersect(3, &ray, Fixed::infinity()).unwrap();
    assert_eq!(hit.dist, fx(11.0));
    assert_eq!(hit.pos, vec3(0.0, 0.0, 11.0));
    assert_eq!(hit.normal, vec3(0.0, 0.0, -1.0));
    assert_eq!(hit.obj, 3);
    assert_eq!(sphere.solve(&ray), Some(11 * 65536));
}

#[test]
fn sphere_is_hit_from_inside_at_the_far_root() {
    let sphere = ball(0.0, 0.0, 0.0, 5.0);
    let ray = upward(0.0, 0.0);
    let hit = sphere.intersect(0, &ray, Fixed::infinity()).unwrap();
    assert_eq!(hit.dist, fx(5.0));
    assert_eq!(hit.normal, vec3(0.0, 0.0, 1.0));
}

#[test]
fn sphere_behind_the_ray_or_beside_it_is_missed() {
    assert_eq!(ball(0.0, 0.0, -16.0, 5.0).intersect(0, &upward(0.0, 0.0), Fixed::infinity()), None);
    assert_eq!(ball(0.0, 0.0, 16.0, 5.0).intersect(0, &upward(6.0, 0.0), Fixed::infinity()), None);
    assert_eq!(ball(0.0, 0.0, 16.0, 5.0).intersect(0, &upward(5.0, 0.0), Fixed::infinity()), None);
    assert_eq!(ball(0.0, 0.0, -16.0, 5.0).solve(&upward(0.0, 0.0)), None);
}

#[test]
fn sphere_needs_a_direction() {
    let still = Ray { origin: vec3(0.0, 0.0, 0.0), direction: vec3(0.0, 0.0, 0.0) };
    assert_eq!(ball(0.0, 0.0, 16.0, 5.0).intersect(0, &still, Fixed::infinity()), None);
}

#[test]
fn sphere_hit_must_be_strictly_nearer_than_the_bound() {
    let sphere = ball(0.0, 0.0, 16.0, 5.0);
    let ray = upward(0.0, 0.0);
    assert!(sphere.intersect(0, &ray, fx(11.5)).is_some());
    assert_eq!(sphere.intersect(0, &ray, fx(11.0)), None);
    assert_eq!(sphere.intersect(0, &ray, fx(10.0)), None);
    assert_eq!(sphere.intersect(0, &ray, Fixed::from_raw(11 * 65536 + 1)).unwrap().dist, fx(11.0));
}

#[test]
fn ray_that_starts_on_a_sphere_hits_it_at_distance_zero() {
    let sphere = ball(0.0, 0.0, 5.0, 5.0);
    let ray = Ray { origin: vec3(0.0, 0.0, 0.0), direction: vec3(0.0, 0.0, -1.0) };
    let hit = sphere.intersect(0, &ray, Fixed::infinity()).unwrap();
    assert_eq!(hit.dist, fx(0.0));
}

#[test]
fn direction_need_not_be_a_unit_vector() {
    let sphere = ball(0.0, 0.0, 16.0, 5.0);
    let ray = Ray { origin: vec3(0.0, 0.0, 0.0), direction: vec3(0.0, 0.0, 2.0) };
    let hit = sphere.intersect(0, &ray, Fixed::infinity()).unwrap();
    assert_eq!(hit.dist, fx(5.5));
    assert_eq!(hit.pos, vec3(0.0, 0.0, 11.0));
}

#[test]
fn background_sphere_is_hit_only_when_nothing_else_is() {
    let sky = Sphere { origin: vec3(0.0, 0.0, 0.0), radius: Fixed::infinity(), material: grey() };
    let ray = Ray { origin: vec3(1.0, 2.0, 3.0), direction: vec3(0.0, 1.0, -1.0) };
    assert_eq!(sky.intersect(7, &ray, fx(100.0)), None);
    assert_eq!(sky.intersect(7, &ray, fx(0.0)), None);
    let hit = sky.intersect(7, &ray, Fixed::infinity()).unwrap();
    assert_eq!(hit.dist, Fixed::infinity());
    assert!(!hit.dist.is_finite());
    assert_eq!(hit.normal, ray.direction.neg());
    assert_eq!(hit.pos, ray.direction.scale(Fixed::infinity()));
    assert_eq!(hit.pos.x, fx(0.0));
    assert_eq!(hit.pos.y, Fixed::infinity());
    assert_eq!(hit.pos.z, Fixed::from_raw(-i32::MAX));
    assert_eq!(hit.obj, 7);
    let below = Sphere { origin: vec3(0.0, 0.0, 0.0), radius: Fixed::from_raw(i32::MIN), material: grey() };
    assert!(below.intersect(1, &ray, Fixed::infinity()).is_some());
}

#[test]
fn triangle_is_hit_exactly_inside() {
    let tri = flat();
    let inside = [
        (0.25, 0.25),
        (0.0, 0.0),
        (1.0, 0.0),
        (0.0, 1.0),
        (0.5, 0.5),
        (0.125, 0.875),
        (0.75, 0.0),
        (0.0, 0.375),
    ];
    for (beta, gamma) in inside {
        let ray = upward(4.0 * beta, 4.0 * gamma);
        let hit = tri.intersect(2, &ray, Fixed::infinity());
        assert!(hit.is_some(), "beta {} gamma {}", beta, gamma);
        let hit = hit.unwrap();
        assert_eq!(hit.dist, fx(5.0));
        assert_eq!(hit.pos, vec3(4.0 * beta, 4.0 * gamma, 5.0));
        assert_eq!(hit.obj, 2);
    }
    let outside = [
        (0.75, 0.5),
        (0.5, 0.515625),
        (1.0, 1.0),
        (-0.015625, 0.5),
        (0.5, -0.015625),
        (1.25, -0.125),
        (-0.125, 1.0625),
        (2.0, 3.0),
    ];
    for (beta, gamma) in outside {
        let ray = upward(4.0 * beta, 4.0 * gamma);
        assert_eq!(tri.intersect(2, &ray, Fixed::infinity()), None, "beta {} gamma {}", beta, gamma);
    }
}

#[test]
fn triangle_is_hit_by_slanted_rays() {
    let tri = flat();
    let origin = vec3(1.0, 1.0, 0.0);
    for ix in -8..=12 {
        for iy in -8..=12 {
            let target = (ix as f64 * 0.5, iy as f64 * 0.5);
            let ray = Ray { origin, direction: unit(target.0 - 1.0, target.1 - 1.0, 5.0) };
            let beta = target.0 / 4.0;
            let gamma = target.1 / 4.0;
            let hit = tri.intersect(0, &ray, Fixed::infinity());
            if beta > 0.01 && gamma > 0.01 && beta + gamma < 0.99 {
                let hit = hit.unwrap();
                assert!(distance(hit.pos, vec3(target.0, target.1, 5.0)) < 0.005);
            } else if beta < -0.01 || gamma < -0.01 || beta + gamma > 1.01 {
                assert_eq!(hit, None);
            }
        }
    }
}

#[test]
fn triangle_hit_may_lie_at_the_bound_but_not_beyond() {
    let tri = flat();
    let ray = upward(1.0, 1.0);
    assert!(tri.intersect(0, &ray, fx(5.0)).is_some());
    assert!(tri.intersect(0, &ray, fx(6.0)).is_some());
    assert_eq!(tri.intersect(0, &ray, Fixed::from_raw(5 * 65536 - 1)), None);
    assert_eq!(tri.solve(&ray), Some(5 * 65536));
}

#[test]
fn triangle_behind_or_at_the_origin_of_the_ray_is_missed() {
    let tri = flat();
    let away = Ray { origin: vec3(1.0, 1.0, 0.0), direction: vec3(0.0, 0.0, -1.0) };
    assert_eq!(tri.intersect(0, &away, Fixed::infinity()), None);
    let on = Ray { origin: vec3(1.0, 1.0, 5.0), direction: vec3(0.0, 0.0, 1.0) };
    assert_eq!(tri.intersect(0, &on, Fixed::infinity()), None);
}

#[test]
fn degenerate_triangle_and_parallel_ray_are_missed() {
    let line = Triangle {
        a: vec3(0.0, 0.0, 5.0),
        b: vec3(2.0, 2.0, 5.0),
        c: vec3(4.0, 4.0, 5.0),
        material: grey(),
    };
    assert_eq!(line.intersect(0, &upward(1.0, 1.0), Fixed::infinity()), None);
    let point = Triangle {
        a: vec3(1.0, 1.0, 5.0),
        b: vec3(1.0, 1.0, 5.0),
        c: vec3(1.0, 1.0, 5.0),
        material: grey(),
    };
    assert_eq!(point.intersect(0, &upward(1.0, 1.0), Fixed::infinity()), None);
    let along = Ray { origin: vec3(-1.0, 1.0, 5.0), direction: vec3(1.0, 0.0, 0.0) };
    assert_eq!(flat().intersect(0, &along, Fixed::infinity()), None);
    assert_eq!(flat().solve(&along), None);
}

#[test]
fn triangle_normal_follows_the_winding() {
    let tri = Triangle {
        a: vec3(0.0, 0.0, 0.0),
        b: vec3(1.0, 0.0, 0.0),
        c: vec3(0.0, 1.0, 0.0),
        material: grey(),
    };
    assert_eq!(tri.normal(vec3(9.0, 9.0, 9.0)), vec3(0.0, 0.0, -1.0));
    let turned = Triangle { a: tri.a, b: tri.c, c: tri.b, material: grey() };
    assert_eq!(turned.normal(vec3(0.0, 0.0, 0.0)), vec3(0.0, 0.0, 1.0));
    let floor = Triangle {
        a: vec3(-8.0, -2.0, 20.0),
        b: vec3(8.0, -2.0, 10.0),
        c: vec3(8.0, -2.0, 20.0),
        material: grey(),
    };
    assert_eq!(floor.normal(vec3(0.0, 0.0, 0.0)), vec3(0.0, 1.0, 0.0));
}

#[test]
fn geometry_dispatches_to_its_primitive() {
    let sphere = ball(0.0, 0.0, 16.0, 5.0);
    let tri = flat();
    let ray = upward(0.5, 0.5);
    assert_eq!(
        Geometry::Sphere(sphere).intersect(4, &ray, Fixed::infinity()),
        sphere.intersect(4, &ray, Fixed::infinity())
    );
    assert_eq!(
        Geometry::Triangle(tri).intersect(5, &ray, Fixed::infinity()),
        tri.intersect(5, &ray, Fixed::infinity())
    );
    let p = vec3(0.0, 3.0, 12.0);
    assert_eq!(Geometry::Sphere(sphere).normal(p), sphere.normal(p));
    assert_eq!(Geometry::Triangle(tri).normal(p), tri.normal(p));
    assert_eq!(sphere.normal(vec3(0.0, 5.0, 16.0)), vec3(0.0, 1.0, 0.0));
}

#[test]
fn ray_point_at_a_parameter() {
    let ray = Ray { origin: vec3(1.0, 2.0, 3.0), direction: vec3(0.5, -1.0, 2.0) };
    assert_eq!(ray.at(fx(0.0)), vec3(1.0, 2.0, 3.0));
    assert_eq!(ray.at(fx(2.0)), vec3(2.0, 0.0, 7.0));
    assert_eq!(ray.at(fx(-1.0)), vec3(0.5, 3.0, 1.0));
}

#[test]
fn lights_record_their_total_intensity() {
    let light = |i: f64| Light {
        source: vec3(0.0, 0.0, 0.0),
        color: Color::new(255, 255, 255, 255),
        intensity: fx(i),
    };
    assert_eq!(Lights::new(vec![]).total_intensity, fx(0.0));
    let lights = Lights::new(vec![light(5.0), light(1.0), light(1.0)]);
    assert_eq!(lights.total_intensity, fx(7.0));
    assert_eq!(lights.sources.len(), 3);
    assert_eq!(lights.sources[0], light(5.0));
    let bright = Lights::new(vec![light(30000.0), light(30000.0)]);
    assert_eq!(bright.total_intensity, Fixed::infinity());
}

#[test]
fn material_parameters_are_checked() {
    let white = Color::new(255, 255, 255, 255);
    let m = Material::new(white, fx(0.5), fx(0.25), 50, fx(0.125), Some(3)).unwrap();
    assert_eq!(m.color, white);
    assert_eq!(m.diffuse, fx(0.5));
    assert_eq!(m.specular, fx(0.25));
    assert_eq!(m.specular_n, 50);
    assert_eq!(m.reflectivity, fx(0.125));
    assert_eq!(m.texture, Some(3));
    assert!(Material::new(white, fx(9.0), fx(-3.0), -2, fx(0.0), None).is_ok());
    assert!(Material::new(white, fx(0.0), fx(0.0), 0, fx(1.0), None).is_ok());
    let thick = Color { r: fx(0.0), g: fx(0.0), b: fx(0.0), a: Fixed::from_raw(65537) };
    let thin = Color { r: fx(0.0), g: fx(0.0), b: fx(0.0), a: Fixed::from_raw(-1) };
    assert_eq!(Material::new(thick, fx(0.0), fx(0.0), 0, fx(0.0), None), Err(MaterialError::Opacity));
    assert_eq!(Material::new(thin, fx(0.0), fx(0.0), 0, fx(0.0), None), Err(MaterialError::Opacity));
    assert_eq!(Material::new(thin, fx(0.0), fx(0.0), 0, fx(2.0), None), Err(MaterialError::Opacity));
    assert_eq!(
        Material::new(white, fx(0.0), fx(0.0), 0, Fixed::from_raw(65537), None),
        Err(MaterialError::Reflectivity)
    );
    assert_eq!(
        Material::new(white, fx(0.0), fx(0.0), 0, Fixed::from_raw(-1), None),
        Err(MaterialError::Reflectivity)
    );
}

#[test]
fn rayhit_keeps_its_parts() {
    let hit = Rayhit::new(fx(2.0), vec3(1.0, 2.0, 3.0), vec3(0.0, 1.0, 0.0), grey(), 9);
    assert_eq!(hit.dist, fx(2.0));
    assert_eq!(hit.pos, vec3(1.0, 2.0, 3.0));
    assert_eq!(hit.normal, vec3(0.0, 1.0, 0.0));
    assert_eq!(hit.material, grey());
    assert_eq!(hit.obj, 9);
}

#[test]
fn ray_as_text() {
    let ray = Ray { origin: vec3(1.0, 2.0, 3.0), direction: vec3(0.5, -1.0, 0.0) };
    assert_eq!(ray.to_text(), "Ray(Vec3D[1, 2, 3] -> Vec3D[0.5, -1, 0])");
}

#[test]
fn sphere_is_hit_by_a_ray_with_a_short_direction() {
    let sphere = ball(0.0, 0.0, 16.0, 5.0);
    let short = Ray {
        origin: vec3(0.0, 0.0, 0.0),
        direction: Vector3D::new([fx(0.0), fx(0.0), Fixed::from_raw(100)]),
    };
    let hit = sphere.intersect(0, &short, Fixed::infinity()).unwrap();
    assert_eq!(hit.dist, Fixed::from_raw(472446402));
    assert!((fl(hit.dist) - 7208.96).abs() < 0.001);
    assert!((fl(hit.pos.z) - 11.0).abs() < 0.001);
    assert!(sphere.intersect(0, &short, fx(7208.0)).is_none());
    let inside = Ray { origin: vec3(0.0, 0.0, 16.0), direction: short.direction };
    let far = sphere.intersect(0, &inside, Fixed::infinity()).unwrap();
    assert!((fl(far.dist) - 3276.8).abs() < 0.001);
    let tiny = Ray {
        origin: vec3(0.0, 0.0, 0.0),
        direction: Vector3D::new([fx(0.0), fx(0.0), Fixed::from_raw(1)]),
    };
    assert_eq!(sphere.solve(&tiny), Some(11 * 65536 * 65536));
    assert_eq!(sphere.intersect(0, &tiny, Fixed::infinity()), None);
    let long = Ray { origin: vec3(0.0, 0.0, 0.0), direction: vec3(0.0, 0.0, 1000.0) };
    assert_eq!(sphere.intersect(0, &long, Fixed::infinity()).unwrap().dist, Fixed::from_raw(720));
}

#[test]
fn sphere_that_the_ray_only_touches_is_missed() {
    let sphere = ball(5.0, 0.0, 16.0, 5.0);
    assert_eq!(sphere.intersect(0, &upward(0.0, 0.0), Fixed::infinity()), None);
    let near = ball(5.0, 0.0, 16.0, 5.0 + 1.0 / 65536.0);
    assert!(near.intersect(0, &upward(0.0, 0.0), Fixed::infinity()).is_some());
}

#[test]
fn ray_from_just_inside_a_sphere_hits_the_far_side() {
    let sphere = ball(0.0, 0.0, 5.0, 5.0);
    let ray = Ray { origin: Vector3D::new([fx(0.0), fx(0.0), Fixed::from_raw(1)]), direction: vec3(0.0, 0.0, 1.0) };
    let hit = sphere.intersect(0, &ray, Fixed::infinity()).unwrap();
    assert_eq!(hit.dist, Fixed::from_raw(10 * 65536 - 1));
}

#[test]
fn small_and_large_triangles_have_unit_normals() {
    let tiny = Triangle {
        a: vec3(1.0, 1.0, 1.0),
        b: Vector3D::new([Fixed::from_raw(65536 + 3), fx(1.0), fx(1.0)]),
        c: Vector3D::new([fx(1.0), Fixed::from_raw(65536 + 2), fx(1.0)]),
        material: grey(),
    };
    assert_eq!(tiny.normal(vec3(0.0, 0.0, 0.0)), vec3(0.0, 0.0, -1.0));
    let huge = Triangle {
        a: vec3(-30000.0, -30000.0, 7.0),
        b: vec3(30000.0, -30000.0, 7.0),
        c: vec3(-30000.0, 30000.0, 7.0),
        material: grey(),
    };
    assert_eq!(huge.normal(vec3(0.0, 0.0, 0.0)), vec3(0.0, 0.0, -1.0));
    let slanted = Triangle {
        a: vec3(0.0, 0.0, 0.0),
        b: Vector3D::new([Fixed::from_raw(4), fx(0.0), Fixed::from_raw(3)]),
        c: Vector3D::new([fx(0.0), Fixed::from_raw(1), fx(0.0)]),
        material: grey(),
    };
    assert_eq!(
        slanted.normal(vec3(0.0, 0.0, 0.0)),
        Vector3D::new([Fixed::from_ratio(3, 5), fx(0.0), Fixed::from_ratio(-4, 5)])
    );
    let flat = Triangle { a: vec3(1.0, 2.0, 3.0), b: vec3(1.0, 2.0, 3.0), c: vec3(4.0, 5.0, 6.0), material: grey() };
    assert_eq!(flat.normal(vec3(0.0, 0.0, 0.0)), vec3(0.0, 0.0, 0.0));
    assert_eq!(vec3(0.0, 0.0, 2.0).unit_cross(&vec3(0.0, 3.0, 0.0)), vec3(-1.0, 0.0, 0.0));
    let short = Vector3D::new([fx(0.0), fx(0.0), Fixed::from_raw(1)]);
    let other = Vector3D::new([fx(0.0), Fixed::from_raw(1), fx(0.0)]);
    assert_eq!(short.unit_cross(&other), vec3(-1.0, 0.0, 0.0));
    assert_eq!(short.cross(&other), Vector3D::new([Fixed::from_raw(-1), fx(0.0), fx(0.0)]));
}
