use raytracer::fixed::Fixed;
use raytracer::image::byte_to_channel;
use raytracer::image::Color;
use raytracer::image::Image;
use raytracer::matrix::vector::Vector3D;
use raytracer::raytracer::compute_pixel;
use raytracer::raytracer::compute_row;
use raytracer::raytracer::find_nearest;
use raytracer::raytracer::geometry::material::Material;
use raytracer::raytracer::geometry::Geometry;
use raytracer::raytracer::geometry::Light;
use raytracer::raytracer::geometry::Lights;
use raytracer::raytracer::geometry::Ray;
use raytracer::raytracer::geometry::Sphere;
use raytracer::raytracer::geometry::Triangle;
use raytracer::raytracer::light_amount;
use raytracer::raytracer::light_contribution;
use raytracer::raytracer::reflect;
use raytracer::raytracer::shade_local;
use raytracer::raytracer::trace_bounded;
use raytracer::raytracer::Anaglyph;
use raytracer::raytracer::Antialiasing;
use raytracer::raytracer::Camera;
use raytracer::raytracer::Raytracer;
use raytracer::raytracer::Viewport;

fn fx(v: f64) -> Fixed {
    Fixed::from_raw((v * 65536.0).round() as i32)
}

fn vec3(x: f64, y: f64, z: f64) -> Vector3D {
    Vector3D::new([fx(x), fx(y), fx(z)])
}

fn matte(color: Color) -> Material {
    Material::new(color, fx(1.0), fx(0.0), 0, fx(0.0), None).unwrap()
}

fn backdrop(color: Color) -> Geometry {
    Geometry::Sphere(Sphere {
        origin: vec3(0.0, 0.0, 0.0),
        radius: Fixed::infinity(),
        material: Material::new(color, fx(0.0), fx(0.0), 0, fx(0.0), None).unwrap(),
    })
}

fn front_camera() -> Camera {
    Camera {
        position: vec3(0.0, 0.0, 0.0),
        look: vec3(0.0, 0.0, 1.0),
        up: vec3(0.0, 1.0, 0.0),
        half_fov_tan: fx(1.0),
    }
}

fn white_light(x: f64, y: f64, z: f64, intensity: f64) -> Light {
    Light { source: vec3(x, y, z), color: Color::new(255, 255, 255, 255), intensity: fx(intensity) }
}

#[test]
fn one_sphere_scene_shows_sphere_and_background() {
    let night = Color::new(0, 0, 128, 255);
    let scene = vec![
        Geometry::Sphere(Sphere {
            origin: vec3(0.0, 0.0, 16.0),
            radius: fx(5.0),
            material: matte(Color::new(255, 255, 255, 255)),
        }),
        backdrop(night),
    ];
    let lights = Lights::new(vec![white_light(3.0, 5.0, 15.0, 1.0)]);
    let mut tracer = Raytracer::new(&front_camera(), Image::new(64, 64), Antialiasing::Off);
    let rays = tracer.render(&scene, &lights, 1);
    assert_eq!(rays, 64 * 64);
    let mut hits = 0;
    let mut misses = 0;
    for y in 0..64usize {
        for x in 0..64usize {
            let u = 2.0 * x as f64 / 64.0 - 1.0;
            let v = 2.0 * y as f64 / 64.0 - 1.0;
            let len = (u * u + v * v + 1.0).sqrt();
            let d = (-u / len, -v / len, 1.0 / len);
            let b = d.2 * -16.0;
            let disc = b * b - (256.0 - 25.0);
            let pixel = tracer.img.get_pixel(x, y).to_pixel();
            if disc < -0.5 {
                misses += 1;
                assert_eq!(pixel, night.to_pixel(), "pixel {} {}", x, y);
            } else if disc > 0.5 {
                hits += 1;
                assert!(pixel.r >= 50, "pixel {} {} is {:?}", x, y, pixel);
                assert!(pixel.g >= 50 && pixel.b >= 50);
                assert_eq!(pixel.r, pixel.g);
                assert_eq!(pixel.r, pixel.b);
            }
        }
    }
    assert!(hits > 200, "hits {}", hits);
    assert!(misses > 3000, "misses {}", misses);
}

fn fl(v: Fixed) -> f64 {
    v.raw as f64 / 65536.0
}

fn close(a: Color, b: Color, eps: f64) -> bool {
    (fl(a.r) - fl(b.r)).abs() <= eps
        && (fl(a.g) - fl(b.g)).abs() <= eps
        && (fl(a.b) - fl(b.b)).abs() <= eps
}

fn coloured(r: u8, g: u8, b: u8) -> Material {
    Material::new(Color::new(r, g, b, 255), fx(0.0), fx(0.0), 0, fx(0.0), None).unwrap()
}

fn sphere(z: f64, r: f64, material: Material) -> Geometry {
    Geometry::Sphere(Sphere { origin: vec3(0.0, 0.0, z), radius: fx(r), material })
}

fn forward() -> Ray {
    Ray { origin: vec3(0.0, 0.0, 0.0), direction: vec3(0.0, 0.0, 1.0) }
}

fn wall(z: f64, material: Material) -> Geometry {
    Geometry::Triangle(Triangle {
        a: vec3(-50.0, -50.0, z),
        b: vec3(50.0, -50.0, z),
        c: vec3(0.0, 80.0, z),
        material,
    })
}

#[test]
fn nearest_of_overlapping_primitives_is_selected() {
    let red = coloured(255, 0, 0);
    let green = coloured(0, 255, 0);
    let blue = coloured(0, 0, 255);
    let orders: [[usize; 4]; 4] = [[0, 1, 2, 3], [3, 2, 1, 0], [2, 0, 3, 1], [1, 3, 0, 2]];
    for order in orders {
        let parts = [
            sphere(30.0, 2.0, red),
            wall(20.0, green),
            sphere(12.0, 2.0, blue),
            backdrop(Color::new(9, 9, 9, 255)),
        ];
        let scene: Vec<Geometry> = order.iter().map(|i| parts[*i]).collect();
        let nearest = order.iter().position(|i| *i == 2).unwrap();
        let hit = find_nearest(&forward(), &scene, None).unwrap();
        assert_eq!(hit.obj, nearest);
        assert_eq!(hit.dist, fx(10.0));
        assert!(hit.dist.raw > 0);
        assert_eq!(hit.material, blue);
        for (i, part) in scene.iter().enumerate() {
            if let Some(other) = part.intersect(i, &forward(), Fixed::infinity()) {
                assert!(hit.dist <= other.dist);
            }
        }
    }
}

#[test]
fn hit_behind_the_origin_is_never_selected() {
    let scene = vec![sphere(-12.0, 2.0, coloured(255, 0, 0)), wall(-3.0, coloured(0, 255, 0))];
    assert_eq!(find_nearest(&forward(), &scene, None), None);
    let lights = Lights::new(vec![white_light(0.0, 0.0, 0.0, 1.0)]);
    assert_eq!(Raytracer::trace(&forward(), &scene, &lights, 1, None), (Color::new(0, 0, 0, 0), 1));
}

#[test]
fn background_is_selected_in_any_position_only_when_nothing_else_is_hit() {
    let sky = backdrop(Color::new(1, 2, 3, 255));
    let ball = sphere(12.0, 2.0, coloured(255, 0, 0));
    assert_eq!(find_nearest(&forward(), &vec![sky, ball], None).unwrap().obj, 1);
    assert_eq!(find_nearest(&forward(), &vec![ball, sky], None).unwrap().obj, 0);
    let beside = Ray { origin: vec3(0.0, 0.0, 0.0), direction: vec3(0.0, 1.0, 0.0) };
    assert_eq!(find_nearest(&beside, &vec![sky, ball], None).unwrap().obj, 0);
    assert_eq!(find_nearest(&beside, &vec![ball, sky], None).unwrap().obj, 1);
    let lights = Lights::new(vec![white_light(0.0, 0.0, 0.0, 3.0)]);
    assert_eq!(Raytracer::trace(&beside, &vec![ball, sky], &lights, 1, None), (Color::new(1, 2, 3, 255), 1));
}

#[test]
fn ignored_primitive_is_never_selected() {
    let ball = sphere(5.0, 5.0, coloured(255, 0, 0));
    let far = sphere(30.0, 2.0, coloured(0, 255, 0));
    let scene = vec![ball, far];
    let leaving = Ray { origin: vec3(0.0, 0.0, 0.0), direction: vec3(0.0, 0.0, 1.0) };
    assert_eq!(find_nearest(&leaving, &scene, None).unwrap().obj, 0);
    assert_eq!(find_nearest(&leaving, &scene, None).unwrap().dist, fx(0.0));
    let hit = find_nearest(&leaving, &scene, Some(0)).unwrap();
    assert_eq!(hit.obj, 1);
    assert_eq!(hit.dist, fx(28.0));
    assert_eq!(find_nearest(&leaving, &scene, Some(1)).unwrap().obj, 0);
    assert_eq!(find_nearest(&leaving, &vec![ball], Some(0)), None);
    let twin = vec![ball, ball];
    assert_eq!(find_nearest(&leaving, &twin, Some(0)).unwrap().obj, 1);
    assert_eq!(find_nearest(&leaving, &twin, Some(1)).unwrap().obj, 0);
}

#[test]
fn mirrored_ray_does_not_see_its_own_surface() {
    let mirror = Material::new(Color::new(0, 0, 0, 255), fx(0.0), fx(0.0), 0, fx(1.0), None).unwrap();
    let scene = vec![sphere(16.0, 5.0, mirror), backdrop(Color::new(10, 20, 30, 255))];
    let lights = Lights::new(vec![white_light(0.0, 0.0, 0.0, 1.0)]);
    let (color, rays) = Raytracer::trace(&forward(), &scene, &lights, 4, None);
    assert_eq!(rays, 2);
    assert_eq!(color.to_pixel(), Color::new(10, 20, 30, 255).to_pixel());
}

#[test]
fn opaque_matte_surface_shows_its_direct_light_only() {
    let white = matte(Color::new(255, 255, 255, 255));
    let scene = vec![sphere(16.0, 5.0, white), backdrop(Color::new(0, 0, 0, 255))];
    let lights = Lights::new(vec![white_light(0.0, 0.0, 0.0, 2.0), white_light(0.0, 20.0, 0.0, 1.0)]);
    let ray = forward();
    let hit = find_nearest(&ray, &scene, None).unwrap();
    for budget in [1, 2, 7] {
        let (color, rays) = Raytracer::shade(&ray, &hit, &scene, &lights, budget);
        assert_eq!(color, shade_local(&ray, &hit, &scene, &lights));
        assert_eq!(rays, 1);
        assert_eq!(Raytracer::trace(&ray, &scene, &lights, budget, None), (color, 1));
    }
}

#[test]
fn head_on_light_gives_ambient_plus_diffuse() {
    let white = matte(Color::new(255, 255, 255, 255));
    let scene = vec![sphere(16.0, 5.0, white)];
    let lights = Lights::new(vec![white_light(0.0, 0.0, 0.0, 1.0)]);
    let (color, rays) = Raytracer::trace(&forward(), &scene, &lights, 1, None);
    assert_eq!(rays, 1);
    let expected = fx(1.0).add(Fixed::from_raw(13107));
    assert_eq!(color.r, expected);
    assert_eq!(color.g, expected);
    assert_eq!(color.b, expected);
    assert_eq!(color.to_pixel().r, 255);
}

#[test]
fn light_behind_the_surface_gives_ambient_only() {
    let white = matte(Color::new(255, 255, 255, 255));
    let scene = vec![sphere(16.0, 5.0, white)];
    let lights = Lights::new(vec![white_light(0.0, 0.0, 40.0, 4.0)]);
    let (color, _) = Raytracer::trace(&forward(), &scene, &lights, 1, None);
    assert!((fl(color.r) - 0.2).abs() < 0.001);
    assert_eq!(color.to_pixel().r, 50);
}

#[test]
fn specular_highlight_follows_the_exponent() {
    let shiny = Material::new(Color::new(0, 0, 0, 255), fx(0.0), fx(0.5), 8, fx(0.0), None).unwrap();
    let scene = vec![sphere(16.0, 5.0, shiny)];
    let lights = Lights::new(vec![white_light(0.0, 0.0, 0.0, 1.0)]);
    let (color, _) = Raytracer::trace(&forward(), &scene, &lights, 1, None);
    assert_eq!(color.r, fx(0.5));
    let side = Lights::new(vec![white_light(11.0, 0.0, 0.0, 1.0)]);
    let (color, _) = Raytracer::trace(&forward(), &scene, &side, 1, None);
    let expected = 0.5 * (45.0f64.to_radians() / 2.0).cos().powi(8);
    assert!((fl(color.r) - expected).abs() < 0.002, "{} {}", fl(color.r), expected);
}

#[test]
fn two_equal_lights_are_normalised_by_their_sum() {
    let white = matte(Color::new(200, 150, 100, 255));
    let scene = vec![sphere(16.0, 5.0, white)];
    let first = white_light(3.0, 4.0, 0.0, 3.0);
    let second = white_light(-6.0, 1.0, 2.0, 3.0);
    let lights = Lights::new(vec![first, second]);
    assert_eq!(lights.total_intensity, fx(6.0));
    let ray = forward();
    let hit = find_nearest(&ray, &scene, None).unwrap();
    let t1 = light_contribution(&ray, &hit, &scene, &first);
    let t2 = light_contribution(&ray, &hit, &scene, &second);
    let weight = fx(3.0).raw as i64;
    let total = fx(6.0).raw as i64;
    let mean = |a: Fixed, b: Fixed| {
        Fixed::from_raw(((a.raw as i64 * weight + b.raw as i64 * weight).div_euclid(total)) as i32)
    };
    let expected = Color {
        r: mean(t1.r, t2.r),
        g: mean(t1.g, t2.g),
        b: mean(t1.b, t2.b),
        a: t1.a.add(t2.a),
    };
    assert_eq!(shade_local(&ray, &hit, &scene, &lights), expected);
    assert_eq!(Raytracer::trace(&ray, &scene, &lights, 1, None).0, expected);
    let alone = shade_local(&ray, &hit, &scene, &Lights::new(vec![first]));
    let other = shade_local(&ray, &hit, &scene, &Lights::new(vec![second]));
    assert!(close(expected, alone.add(other).scale(fx(0.5)), 0.001));
}

#[test]
fn scene_without_lights_stays_unlit() {
    let scene = vec![sphere(16.0, 5.0, matte(Color::new(255, 255, 255, 255)))];
    let lights = Lights::new(vec![]);
    assert_eq!(Raytracer::trace(&forward(), &scene, &lights, 1, None), (Color::clear(), 1));
    let dark = Lights::new(vec![white_light(0.0, 0.0, 0.0, 0.0)]);
    assert_eq!(Raytracer::trace(&forward(), &scene, &dark, 1, None), (Color::clear(), 1));
}

#[test]
fn occluders_dim_the_light_by_their_opacity() {
    let white = matte(Color::new(255, 255, 255, 255));
    let glass = |alpha: u8| {
        Material::new(Color::new(0, 0, 0, alpha), fx(0.0), fx(0.0), 0, fx(0.0), None).unwrap()
    };
    let target = Geometry::Sphere(Sphere { origin: vec3(0.0, 0.0, 16.0), radius: fx(5.0), material: white });
    let screen = |alpha: u8| {
        Geometry::Triangle(Triangle {
            a: vec3(-1.0, 10.0, 5.0),
            b: vec3(1.0, 10.0, 5.0),
            c: vec3(0.0, 10.0, 7.0),
            material: glass(alpha),
        })
    };
    let light = white_light(0.0, 20.0, 0.0, 1.0);
    let lights = Lights::new(vec![light]);
    let ray = forward();
    let open = vec![target];
    let hit = find_nearest(&ray, &open, None).unwrap();
    let shadow = Ray { origin: hit.pos, direction: light.source.sub(hit.pos).normalized() };
    let reach = light.source.sub(hit.pos).norm();
    assert_eq!(light_amount(&open, &shadow, reach, hit.obj), fx(1.0));
    let lit = Raytracer::trace(&ray, &open, &lights, 1, None).0;
    assert!(fl(lit.r) > 0.5);
    let blocked = vec![target, screen(255)];
    assert_eq!(light_amount(&blocked, &shadow, reach, hit.obj), fx(0.0));
    let dark = Raytracer::trace(&ray, &blocked, &lights, 1, None).0;
    assert_eq!(dark.r, Fixed::from_raw(13107));
    let veiled = vec![screen(0), target, screen(0)];
    assert_eq!(light_amount(&veiled, &shadow, reach, 1), fx(1.0));
    let half = byte_to_channel(128);
    let halved = vec![screen(128), target];
    assert_eq!(light_amount(&halved, &shadow, reach, 1), fx(1.0).sub(half));
    let twice = vec![screen(128), target, screen(128)];
    let rest = fx(1.0).sub(half);
    assert_eq!(light_amount(&twice, &shadow, reach, 1), rest.mul(rest));
    let closed = vec![screen(128), screen(255), target, screen(128)];
    assert_eq!(light_amount(&closed, &shadow, reach, 2), fx(0.0));
    let own = vec![target];
    assert_eq!(light_amount(&own, &shadow, reach, 0), fx(1.0));
    let beyond = vec![
        target,
        Geometry::Triangle(Triangle {
            a: vec3(-1.0, 30.0, -5.0),
            b: vec3(1.0, 30.0, -5.0),
            c: vec3(0.0, 30.0, 7.0),
            material: glass(255),
        }),
    ];
    assert_eq!(light_amount(&beyond, &shadow, reach, 0), fx(1.0));
}

#[test]
fn reflection_adds_what_the_mirrored_ray_sees() {
    let half_mirror =
        Material::new(Color::new(0, 0, 0, 255), fx(0.0), fx(0.0), 0, fx(0.5), None).unwrap();
    let sky = Color::new(100, 200, 50, 255);
    let scene = vec![sphere(16.0, 5.0, half_mirror), backdrop(sky)];
    let lights = Lights::new(vec![white_light(0.0, 0.0, 0.0, 1.0)]);
    let (color, rays) = Raytracer::trace(&forward(), &scene, &lights, 1, None);
    assert_eq!(rays, 2);
    assert_eq!(color.r, sky.r.mul(fx(0.5)));
    assert_eq!(color.g, sky.g.mul(fx(0.5)));
    assert_eq!(color.b, sky.b.mul(fx(0.5)));
    assert_eq!(reflect(vec3(1.0, -1.0, 0.0), vec3(0.0, 1.0, 0.0)), vec3(1.0, 1.0, 0.0));
    assert_eq!(reflect(vec3(0.0, 0.0, 1.0), vec3(0.0, 0.0, -1.0)), vec3(0.0, 0.0, -1.0));
}

#[test]
fn bounces_stop_when_the_budget_is_spent() {
    let mirror = Material::new(Color::new(0, 0, 0, 255), fx(0.0), fx(0.0), 0, fx(1.0), None).unwrap();
    let left = Geometry::Triangle(Triangle {
        a: vec3(-50.0, -50.0, -5.0),
        b: vec3(50.0, -50.0, -5.0),
        c: vec3(0.0, 80.0, -5.0),
        material: mirror,
    });
    let right = wall(5.0, mirror);
    let scene = vec![left, right];
    let lights = Lights::new(vec![white_light(0.0, 0.0, 0.0, 1.0)]);
    for budget in 1..12u32 {
        let (_, rays) = Raytracer::trace(&forward(), &scene, &lights, budget, None);
        assert_eq!(rays, budget as u64 + 1);
        let (_, rays) = trace_bounded(&forward(), &scene, &lights, budget, None);
        assert_eq!(rays, budget as u64 + 1);
    }
    assert_eq!(trace_bounded(&forward(), &scene, &lights, 0, None).1, 1);
}

#[test]
fn transparency_adds_what_lies_behind() {
    let clear_glass =
        Material::new(Color::new(0, 0, 0, 0), fx(0.0), fx(0.0), 0, fx(0.0), None).unwrap();
    let sky = Color::new(100, 200, 50, 255);
    let scene = vec![wall(5.0, clear_glass), backdrop(sky)];
    let lights = Lights::new(vec![white_light(0.0, 0.0, 0.0, 1.0)]);
    let (color, rays) = Raytracer::trace(&forward(), &scene, &lights, 1, None);
    assert_eq!(rays, 2);
    assert_eq!((color.r, color.g, color.b), (sky.r, sky.g, sky.b));
    let panes = vec![wall(5.0, clear_glass), wall(6.0, clear_glass), wall(7.0, clear_glass), backdrop(sky)];
    assert_eq!(Raytracer::trace(&forward(), &panes, &lights, 1, None).1, 2);
    assert_eq!(Raytracer::trace(&forward(), &panes, &lights, 2, None).1, 3);
    let (color, rays) = Raytracer::trace(&forward(), &panes, &lights, 3, None);
    assert_eq!(rays, 4);
    assert_eq!((color.r, color.g, color.b), (sky.r, sky.g, sky.b));
    assert_eq!(Raytracer::trace(&forward(), &panes, &lights, 9, None).1, 4);
    let both = Material::new(Color::new(0, 0, 0, 128), fx(0.0), fx(0.0), 0, fx(0.5), None).unwrap();
    let cell = vec![wall(5.0, both), backdrop(sky)];
    assert_eq!(Raytracer::trace(&forward(), &cell, &lights, 1, None).1, 3);
}

#[test]
fn touching_transparent_surfaces_terminate() {
    let glass = Material::new(Color::new(0, 0, 0, 10), fx(0.0), fx(0.0), 0, fx(1.0), None).unwrap();
    let scene = vec![wall(5.0, glass), wall(5.0, glass), sphere(5.0, 5.0, glass), sphere(10.0, 5.0, glass)];
    let lights = Lights::new(vec![white_light(0.0, 0.0, 0.0, 1.0)]);
    let (_, rays) = Raytracer::trace(&forward(), &scene, &lights, 6, None);
    assert!(rays >= 7 && rays <= 127, "{}", rays);
}

#[test]
fn viewport_of_the_front_camera() {
    let view = Viewport::new(&front_camera(), 64, 32);
    assert_eq!(view.origin, vec3(0.0, 0.0, 0.0));
    assert_eq!(view.center, vec3(0.0, 0.0, 1.0));
    assert_eq!(view.right, vec3(-1.0, 0.0, 0.0));
    assert_eq!(view.up, vec3(0.0, 1.0, 0.0));
    assert_eq!(view.plane_width, fx(1.0));
    assert_eq!(view.plane_height, fx(0.5));
    assert_eq!((view.width, view.height), (64, 32));
    assert_eq!(view.get_ray(fx(32.0), fx(16.0)), forward());
    let corner = view.get_ray(fx(0.0), fx(0.0));
    assert_eq!(corner.origin, vec3(0.0, 0.0, 0.0));
    assert_eq!(corner.direction, vec3(1.0, 0.5, 1.0));
    assert_eq!(corner.unit().direction, vec3(1.0, 0.5, 1.0).normalized());
    assert_eq!(corner.unit().origin, corner.origin);
    let square = Viewport::new(&front_camera(), 64, 64);
    assert_eq!(square.get_ray(fx(0.0), fx(0.0)).direction, vec3(1.0, 1.0, 1.0));
    assert_eq!(square.get_ray(fx(64.0), fx(64.0)).direction, vec3(-1.0, -1.0, 1.0));
    assert_eq!(square.get_ray(fx(48.0), fx(16.0)).direction, vec3(-0.5, 0.5, 1.0));
    let tilted = Camera {
        position: vec3(1.0, 2.0, 3.0),
        look: vec3(0.0, 0.0, 2.0),
        up: vec3(0.0, 1.0, 1.0),
        half_fov_tan: fx(0.5),
    };
    let view = Viewport::new(&tilted, 10, 10);
    assert_eq!(view.up, vec3(0.0, 1.0, 0.0));
    assert_eq!(view.center, vec3(1.0, 2.0, 5.0));
    assert_eq!(view.plane_width, fx(1.0));
    assert_eq!(view.plane_height, fx(1.0));
    let tracer = Raytracer::new(&tilted, Image::new(10, 10), Antialiasing::Off);
    assert_eq!(tracer.view, view);
    assert_eq!(tracer.get_ray(fx(5.0), fx(5.0)).direction, vec3(1.0, 2.0, 5.0));
    assert_eq!(tracer.get_ray(fx(2.5), fx(7.5)), view.get_ray(fx(2.5), fx(7.5)));
}

fn edge_scene() -> (Vec<Geometry>, Lights) {
    let scene = vec![
        Geometry::Triangle(Triangle {
            a: vec3(0.011, -50.0, 10.0),
            b: vec3(50.0, -50.0, 10.0),
            c: vec3(0.011, 80.0, 10.0),
            material: coloured(255, 255, 255),
        }),
        backdrop(Color::new(0, 0, 0, 255)),
    ];
    (scene, Lights::new(vec![white_light(0.0, 0.0, 0.0, 1.0)]))
}

#[test]
fn grid_of_one_ray_is_the_single_ray() {
    let (scene, lights) = edge_scene();
    let view = Viewport::new(&front_camera(), 16, 16);
    for (x, y) in [(0, 0), (7, 8), (8, 8), (15, 3)] {
        assert_eq!(
            compute_pixel(&view, Antialiasing::Grid(1), x, y, &scene, &lights, 1),
            compute_pixel(&view, Antialiasing::Off, x, y, &scene, &lights, 1)
        );
    }
    assert_eq!(compute_pixel(&view, Antialiasing::Grid(0), 3, 3, &scene, &lights, 1), (Color::clear(), 0));
}

#[test]
fn finer_grids_approach_the_covered_share_of_an_edge_pixel() {
    let (scene, lights) = edge_scene();
    let view = Viewport::new(&front_camera(), 16, 16);
    let sample = |n: u32| {
        let (color, rays) = compute_pixel(&view, Antialiasing::Grid(n), 8, 8, &scene, &lights, 1);
        assert_eq!(rays, (n * n) as u64);
        fl(color.r)
    };
    let reference = sample(64);
    let mut last = f64::MAX;
    for n in [1, 2, 4, 8, 16] {
        let error = (sample(n) - reference) * (sample(n) - reference);
        println!("n {} value {} reference {} error {}", n, sample(n), reference, error);
        assert!(error <= last);
        last = error;
    }
    assert!(last < 0.0005);
}

#[test]
fn render_stores_every_pixel_and_counts_the_rays() {
    let (scene, lights) = edge_scene();
    let cam = front_camera();
    for aa in [Antialiasing::Off, Antialiasing::Grid(2)] {
        let mut tracer = Raytracer::new(&cam, Image::new(8, 4), aa);
        let rays = tracer.render(&scene, &lights, 2);
        let mut expected_rays = 0;
        for y in 0..4u32 {
            for x in 0..8u32 {
                let (color, count) = compute_pixel(&tracer.view, aa, x, y, &scene, &lights, 2);
                expected_rays += count;
                assert_eq!(tracer.img.get_pixelu32(x, y).to_pixel(), color.to_pixel());
            }
        }
        assert_eq!(rays, expected_rays);
        let mut single = Raytracer::new(&cam, Image::new(8, 4), aa);
        let count = single.render_pixel(5, 2, &scene, &lights, 2);
        assert_eq!(count, compute_pixel(&single.view, aa, 5, 2, &scene, &lights, 2).1);
        for y in 0..4u32 {
            for x in 0..8u32 {
                if (x, y) == (5, 2) {
                    assert_eq!(single.img.get_pixelu32(x, y), tracer.img.get_pixelu32(x, y));
                } else {
                    assert_eq!(single.img.get_pixelu32(x, y), Color::new(0, 0, 0, 0));
                }
            }
        }
    }
}

fn stereo_scene() -> (Vec<Geometry>, Lights) {
    let scene = vec![
        Geometry::Sphere(Sphere {
            origin: vec3(0.5, 0.25, 6.0),
            radius: fx(1.5),
            material: matte(Color::new(255, 255, 255, 255)),
        }),
        backdrop(Color::new(40, 40, 40, 255)),
    ];
    (scene, Lights::new(vec![white_light(-4.0, 4.0, 0.0, 1.0)]))
}

#[test]
fn eyes_without_distance_render_the_same_image() {
    let (scene, lights) = stereo_scene();
    let mut stereo = Anaglyph::new(&front_camera(), Image::new(24, 16), Antialiasing::Off, fx(0.0));
    assert_eq!(stereo.left.view, stereo.right.view);
    assert_eq!(stereo.left.view, Viewport::new(&front_camera(), 24, 16));
    let rays = stereo.render(&scene, &lights, 1);
    assert_eq!(rays, 2 * 24 * 16);
    let mut differing = 0;
    for y in 0..16u32 {
        for x in 0..24u32 {
            let left = stereo.left.img.get_pixelu32(x, y);
            let right = stereo.right.img.get_pixelu32(x, y);
            assert_eq!(left, right);
            let merged = Color::new(0, 255, 255, 255).scale(left.to_gray()).add(
                Color::new(255, 0, 0, 255).scale(right.to_gray()),
            );
            assert_eq!(stereo.img.get_pixelu32(x, y).to_pixel(), merged.to_pixel());
            let pixel = stereo.img.get_pixelu32(x, y).to_pixel();
            assert_eq!(pixel.g, pixel.b);
            assert_eq!(pixel.r, pixel.g);
            assert_eq!(pixel.a, 255);
            if pixel.r != 39 && pixel.r != 40 {
                differing += 1;
            }
        }
    }
    assert!(differing > 10);
}

#[test]
fn eyes_apart_see_the_scene_from_two_sides() {
    let (scene, lights) = stereo_scene();
    let cam = front_camera();
    let mut stereo = Anaglyph::new(&cam, Image::new(24, 16), Antialiasing::Off, fx(0.5));
    assert_eq!(stereo.left.view.origin, vec3(0.25, 0.0, 0.0));
    assert_eq!(stereo.right.view.origin, vec3(-0.25, 0.0, 0.0));
    assert_eq!(stereo.left.view.right, stereo.right.view.right);
    assert_eq!(stereo.left.view.plane_width, stereo.right.view.plane_width);
    stereo.render(&scene, &lights, 1);
    let mut differing = 0;
    for y in 0..16u32 {
        for x in 0..24u32 {
            let left = stereo.left.img.get_pixelu32(x, y);
            let right = stereo.right.img.get_pixelu32(x, y);
            if left != right {
                differing += 1;
            }
            let merged = Color::new(0, 255, 255, 255).scale(left.to_gray()).add(
                Color::new(255, 0, 0, 255).scale(right.to_gray()),
            );
            assert_eq!(stereo.img.get_pixelu32(x, y).to_pixel(), merged.to_pixel());
        }
    }
    assert!(differing > 5);
}

#[test]
fn ray_count_stays_within_the_bound_of_the_budget() {
    let both = Material::new(Color::new(0, 0, 0, 128), fx(0.0), fx(0.0), 0, fx(0.5), None).unwrap();
    let scene = vec![
        wall(5.0, both),
        wall(-5.0, both),
        sphere(0.0, 9.0, both),
        backdrop(Color::new(1, 1, 1, 255)),
    ];
    let lights = Lights::new(vec![white_light(0.0, 1.0, 0.0, 1.0)]);
    let mut bound = 1u64;
    let mut last = 0;
    for budget in 0..10u32 {
        let (_, rays) = trace_bounded(&forward(), &scene, &lights, budget, None);
        assert!(rays >= 1 && rays <= bound, "budget {} rays {} bound {}", budget, rays, bound);
        assert!(rays >= last);
        last = rays;
        bound = 1 + 2 * bound;
    }
    assert!(last > 100);
}

#[test]
fn grid_of_two_averages_the_four_quarter_points() {
    let (scene, lights) = edge_scene();
    let view = Viewport::new(&front_camera(), 16, 16);
    for (x, y) in [(8u32, 8u32), (7, 3), (9, 12)] {
        let mut seen_all = Vec::new();
        let mut count = 0;
        for dx in [-0.25, 0.25] {
            for dy in [-0.25, 0.25] {
                let ray = view.get_ray(fx(x as f64 + dx), fx(y as f64 + dy)).unit();
                let (seen, rays) = Raytracer::trace(&ray, &scene, &lights, 1, None);
                seen_all.push(seen);
                count += rays;
            }
        }
        let expected = (samples_mean(&seen_all), count);
        assert_eq!(compute_pixel(&view, Antialiasing::Grid(2), x, y, &scene, &lights, 1), expected);
    }
    let (half, _) = compute_pixel(&view, Antialiasing::Grid(2), 8, 8, &scene, &lights, 1);
    assert_eq!(half.r, Fixed::from_raw(13107).mul(fx(2.0)).div(fx(4.0)));
}

#[test]
fn stereo_merge_can_be_repeated() {
    let (scene, lights) = stereo_scene();
    let mut stereo = Anaglyph::new(&front_camera(), Image::new(6, 4), Antialiasing::Off, fx(0.25));
    stereo.render(&scene, &lights, 1);
    let before: Vec<Color> = (0..4u32)
        .flat_map(|y| (0..6u32).map(move |x| (x, y)))
        .map(|(x, y)| stereo.img.get_pixelu32(x, y))
        .collect();
    stereo.merge();
    let after: Vec<Color> = (0..4u32)
        .flat_map(|y| (0..6u32).map(move |x| (x, y)))
        .map(|(x, y)| stereo.img.get_pixelu32(x, y))
        .collect();
    assert_eq!(before, after);
}

#[test]
fn renderers_encode_their_images() {
    let (scene, lights) = stereo_scene();
    let mut tracer = Raytracer::new(&front_camera(), Image::new(6, 4), Antialiasing::Off);
    tracer.render(&scene, &lights, 1);
    assert_eq!(tracer.encode_png(), tracer.img.encode_png());
    assert!(tracer.encode_png().unwrap().len() > 8);
    let mut stereo = Anaglyph::new(&front_camera(), Image::new(6, 4), Antialiasing::Off, fx(0.25));
    stereo.render(&scene, &lights, 1);
    assert_eq!(stereo.encode_png(), stereo.img.encode_png());
    assert_ne!(stereo.encode_png(), stereo.left.encode_png());
}

#[test]
fn rows_computed_one_by_one_make_the_rendered_image() {
    let (scene, lights) = stereo_scene();
    let cam = front_camera();
    for aa in [Antialiasing::Off, Antialiasing::Grid(2)] {
        let mut whole = Raytracer::new(&cam, Image::new(9, 5), aa);
        let rays = whole.render(&scene, &lights, 2);
        let mut by_rows = Raytracer::new(&cam, Image::new(9, 5), aa);
        let mut row_rays = 0;
        for y in [3u32, 0, 4, 1, 2] {
            let (colors, count) = compute_row(&by_rows.view, aa, y, &scene, &lights, 2);
            assert_eq!(colors.len(), 9);
            for x in 0..9u32 {
                assert_eq!(colors[x as usize], compute_pixel(&by_rows.view, aa, x, y, &scene, &lights, 2).0);
            }
            by_rows.store_row(y, &colors);
            row_rays += count;
        }
        assert_eq!(rays, row_rays);
        for y in 0..5u32 {
            for x in 0..9u32 {
                assert_eq!(whole.img.get_pixelu32(x, y), by_rows.img.get_pixelu32(x, y));
            }
        }
        assert_eq!(whole.encode_png(), by_rows.encode_png());
    }
}

#[test]
fn storing_a_row_leaves_the_other_rows() {
    let mut tracer = Raytracer::new(&front_camera(), Image::new(3, 3), Antialiasing::Off);
    let row = vec![Color::new(1, 2, 3, 4), Color::new(5, 6, 7, 8), Color::new(9, 10, 11, 12)];
    tracer.store_row(1, &row);
    for y in 0..3u32 {
        for x in 0..3u32 {
            let expected = if y == 1 { row[x as usize] } else { Color::new(0, 0, 0, 0) };
            assert_eq!(tracer.img.get_pixelu32(x, y), expected);
        }
    }
}

fn samples_mean(samples: &Vec<Color>) -> Color {
    let n = samples.len() as i64;
    let channel = |pick: fn(&Color) -> Fixed| {
        let sum: i64 = samples.iter().map(|c| pick(c).raw as i64).sum();
        Fixed::from_raw(sum.div_euclid(n) as i32)
    };
    let mut opacity = Fixed::zero();
    for c in samples {
        opacity = opacity.add(c.a);
    }
    Color { r: channel(|c| c.r), g: channel(|c| c.g), b: channel(|c| c.b), a: opacity }
}

#[test]
fn dim_light_lights_as_a_bright_one() {
    let white = matte(Color::new(255, 255, 255, 255));
    let scene = vec![sphere(16.0, 5.0, white)];
    let ray = forward();
    let bright = Lights::new(vec![white_light(0.0, 0.0, 0.0, 1.0)]);
    let expected = Raytracer::trace(&ray, &scene, &bright, 1, None);
    assert_eq!(expected.0.r, fx(1.0).add(Fixed::from_raw(13107)));
    for raw in [1, 2, 7, 65535, 65537, 5 * 65536, i32::MAX] {
        let light = Light {
            source: vec3(0.0, 0.0, 0.0),
            color: Color::new(255, 255, 255, 255),
            intensity: Fixed::from_raw(raw),
        };
        let lights = Lights::new(vec![light]);
        assert_eq!(Raytracer::trace(&ray, &scene, &lights, 1, None), expected, "intensity {}", raw);
    }
    let slanted = Light {
        source: vec3(0.0, 12.0, 4.0),
        color: Color::new(255, 255, 255, 255),
        intensity: Fixed::from_raw(1),
    };
    let (color, _) = Raytracer::trace(&ray, &scene, &Lights::new(vec![slanted]), 1, None);
    assert!((fl(color.r) - (0.2 + 7.0 / 193.0f64.sqrt())).abs() < 0.001, "{}", fl(color.r));
}

#[test]
fn lights_are_weighted_by_their_intensity() {
    let white = matte(Color::new(255, 255, 255, 255));
    let scene = vec![sphere(16.0, 5.0, white)];
    let ray = forward();
    let front = white_light(0.0, 0.0, 0.0, 3.0);
    let behind = white_light(0.0, 0.0, 40.0, 1.0);
    let lights = Lights::new(vec![front, behind]);
    let (color, _) = Raytracer::trace(&ray, &scene, &lights, 1, None);
    let lit = fx(1.0).add(Fixed::from_raw(13107)).raw as i64;
    let dark = 13107i64;
    assert_eq!(color.r.raw as i64, (lit * 3 * 65536 + dark * 65536) / (4 * 65536));
}

#[test]
fn large_grid_keeps_the_brightness() {
    let scene = vec![backdrop(Color::new(200, 100, 50, 255))];
    let lights = Lights::new(vec![white_light(0.0, 0.0, 0.0, 1.0)]);
    let view = Viewport::new(&front_camera(), 4, 4);
    let expected = Color::new(200, 100, 50, 255);
    for n in [1u32, 3, 181, 182, 200] {
        let (color, rays) = compute_pixel(&view, Antialiasing::Grid(n), 1, 2, &scene, &lights, 1);
        assert_eq!(rays, (n * n) as u64);
        assert_eq!((color.r, color.g, color.b), (expected.r, expected.g, expected.b), "grid {}", n);
    }
}

#[test]
fn primitives_that_cast_no_shadow_change_nothing() {
    let white = matte(Color::new(255, 255, 255, 255));
    let target = sphere(16.0, 5.0, white);
    let lights = Lights::new(vec![white_light(0.0, 20.0, 0.0, 2.0), white_light(-9.0, 0.0, 3.0, 1.0)]);
    let ray = forward();
    let alone = vec![target];
    let hit = find_nearest(&ray, &alone, None).unwrap();
    let expected = Raytracer::shade(&ray, &hit, &alone, &lights, 1);
    let crowded = vec![
        target,
        sphere(40.0, 3.0, coloured(255, 0, 0)),
        wall(30.0, coloured(0, 255, 0)),
        backdrop(Color::new(5, 5, 5, 255)),
    ];
    for budget in [1, 3, 9] {
        assert_eq!(Raytracer::shade(&ray, &hit, &crowded, &lights, budget), expected);
        assert_eq!(Raytracer::shade(&ray, &hit, &alone, &lights, budget), expected);
    }
    assert_eq!(expected.1, 1);
}

#[test]
fn lit_surface_is_at_least_as_bright_as_the_ambient_share() {
    let white = matte(Color::new(255, 255, 255, 255));
    let scene = vec![sphere(16.0, 5.0, white), wall(3.0, coloured(0, 0, 0)), backdrop(Color::clear())];
    let ray = forward();
    let hit = scene[0].intersect(0, &ray, Fixed::infinity()).unwrap();
    for (x, y, z, raw) in [(3.0, 5.0, 15.0, 65536), (0.0, 0.0, 40.0, 1), (0.0, 0.0, 0.0, 7), (9.0, -9.0, 2.0, 300000)] {
        let light = Light {
            source: vec3(x, y, z),
            color: Color::new(255, 255, 255, 255),
            intensity: Fixed::from_raw(raw),
        };
        let (color, rays) = Raytracer::shade(&ray, &hit, &scene, &Lights::new(vec![light]), 2);
        assert_eq!(rays, 1);
        assert!(color.r.raw >= 13107 && color.g.raw >= 13107 && color.b.raw >= 13107);
        assert!(color.to_pixel().r >= 50);
    }
}

#[test]
fn wide_images_keep_their_geometry() {
    let ball = Geometry::Sphere(Sphere {
        origin: vec3(-8.0, 0.0, 16.0),
        radius: fx(2.0),
        material: coloured(255, 255, 255),
    });
    let scene = vec![ball, backdrop(Color::new(0, 0, 0, 255))];
    let lights = Lights::new(vec![white_light(0.0, 0.0, 0.0, 1.0)]);
    let view = Viewport::new(&front_camera(), 40000, 80000);
    assert_eq!(view.plane_width, fx(1.0));
    assert_eq!(view.plane_height, fx(2.0));
    let lit = compute_pixel(&view, Antialiasing::Off, 30000, 40000, &scene, &lights, 1).0;
    assert_eq!(lit.r, Fixed::from_raw(13107));
    let dark = compute_pixel(&view, Antialiasing::Off, 10000, 40000, &scene, &lights, 1).0;
    assert_eq!(dark.r, fx(0.0));
    let grid = compute_pixel(&view, Antialiasing::Grid(3), 30000, 40000, &scene, &lights, 1);
    assert_eq!(grid, (Color { a: lit.a.add(lit.a).add(lit.a).add(lit.a).add(lit.a).add(lit.a).add(lit.a).add(lit.a).add(lit.a), ..lit }, 9));
    assert_eq!(view.get_ray(fx(30000.0), fx(20000.0)).direction, vec3(-0.5, 1.0, 1.0));
    let flat = Viewport::new(&front_camera(), 3, 0);
    assert_eq!(flat.plane_height, fx(0.0));
    let thin = Viewport::new(&front_camera(), 0, 3);
    assert_eq!(thin.plane_height, Fixed::infinity());
    assert_eq!(thin.get_ray(fx(1.0), fx(1.0)).direction.x, Fixed::from_raw(-i32::MAX));
}

#[test]
fn background_casts_no_shadow_on_a_far_light() {
    let white = matte(Color::new(255, 255, 255, 255));
    let ball = Geometry::Sphere(Sphere { origin: vec3(-20000.0, 0.0, 0.0), radius: fx(5.0), material: white });
    let ray = Ray { origin: vec3(-20000.0, 0.0, -20.0), direction: vec3(0.0, 0.0, 1.0) };
    let lights = Lights::new(vec![white_light(30000.0, 0.0, -10000.0, 1.0)]);
    let open = vec![ball];
    let closed = vec![backdrop(Color::new(0, 0, 0, 255)), ball, backdrop(Color::new(0, 0, 0, 255))];
    let expected = Raytracer::trace(&ray, &open, &lights, 1, None);
    assert!(expected.0.r.raw > 13107 + 1000);
    assert_eq!(Raytracer::trace(&ray, &closed, &lights, 1, None), expected);
    let hit = find_nearest(&ray, &closed, None).unwrap();
    assert_eq!(hit.obj, 1);
    let reach = hit.pos.distance_to(&lights.sources[0].source);
    assert!(!reach.is_finite());
    let shadow = Ray { origin: hit.pos, direction: hit.pos.unit_to(&lights.sources[0].source) };
    assert_eq!(light_amount(&closed, &shadow, reach, 1), fx(1.0));
    let cosine = 9995.0 / (50000.0f64 * 50000.0 + 9995.0 * 9995.0).sqrt();
    assert!((fl(shadow.direction.z) + cosine).abs() < 0.0001);
    assert!((fl(expected.0.r) - (0.2 + cosine)).abs() < 0.001, "{}", fl(expected.0.r));
}
