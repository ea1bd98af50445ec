//! The renderer: camera rays, recursive tracing and shading, supersampling
//! and stereo compositing.
//!
//! A camera gives the ray through a position of the image with the point of
//! the image plane as its direction; the renderer normalises that direction
//! where it traces the ray, so the distance of a hit is a length. Reflection
//! and transparency share one budget of bounces, which each secondary ray
//! lowers by one.
//!
//! The spec functions of this module say what each pixel is; the executable
//! functions are proved to compute exactly that.

use crate::fixed::clamp_to_raw;
use crate::fixed::div_floor;
use crate::fixed::lemma_mul_bound;
use crate::fixed::mul_wide;
use crate::fixed::quot_raw;
use crate::fixed::Fixed;
use crate::fixed::RAW_MAX;
use crate::fixed::SCALE;
use crate::image::in_bounds;
use crate::image::Color;
use crate::image::EncodeError;
use crate::image::Image;
use crate::image::Pixel;
use crate::matrix::vector::wide_mul;
use crate::matrix::vector::Vector3D;
use crate::raytracer::geometry::Geometry;
use crate::raytracer::geometry::Light;
use crate::raytracer::geometry::Lights;
use crate::raytracer::geometry::Ray;
use crate::raytracer::geometry::Rayhit;
use vstd::prelude::*;

mod algebra;
pub mod geometry;
pub mod laws;

verus! {

/// Numerator of the share of a light that reaches every lit surface, about
/// one fifth.
pub const AMBIENT: i32 = 13107;

/// The value clamped to the unit interval.
pub fn clamp(input: Fixed) -> (r: Fixed)
    ensures
        r == input.spec_clamp_unit(),
{
    input.clamp_unit()
}

/// The number of rays as the renderer reports it: saturating at the largest
/// `u64`.
pub open spec fn sat_count(n: nat) -> u64 {
    if n > u64::MAX {
        u64::MAX
    } else {
        n as u64
    }
}

/// The distance that a new hit has to beat.
pub open spec fn closest_of(best: Option<Rayhit>) -> Fixed {
    match best {
        Some(hit) => hit.dist,
        None => Fixed::of(RAW_MAX as int),
    }
}

/// The hit that the scan of the first `n` primitives of the scene keeps. The
/// primitive `ignore` is passed over; each other one is asked for a hit that
/// the distance of the hit kept so far admits.
pub open spec fn nearest_hit(scene: Seq<Geometry>, ray: Ray, ignore: Option<usize>, n: nat) -> Option<
    Rayhit,
>
    decreases n,
{
    if n == 0 {
        None
    } else {
        let best = nearest_hit(scene, ray, ignore, (n - 1) as nat);
        let i = (n - 1) as usize;
        if ignore == Some(i) {
            best
        } else {
            match scene[n - 1].spec_intersect(i, ray, closest_of(best)) {
                Some(hit) => Some(hit),
                None => best,
            }
        }
    }
}

/// The light that is left of `amount` behind an occluder of opacity `alpha`.
pub open spec fn dimmed(amount: Fixed, alpha: Fixed) -> Fixed {
    let rest = amount.spec_mul(Fixed::of(SCALE as int).spec_sub(alpha));
    if rest@ <= 0 {
        Fixed::of(0)
    } else {
        rest
    }
}

/// The share of a light that reaches a surface point past the first `n`
/// primitives of the scene. `shadow_ray` runs from the point towards the
/// light, which lies at the distance `reach`; the primitive `skip`, on which
/// the point lies, casts no shadow on itself, and neither does the
/// background, which lies behind every light. Once no light is left, none
/// comes back.
pub open spec fn light_reaching(
    scene: Seq<Geometry>,
    shadow_ray: Ray,
    reach: Fixed,
    skip: usize,
    n: nat,
) -> Fixed
    decreases n,
{
    if n == 0 {
        Fixed::of(SCALE as int)
    } else {
        let before = light_reaching(scene, shadow_ray, reach, skip, (n - 1) as nat);
        let i = (n - 1) as usize;
        if before@ <= 0 {
            Fixed::of(0)
        } else if i == skip {
            before
        } else {
            match scene[n - 1].spec_intersect(i, shadow_ray, reach) {
                Some(occluder) => if occluder.dist.spec_is_finite() {
                    dimmed(before, occluder.material.color.a)
                } else {
                    before
                },
                None => before,
            }
        }
    }
}

/// The ray from a hit towards a light.
pub open spec fn shadow_ray(hit: Rayhit, light: Light) -> Ray {
    Ray { direction: hit.pos.spec_unit_to(light.source), origin: hit.pos }
}

/// The distance from a hit to a light.
pub open spec fn light_distance(hit: Rayhit, light: Light) -> Fixed {
    hit.pos.spec_distance_to(light.source)
}

/// What one light shows of a hit when the share `amount` of it arrives:
/// the sum of the ambient, the diffuse and the specular term. The intensity
/// of the light is its weight among the lights and enters with the sum over
/// the lights.
#[verifier::opaque]
pub open spec fn light_term(ray: Ray, hit: Rayhit, light: Light, amount: Fixed) -> Color {
    let to_light = shadow_ray(hit, light).direction;
    let half_angle = to_light.spec_sub(ray.direction).spec_normalized();
    let mixed = light.color.spec_modulate(hit.material.color);
    let ambient = mixed.spec_scale(Fixed::of(AMBIENT as int));
    let diffuse = mixed.spec_scale(
        hit.normal.spec_dot(to_light).spec_clamp_unit().spec_mul(amount).spec_mul(
            hit.material.diffuse,
        ),
    );
    let specular = light.color.spec_scale(
        hit.normal.spec_dot(half_angle).spec_clamp_unit().spec_powi(
            hit.material.specular_n,
        ).spec_mul(amount).spec_mul(hit.material.specular),
    );
    ambient.spec_add(diffuse).spec_add(specular)
}

/// What one light shows of a hit in the scene, shadows included.
pub open spec fn shadowed_term(ray: Ray, hit: Rayhit, scene: Seq<Geometry>, light: Light) -> Color {
    light_term(
        ray,
        hit,
        light,
        light_reaching(scene, shadow_ray(hit, light), light_distance(hit, light), hit.obj, scene.len()),
    )
}

/// One more light in a weighted sum. The color channels of `term`, times
/// the weight, are added exactly, as products of numerators; the opacities
/// are added as they are.
pub open spec fn weighed(sum: (int, int, int, Fixed), term: Color, weight: Fixed) -> (
    int,
    int,
    int,
    Fixed,
) {
    (
        sum.0 + term.r@ * weight@,
        sum.1 + term.g@ * weight@,
        sum.2 + term.b@ * weight@,
        sum.3.spec_add(term.a),
    )
}

/// One more color in a plain sum: the numerators of the color channels are
/// added exactly, the opacities as they are.
pub open spec fn summed(sum: (int, int, int, Fixed), term: Color) -> (int, int, int, Fixed) {
    (sum.0 + term.r@, sum.1 + term.g@, sum.2 + term.b@, sum.3.spec_add(term.a))
}

/// The weighted mean of a weighted sum: each color channel divided once by
/// the total weight and rounded down. The opacity is kept as it is.
pub open spec fn weighted_mean(sum: (int, int, int, Fixed), total: int) -> Color {
    Color {
        r: Fixed::of(sum.0 / total),
        g: Fixed::of(sum.1 / total),
        b: Fixed::of(sum.2 / total),
        a: sum.3,
    }
}

/// The sum of what the first `n` lights show of a hit, each weighted with
/// its intensity.
pub open spec fn lights_sum(
    ray: Ray,
    hit: Rayhit,
    scene: Seq<Geometry>,
    sources: Seq<Light>,
    n: nat,
) -> (int, int, int, Fixed)
    decreases n,
{
    if n == 0 {
        (0, 0, 0, Fixed::of(0))
    } else {
        weighed(
            lights_sum(ray, hit, scene, sources, (n - 1) as nat),
            shadowed_term(ray, hit, scene, sources[n - 1]),
            sources[n - 1].intensity,
        )
    }
}

/// The direct lighting of a hit: the mean of what the lights show of it,
/// weighted with their intensities. The products stay exact until the
/// weighted sum is divided by the total intensity, so a dim light lights
/// as a bright one does. Without any intensity the hit stays unlit.
pub open spec fn local_shade(
    ray: Ray,
    hit: Rayhit,
    scene: Seq<Geometry>,
    sources: Seq<Light>,
    total: Fixed,
) -> Color {
    if total@ > 0 {
        weighted_mean(lights_sum(ray, hit, scene, sources, sources.len()), total@)
    } else {
        Color::spec_clear()
    }
}

/// The direction `dir` mirrored at a surface with the unit normal `normal`.
pub open spec fn reflected(dir: Vector3D, normal: Vector3D) -> Vector3D {
    dir.spec_sub(normal.spec_scale(dir.spec_dot(normal)).spec_scale(Fixed::of(2 * SCALE)))
}

/// The ray that leaves a hit in the direction `dir`.
pub open spec fn secondary_ray(hit: Rayhit, dir: Vector3D) -> Ray {
    Ray { direction: dir, origin: hit.pos }
}

/// Whether a hit spawns a mirrored ray.
pub open spec fn reflects(hit: Rayhit, budget: nat) -> bool {
    budget > 0 && hit.material.reflectivity@ > 0
}

/// Whether a hit spawns a ray that passes through the surface.
pub open spec fn transmits(hit: Rayhit, budget: nat) -> bool {
    budget > 0 && hit.material.color.a@ < SCALE
}

/// The color that `ray` sees in the scene and the number of rays that were
/// followed for it, with `budget` bounces left and the primitive `ignore`
/// passed over.
pub open spec fn spec_trace(
    ray: Ray,
    scene: Seq<Geometry>,
    sources: Seq<Light>,
    total: Fixed,
    budget: nat,
    ignore: Option<usize>,
) -> (Color, nat)
    decreases budget, 1nat,
{
    match nearest_hit(scene, ray, ignore, scene.len()) {
        Some(hit) => spec_shade(ray, hit, scene, sources, total, budget),
        None => (Color::spec_clear(), 1),
    }
}

/// The color of a hit and the number of rays that were followed for it. The
/// background shows its own color. Any other surface shows its direct
/// lighting, plus what a mirrored ray sees times the reflectivity, plus what
/// a ray through the surface sees times the transparency; both rays start at
/// the hit, pass over the surface they leave and have one bounce less.
pub open spec fn spec_shade(
    ray: Ray,
    hit: Rayhit,
    scene: Seq<Geometry>,
    sources: Seq<Light>,
    total: Fixed,
    budget: nat,
) -> (Color, nat)
    decreases budget, 0nat,
{
    if !hit.dist.spec_is_finite() {
        (hit.material.color, 1)
    } else {
        let local = local_shade(ray, hit, scene, sources, total);
        let mirrored = if reflects(hit, budget) {
            let seen = spec_trace(
                secondary_ray(hit, reflected(ray.direction, hit.normal)),
                scene,
                sources,
                total,
                (budget - 1) as nat,
                Some(hit.obj),
            );
            (seen.0.spec_scale(hit.material.reflectivity), seen.1)
        } else {
            (Color::spec_clear(), 0nat)
        };
        let through = if transmits(hit, budget) {
            let seen = spec_trace(
                secondary_ray(hit, ray.direction),
                scene,
                sources,
                total,
                (budget - 1) as nat,
                Some(hit.obj),
            );
            (seen.0.spec_scale(Fixed::of(SCALE as int).spec_sub(hit.material.color.a)), seen.1)
        } else {
            (Color::spec_clear(), 0nat)
        };
        (local.spec_add(mirrored.0).spec_add(through.0), 1 + mirrored.1 + through.1)
    }
}

/// Once no light is left, none comes back.
pub proof fn lemma_dark_stays_dark(
    scene: Seq<Geometry>,
    shadow_ray: Ray,
    reach: Fixed,
    skip: usize,
    n: nat,
    m: nat,
)
    requires
        n <= m,
        light_reaching(scene, shadow_ray, reach, skip, n) == Fixed::of(0),
    ensures
        light_reaching(scene, shadow_ray, reach, skip, m) == Fixed::of(0),
    decreases m,
{
    if n < m {
        lemma_dark_stays_dark(scene, shadow_ray, reach, skip, n, (m - 1) as nat);
    }
}

/// The hit that the scan of the whole scene keeps.
pub fn find_nearest(ray: &Ray, scene: &Vec<Geometry>, ignore: Option<usize>) -> (best: Option<Rayhit>)
    ensures
        best == nearest_hit(scene@, *ray, ignore, scene@.len()),
{
    let mut best: Option<Rayhit> = None;
    let mut closest = Fixed::infinity();
    let mut i: usize = 0;
    while i < scene.len()
        invariant
            i <= scene@.len(),
            best == nearest_hit(scene@, *ray, ignore, i as nat),
            closest == closest_of(best),
        decreases scene@.len() - i,
    {
        let skipped = match ignore {
            Some(x) => x == i,
            None => false,
        };
        if !skipped {
            match scene[i].intersect(i, ray, closest) {
                Some(hit) => {
                    closest = hit.dist;
                    best = Some(hit);
                },
                None => {},
            }
        }
        i += 1;
    }
    best
}

/// The share of a light at the distance `reach` along `shadow_ray` that gets
/// past the scene.
pub fn light_amount(scene: &Vec<Geometry>, shadow_ray: &Ray, reach: Fixed, skip: usize) -> (amount:
    Fixed)
    ensures
        amount == light_reaching(scene@, *shadow_ray, reach, skip, scene@.len()),
{
    let mut amount = Fixed::one();
    let mut i: usize = 0;
    while i < scene.len()
        invariant_except_break
            i <= scene@.len(),
            amount@ > 0,
            amount == light_reaching(scene@, *shadow_ray, reach, skip, i as nat),
        ensures
            amount == light_reaching(scene@, *shadow_ray, reach, skip, scene@.len()),
        decreases scene@.len() - i,
    {
        if i != skip {
            match scene[i].intersect(i, shadow_ray, reach) {
                Some(occluder) => {
                    if occluder.dist.is_finite() {
                        let rest = amount.mul(Fixed::one().sub(occluder.material.color.a));
                        if rest.raw <= 0 {
                            amount = Fixed::zero();
                            proof {
                                lemma_dark_stays_dark(
                                    scene@,
                                    *shadow_ray,
                                    reach,
                                    skip,
                                    (i + 1) as nat,
                                    scene@.len(),
                                );
                            }
                            break ;
                        }
                        amount = rest;
                    }
                },
                None => {},
            }
        }
        i += 1;
    }
    amount
}

/// What one light adds to a hit in the scene.
pub fn light_contribution(ray: &Ray, hit: &Rayhit, scene: &Vec<Geometry>, light: &Light) -> (c:
    Color)
    ensures
        c == shadowed_term(*ray, *hit, scene@, *light),
{
    proof {
        reveal(light_term);
    }
    let reach = hit.pos.distance_to(&light.source);
    let to_light = hit.pos.unit_to(&light.source);
    let ray_to_light = Ray { direction: to_light, origin: hit.pos };
    let half_angle = to_light.sub(ray.direction).normalized();
    let amount = light_amount(scene, &ray_to_light, reach, hit.obj);
    let mixed = light.color.modulate(hit.material.color);
    let ambient = mixed.scale(Fixed { raw: AMBIENT });
    let diffuse = mixed.scale(
        clamp(hit.normal.dot(&to_light)).mul(amount).mul(hit.material.diffuse),
    );
    let specular = light.color.scale(
        clamp(hit.normal.dot(&half_angle)).powi(hit.material.specular_n).mul(amount).mul(
            hit.material.specular,
        ),
    );
    ambient.add(diffuse).add(specular)
}

/// The direct lighting of a hit.
pub fn shade_local(ray: &Ray, hit: &Rayhit, scene: &Vec<Geometry>, lights: &Lights) -> (c: Color)
    ensures
        c == local_shade(*ray, *hit, scene@, lights.sources@, lights.total_intensity),
{
    if lights.total_intensity.raw <= 0 {
        return Color::clear();
    }
    let mut red: i128 = 0;
    let mut green: i128 = 0;
    let mut blue: i128 = 0;
    let mut opacity = Fixed::zero();
    let mut i: usize = 0;
    while i < lights.sources.len()
        invariant
            i <= lights.sources@.len(),
            (red as int, green as int, blue as int, opacity) == lights_sum(
                *ray,
                *hit,
                scene@,
                lights.sources@,
                i as nat,
            ),
            -(i * 0x4000_0000_0000_0000) <= red <= i * 0x4000_0000_0000_0000,
            -(i * 0x4000_0000_0000_0000) <= green <= i * 0x4000_0000_0000_0000,
            -(i * 0x4000_0000_0000_0000) <= blue <= i * 0x4000_0000_0000_0000,
        decreases lights.sources@.len() - i,
    {
        let term = light_contribution(ray, hit, scene, &lights.sources[i]);
        let weight = lights.sources[i].intensity.raw;
        red = red + wide_mul(term.r.raw, weight);
        green = green + wide_mul(term.g.raw, weight);
        blue = blue + wide_mul(term.b.raw, weight);
        opacity = opacity.add(term.a);
        i += 1;
    }
    let total = lights.total_intensity.raw as i128;
    Color {
        r: Fixed { raw: clamp_to_raw(div_floor(red, total)) },
        g: Fixed { raw: clamp_to_raw(div_floor(green, total)) },
        b: Fixed { raw: clamp_to_raw(div_floor(blue, total)) },
        a: opacity,
    }
}

/// The direction `dir` mirrored at a surface with the unit normal `normal`.
pub fn reflect(dir: Vector3D, normal: Vector3D) -> (r: Vector3D)
    ensures
        r == reflected(dir, normal),
{
    dir.sub(normal.scale(dir.dot(&normal)).scale(Fixed { raw: 2 * SCALE }))
}

/// The color that `ray` sees and the number of rays followed, for any number
/// of bounces left.
pub fn trace_bounded(
    ray: &Ray,
    scene: &Vec<Geometry>,
    lights: &Lights,
    remaining: u32,
    ignore: Option<usize>,
) -> (r: (Color, u64))
    ensures
        r.0 == spec_trace(
            *ray,
            scene@,
            lights.sources@,
            lights.total_intensity,
            remaining as nat,
            ignore,
        ).0,
        r.1 == sat_count(
            spec_trace(
                *ray,
                scene@,
                lights.sources@,
                lights.total_intensity,
                remaining as nat,
                ignore,
            ).1,
        ),
    decreases remaining, 1nat,
{
    match find_nearest(ray, scene, ignore) {
        Some(hit) => shade_bounded(ray, &hit, scene, lights, remaining),
        None => (Color::clear(), 1),
    }
}

/// The color of a hit and the number of rays followed for it, for any
/// number of bounces left: the direct lighting, and what a mirrored ray and
/// a ray through the surface see while bounces are left.
pub fn shade_bounded(
    ray: &Ray,
    hit: &Rayhit,
    scene: &Vec<Geometry>,
    lights: &Lights,
    reflections: u32,
) -> (r: (Color, u64))
    ensures
        r.0 == spec_shade(
            *ray,
            *hit,
            scene@,
            lights.sources@,
            lights.total_intensity,
            reflections as nat,
        ).0,
        r.1 == sat_count(
            spec_shade(
                *ray,
                *hit,
                scene@,
                lights.sources@,
                lights.total_intensity,
                reflections as nat,
            ).1,
        ),
    decreases reflections, 0nat,
{
    if !hit.dist.is_finite() {
        return (hit.material.color, 1);
    }
    let local = shade_local(ray, hit, scene, lights);
    let mut ray_count: u64 = 1;
    let light_reflected = if reflections > 0 && hit.material.reflectivity.raw > 0 {
        let mirror_ray = Ray { direction: reflect(ray.direction, hit.normal), origin: hit.pos };
        let (seen, rays) = trace_bounded(&mirror_ray, scene, lights, reflections - 1, Some(hit.obj));
        ray_count = ray_count.saturating_add(rays);
        seen.scale(hit.material.reflectivity)
    } else {
        Color::clear()
    };
    let light_transparent = if reflections > 0 && hit.material.color.a.raw < SCALE {
        let through_ray = Ray { direction: ray.direction, origin: hit.pos };
        let (seen, rays) = trace_bounded(&through_ray, scene, lights, reflections - 1, Some(hit.obj));
        ray_count = ray_count.saturating_add(rays);
        seen.scale(Fixed::one().sub(hit.material.color.a))
    } else {
        Color::clear()
    };
    (local.add(light_reflected).add(light_transparent), ray_count)
}

/// How many rays are cast for one pixel.
#[derive(Clone, Copy, Debug, PartialEq, Eq, Structural)]
pub enum Antialiasing {
    /// One ray through the pixel.
    Off,
    /// A square grid of rays with the given number of rays on each side.
    Grid(u32),
}

/// Where the viewer stands and looks.
#[derive(Clone, Copy, Debug, PartialEq, Eq, Structural)]
pub struct Camera {
    /// The position of the viewer.
    pub position: Vector3D,
    /// The direction of view; its length is the focal distance.
    pub look: Vector3D,
    /// Roughly upwards; the renderer makes it orthogonal to `look`.
    pub up: Vector3D,
    /// The tangent of half the horizontal field of view.
    pub half_fov_tan: Fixed,
}

/// The image plane of a camera for an image of a given size.
#[derive(Clone, Copy, Debug, PartialEq, Eq, Structural)]
pub struct Viewport {
    pub origin: Vector3D,
    pub center: Vector3D,
    pub up: Vector3D,
    pub right: Vector3D,
    pub plane_width: Fixed,
    pub plane_height: Fixed,
    pub width: u32,
    pub height: u32,
}

/// A position `p` in the image, in pixels, as a place in the image plane:
/// from `-1` at one edge to `1` at the other, `2 * p / extent - 1`, rounded
/// once.
pub open spec fn plane_coordinate(p: Fixed, extent: u32) -> Fixed {
    Fixed::of(quot_raw(2 * p@ - extent * SCALE, extent as int))
}

/// The pixel with the index `x` as a place in the image plane:
/// `2 * x / extent - 1`, rounded once.
pub open spec fn pixel_coordinate(x: u32, extent: u32) -> Fixed {
    Fixed::of(quot_raw((2 * x - extent) * SCALE, extent as int))
}

/// Ray `k` of a grid with `n` rays on each side of the pixel with the index
/// `x`, as a place in the image plane. The ray stands at the position
/// `x - 1/2 + step / 2 + step * k` with the step `1 / n`, so the place is
/// `(2 * n * x - n + 2 * k + 1) / (n * extent) - 1`, rounded once.
pub open spec fn grid_coordinate(x: u32, n: u32, k: u32, extent: u32) -> Fixed {
    Fixed::of(quot_raw((2 * n * x - n + 2 * k + 1 - n * extent) * SCALE, n * extent))
}

fn plane_coordinate_exec(p: Fixed, extent: u32) -> (c: Fixed)
    ensures
        c == plane_coordinate(p, extent),
{
    Fixed::quotient(2 * (p.raw as i128) - (extent as i128) * 65536, extent as i128)
}

fn pixel_coordinate_exec(x: u32, extent: u32) -> (c: Fixed)
    ensures
        c == pixel_coordinate(x, extent),
{
    Fixed::quotient((2 * (x as i128) - extent as i128) * 65536, extent as i128)
}

fn grid_coordinate_exec(x: u32, n: u32, k: u32, extent: u32) -> (c: Fixed)
    ensures
        c == grid_coordinate(x, n, k, extent),
{
    let ghost small = 0x1_0000_0000int;
    let nx = mul_wide(n as i128, x as i128, Ghost(small), Ghost(small));
    let nw = mul_wide(n as i128, extent as i128, Ghost(small), Ghost(small));
    assert(2 * n * x == 2 * (n * x)) by (nonlinear_arith);
    Fixed::quotient((2 * nx - n as i128 + 2 * (k as i128) + 1 - nw) * 65536, nw)
}

impl Viewport {
    /// The image plane of `cam`: `right` is the unit vector along the cross
    /// product of `look` and `up`, the new `up` the unit vector along the
    /// cross product of `right` and `look`. Half the width of the plane is
    /// the length of `look` times the tangent of half the field of view;
    /// half its height is that times the height over the width of the
    /// image, rounded once.
    pub open spec fn of_camera(cam: Camera, width: u32, height: u32) -> Viewport {
        let right = cam.look.spec_unit_cross(cam.up);
        let plane_width = cam.look.spec_norm().spec_mul(cam.half_fov_tan);
        Viewport {
            origin: cam.position,
            center: cam.position.spec_add(cam.look),
            up: right.spec_unit_cross(cam.look),
            right,
            plane_width,
            plane_height: Fixed::of(quot_raw(plane_width@ * height, width as int)),
            width,
            height,
        }
    }

    /// The ray from the viewer through the place `(cx, cy)` of the image
    /// plane. Its direction is the point of the image plane as it is,
    /// `center + right * (plane_width * cx) - up * (plane_height * cy)`; it
    /// is not normalised here.
    pub open spec fn spec_ray_through(&self, cx: Fixed, cy: Fixed) -> Ray {
        Ray {
            origin: self.origin,
            direction: self.center.spec_add(
                self.right.spec_scale(self.plane_width.spec_mul(cx)),
            ).spec_sub(self.up.spec_scale(self.plane_height.spec_mul(cy))),
        }
    }

    /// The ray from the viewer through the position `(x, y)` of the image,
    /// in pixels: the ray through the place
    /// `(2 * x / width - 1, 2 * y / height - 1)` of the image plane.
    pub open spec fn spec_get_ray(&self, x: Fixed, y: Fixed) -> Ray {
        self.spec_ray_through(plane_coordinate(x, self.width), plane_coordinate(y, self.height))
    }

    /// The image plane of `cam` for an image of the given size.
    pub fn new(cam: &Camera, width: u32, height: u32) -> (view: Viewport)
        ensures
            view == Viewport::of_camera(*cam, width, height),
    {
        let right = cam.look.unit_cross(&cam.up);
        let up = right.unit_cross(&cam.look);
        let center = cam.position.add(cam.look);
        let distance = cam.look.norm();
        let plane_width = distance.mul(cam.half_fov_tan);
        proof {
            lemma_mul_bound(plane_width@, height as int, 0x8000_0000, 0x1_0000_0000);
        }
        let plane_height = Fixed::quotient(
            plane_width.raw as i128 * height as i128,
            width as i128,
        );
        Viewport {
            origin: cam.position,
            center,
            up,
            right,
            plane_width,
            plane_height,
            width,
            height,
        }
    }

    /// The ray from the viewer through the place `(cx, cy)` of the image
    /// plane.
    pub fn ray_through(&self, cx: Fixed, cy: Fixed) -> (ray: Ray)
        ensures
            ray == self.spec_ray_through(cx, cy),
    {
        Ray {
            origin: self.origin,
            direction: self.center.add(self.right.scale(self.plane_width.mul(cx))).sub(
                self.up.scale(self.plane_height.mul(cy)),
            ),
        }
    }

    /// The ray from the viewer through the position `(x, y)` of the image.
    pub fn get_ray(&self, x: Fixed, y: Fixed) -> (ray: Ray)
        ensures
            ray == self.spec_get_ray(x, y),
    {
        self.ray_through(plane_coordinate_exec(x, self.width), plane_coordinate_exec(y, self.height))
    }
}

/// What the ray through the place `(cx, cy)` of the image plane sees. The
/// ray of the camera is traced with its direction normalised, so that the
/// distance of a hit is a length and shading sees a unit direction.
pub open spec fn sample(
    view: Viewport,
    scene: Seq<Geometry>,
    sources: Seq<Light>,
    total: Fixed,
    budget: nat,
    cx: Fixed,
    cy: Fixed,
) -> (Color, nat) {
    spec_trace(view.spec_ray_through(cx, cy).spec_unit(), scene, sources, total, budget, None)
}

/// The exact sum of the colors, and the number of the rays, of the grid rays
/// of the pixel `(x, y)` in the columns before `sx` and of the first `sy`
/// rays of column `sx`.
pub open spec fn grid_samples(
    view: Viewport,
    scene: Seq<Geometry>,
    sources: Seq<Light>,
    total: Fixed,
    budget: nat,
    x: u32,
    y: u32,
    n: u32,
    sx: nat,
    sy: nat,
) -> ((int, int, int, Fixed), nat)
    decreases sx, sy,
{
    if sy > 0 {
        let before = grid_samples(view, scene, sources, total, budget, x, y, n, sx, (sy - 1) as nat);
        let seen = sample(
            view,
            scene,
            sources,
            total,
            budget,
            grid_coordinate(x, n, sx as u32, view.width),
            grid_coordinate(y, n, (sy - 1) as u32, view.height),
        );
        (summed(before.0, seen.0), before.1 + seen.1)
    } else if sx > 0 {
        grid_samples(view, scene, sources, total, budget, x, y, n, (sx - 1) as nat, n as nat)
    } else {
        ((0, 0, 0, Fixed::of(0)), 0)
    }
}

/// The color of the pixel `(x, y)` and the number of rays followed for it:
/// what the ray through the pixel sees, or the mean of what the rays of the
/// grid see. The colors of the grid are summed exactly and divided once by
/// their number. A grid without rays leaves the pixel clear.
pub open spec fn pixel_color(
    view: Viewport,
    aa: Antialiasing,
    scene: Seq<Geometry>,
    sources: Seq<Light>,
    total: Fixed,
    budget: nat,
    x: u32,
    y: u32,
) -> (Color, nat) {
    match aa {
        Antialiasing::Off => sample(
            view,
            scene,
            sources,
            total,
            budget,
            pixel_coordinate(x, view.width),
            pixel_coordinate(y, view.height),
        ),
        Antialiasing::Grid(n) => if n == 0 {
            (Color::spec_clear(), 0)
        } else {
            let all = grid_samples(view, scene, sources, total, budget, x, y, n, n as nat, 0);
            (weighted_mean(all.0, n * n), all.1)
        },
    }
}

/// The number of rays followed for the rows before `y` and for the first `x`
/// pixels of row `y`.
pub open spec fn rays_upto(
    view: Viewport,
    aa: Antialiasing,
    scene: Seq<Geometry>,
    sources: Seq<Light>,
    total: Fixed,
    budget: nat,
    y: nat,
    x: nat,
) -> nat
    decreases y, x,
{
    if x > 0 {
        rays_upto(view, aa, scene, sources, total, budget, y, (x - 1) as nat) + pixel_color(
            view,
            aa,
            scene,
            sources,
            total,
            budget,
            (x - 1) as u32,
            y as u32,
        ).1
    } else if y > 0 {
        rays_upto(view, aa, scene, sources, total, budget, (y - 1) as nat, view.width as nat)
    } else {
        0
    }
}

/// The color of the pixel `(x, y)` and the number of rays followed for it.
pub fn compute_pixel(
    view: &Viewport,
    aa: Antialiasing,
    x: u32,
    y: u32,
    scene: &Vec<Geometry>,
    lights: &Lights,
    reflections: u32,
) -> (r: (Color, u64))
    requires
        reflections > 0,
    ensures
        r.0 == pixel_color(
            *view,
            aa,
            scene@,
            lights.sources@,
            lights.total_intensity,
            reflections as nat,
            x,
            y,
        ).0,
        r.1 == sat_count(
            pixel_color(
                *view,
                aa,
                scene@,
                lights.sources@,
                lights.total_intensity,
                reflections as nat,
                x,
                y,
            ).1,
        ),
{
    match aa {
        Antialiasing::Off => Raytracer::trace(
            &view.ray_through(
                pixel_coordinate_exec(x, view.width),
                pixel_coordinate_exec(y, view.height),
            ).unit(),
            scene,
            lights,
            reflections,
            None,
        ),
        Antialiasing::Grid(size) => {
            if size == 0 {
                return (Color::clear(), 0);
            }
            let mut red: i128 = 0;
            let mut green: i128 = 0;
            let mut blue: i128 = 0;
            let mut opacity = Fixed::zero();
            let mut ray_count: u64 = 0;
            let mut sub_x: u32 = 0;
            while sub_x < size
                invariant
                    reflections > 0,
                    sub_x <= size,
                    (red as int, green as int, blue as int, opacity) == grid_samples(
                        *view,
                        scene@,
                        lights.sources@,
                        lights.total_intensity,
                        reflections as nat,
                        x,
                        y,
                        size,
                        sub_x as nat,
                        0,
                    ).0,
                    ray_count == sat_count(
                        grid_samples(
                            *view,
                            scene@,
                            lights.sources@,
                            lights.total_intensity,
                            reflections as nat,
                            x,
                            y,
                            size,
                            sub_x as nat,
                            0,
                        ).1,
                    ),
                    -(sub_x * 0x8000_0000_0000_0000) <= red <= sub_x * 0x8000_0000_0000_0000,
                    -(sub_x * 0x8000_0000_0000_0000) <= green <= sub_x * 0x8000_0000_0000_0000,
                    -(sub_x * 0x8000_0000_0000_0000) <= blue <= sub_x * 0x8000_0000_0000_0000,
                decreases size - sub_x,
            {
                let mut sub_y: u32 = 0;
                while sub_y < size
                    invariant
                        reflections > 0,
                        sub_x < size,
                        sub_y <= size,
                        (red as int, green as int, blue as int, opacity) == grid_samples(
                            *view,
                            scene@,
                            lights.sources@,
                            lights.total_intensity,
                            reflections as nat,
                            x,
                            y,
                            size,
                            sub_x as nat,
                            sub_y as nat,
                        ).0,
                        ray_count == sat_count(
                            grid_samples(
                                *view,
                                scene@,
                                lights.sources@,
                                lights.total_intensity,
                                reflections as nat,
                                x,
                                y,
                                size,
                                sub_x as nat,
                                sub_y as nat,
                            ).1,
                        ),
                        -(sub_x * 0x8000_0000_0000_0000 + sub_y * 0x8000_0000) <= red <= sub_x
                            * 0x8000_0000_0000_0000 + sub_y * 0x8000_0000,
                        -(sub_x * 0x8000_0000_0000_0000 + sub_y * 0x8000_0000) <= green <= sub_x
                            * 0x8000_0000_0000_0000 + sub_y * 0x8000_0000,
                        -(sub_x * 0x8000_0000_0000_0000 + sub_y * 0x8000_0000) <= blue <= sub_x
                            * 0x8000_0000_0000_0000 + sub_y * 0x8000_0000,
                    decreases size - sub_y,
                {
                    let (seen, rays) = Raytracer::trace(
                        &view.ray_through(
                            grid_coordinate_exec(x, size, sub_x, view.width),
                            grid_coordinate_exec(y, size, sub_y, view.height),
                        ).unit(),
                        scene,
                        lights,
                        reflections,
                        None,
                    );
                    red = red + seen.r.raw as i128;
                    green = green + seen.g.raw as i128;
                    blue = blue + seen.b.raw as i128;
                    opacity = opacity.add(seen.a);
                    ray_count = ray_count.saturating_add(rays);
                    sub_y += 1;
                }
                sub_x += 1;
            }
            let count: i128 = mul_wide(
                size as i128,
                size as i128,
                Ghost(0x1_0000_0000int),
                Ghost(0x1_0000_0000int),
            );
            assert(count > 0) by (nonlinear_arith)
                requires
                    count == size * size,
                    size > 0,
            ;
            (
                Color {
                    r: Fixed { raw: clamp_to_raw(div_floor(red, count)) },
                    g: Fixed { raw: clamp_to_raw(div_floor(green, count)) },
                    b: Fixed { raw: clamp_to_raw(div_floor(blue, count)) },
                    a: opacity,
                },
                ray_count,
            )
        },
    }
}

/// The number of rays followed for the first `x` pixels of row `y`.
pub open spec fn row_rays(
    view: Viewport,
    aa: Antialiasing,
    scene: Seq<Geometry>,
    sources: Seq<Light>,
    total: Fixed,
    budget: nat,
    y: u32,
    x: nat,
) -> nat
    decreases x,
{
    if x == 0 {
        0
    } else {
        row_rays(view, aa, scene, sources, total, budget, y, (x - 1) as nat) + pixel_color(
            view,
            aa,
            scene,
            sources,
            total,
            budget,
            (x - 1) as u32,
            y,
        ).1
    }
}

/// The colors of the pixels of row `y`, from left to right, and the number
/// of rays followed for them. Nothing but the arguments is read, so rows
/// can be computed side by side.
pub fn compute_row(
    view: &Viewport,
    aa: Antialiasing,
    y: u32,
    scene: &Vec<Geometry>,
    lights: &Lights,
    reflections: u32,
) -> (r: (Vec<Color>, u64))
    requires
        reflections > 0,
    ensures
        r.0@.len() == view.width,
        forall|x: int|
            0 <= x < view.width ==> #[trigger] r.0@[x] == pixel_color(
                *view,
                aa,
                scene@,
                lights.sources@,
                lights.total_intensity,
                reflections as nat,
                x as u32,
                y,
            ).0,
        r.1 == sat_count(
            row_rays(
                *view,
                aa,
                scene@,
                lights.sources@,
                lights.total_intensity,
                reflections as nat,
                y,
                view.width as nat,
            ),
        ),
{
    let mut colors: Vec<Color> = Vec::new();
    let mut ray_count: u64 = 0;
    let mut x: u32 = 0;
    while x < view.width
        invariant
            reflections > 0,
            x <= view.width,
            colors@.len() == x,
            forall|i: int|
                0 <= i < x ==> #[trigger] colors@[i] == pixel_color(
                    *view,
                    aa,
                    scene@,
                    lights.sources@,
                    lights.total_intensity,
                    reflections as nat,
                    i as u32,
                    y,
                ).0,
            ray_count == sat_count(
                row_rays(
                    *view,
                    aa,
                    scene@,
                    lights.sources@,
                    lights.total_intensity,
                    reflections as nat,
                    y,
                    x as nat,
                ),
            ),
        decreases view.width - x,
    {
        let (color, rays) = compute_pixel(view, aa, x, y, scene, lights, reflections);
        colors.push(color);
        ray_count = ray_count.saturating_add(rays);
        x += 1;
    }
    (colors, ray_count)
}

/// A camera with the image that it renders into.
pub struct Raytracer {
    pub view: Viewport,
    pub img: Image,
    pub aa: Antialiasing,
}

impl Raytracer {
    /// The image plane has the size of the image.
    pub open spec fn wf(&self) -> bool {
        &&& self.img.wf()
        &&& self.view.width == self.img.spec_width()
        &&& self.view.height == self.img.spec_height()
    }

    /// Whether the pixel `(i, j)` holds what the renderer computes for it.
    pub open spec fn pixel_done(
        &self,
        scene: Seq<Geometry>,
        sources: Seq<Light>,
        total: Fixed,
        budget: nat,
        i: int,
        j: int,
    ) -> bool {
        self.img.spec_pixel(i, j) == pixel_color(
            self.view,
            self.aa,
            scene,
            sources,
            total,
            budget,
            i as u32,
            j as u32,
        ).0.spec_to_pixel()
    }

    /// The color of a hit and the number of rays followed for it: the direct
    /// lighting, and what a mirrored ray and a ray through the surface see
    /// while bounces are left. At least one bounce must be allowed.
    pub fn shade(
        ray: &Ray,
        hit: &Rayhit,
        scene: &Vec<Geometry>,
        lights: &Lights,
        reflections: u32,
    ) -> (r: (Color, u64))
        requires
            reflections > 0,
        ensures
            r.0 == spec_shade(
                *ray,
                *hit,
                scene@,
                lights.sources@,
                lights.total_intensity,
                reflections as nat,
            ).0,
            r.1 == sat_count(
                spec_shade(
                    *ray,
                    *hit,
                    scene@,
                    lights.sources@,
                    lights.total_intensity,
                    reflections as nat,
                ).1,
            ),
    {
        shade_bounded(ray, hit, scene, lights, reflections)
    }

    /// The color that `ray` sees in the scene, and the number of rays followed.
    ///
    /// The nearest hit among the primitives other than `ignore` is shaded; a ray
    /// that hits nothing sees transparent black. At least one bounce must be
    /// allowed.
    pub fn trace(
        ray: &Ray,
        scene: &Vec<Geometry>,
        lights: &Lights,
        reflections: u32,
        ignore: Option<usize>,
    ) -> (r: (Color, u64))
        requires
            reflections > 0,
        ensures
            r.0 == spec_trace(
                *ray,
                scene@,
                lights.sources@,
                lights.total_intensity,
                reflections as nat,
                ignore,
            ).0,
            r.1 == sat_count(
                spec_trace(
                    *ray,
                    scene@,
                    lights.sources@,
                    lights.total_intensity,
                    reflections as nat,
                    ignore,
                ).1,
            ),
    {
        trace_bounded(ray, scene, lights, reflections, ignore)
    }

    /// The renderer of `cam` into `img`.
    pub fn new(cam: &Camera, img: Image, aa: Antialiasing) -> (rt: Raytracer)
        requires
            img.wf(),
            img.fits(),
        ensures
            rt.wf(),
            rt.view == Viewport::of_camera(
                *cam,
                img.spec_width() as u32,
                img.spec_height() as u32,
            ),
            rt.img == img,
            rt.aa == aa,
    {
        let view = Viewport::new(cam, img.get_width(), img.get_height());
        Raytracer { view, img, aa }
    }

    /// The ray from the viewer through the position `(x, y)` of the image.
    pub fn get_ray(&self, x: Fixed, y: Fixed) -> (ray: Ray)
        ensures
            ray == self.view.spec_get_ray(x, y),
    {
        self.view.get_ray(x, y)
    }

    /// Computes the pixel `(x, y)`, stores it and returns the number of rays
    /// followed.
    pub fn render_pixel(
        &mut self,
        x: u32,
        y: u32,
        scene: &Vec<Geometry>,
        lights: &Lights,
        reflections: u32,
    ) -> (rays: u64)
        requires
            old(self).wf(),
            in_bounds(old(self).img.spec_width(), old(self).img.spec_height(), x as int, y as int),
            reflections > 0,
        ensures
            final(self).wf(),
            final(self).view == old(self).view,
            final(self).aa == old(self).aa,
            final(self).pixel_done(
                scene@,
                lights.sources@,
                lights.total_intensity,
                reflections as nat,
                x as int,
                y as int,
            ),
            forall|i: int, j: int|
                in_bounds(old(self).img.spec_width(), old(self).img.spec_height(), i, j) && (i != x
                    || j != y) ==> #[trigger] final(self).img.spec_pixel(i, j) == old(
                    self,
                ).img.spec_pixel(i, j),
            rays == sat_count(
                pixel_color(
                    old(self).view,
                    old(self).aa,
                    scene@,
                    lights.sources@,
                    lights.total_intensity,
                    reflections as nat,
                    x,
                    y,
                ).1,
            ),
    {
        let (color, ray_count) = compute_pixel(&self.view, self.aa, x, y, scene, lights, reflections);
        self.img.set_pixelu32(x, y, color);
        ray_count
    }

    /// Stores the colors of a whole row `y`, from left to right.
    pub fn store_row(&mut self, y: u32, colors: &Vec<Color>)
        requires
            old(self).wf(),
            y < old(self).view.height,
            colors@.len() == old(self).view.width,
        ensures
            final(self).wf(),
            final(self).view == old(self).view,
            final(self).aa == old(self).aa,
            forall|i: int|
                0 <= i < old(self).view.width ==> #[trigger] final(self).img.spec_pixel(i, y as int)
                    == colors@[i].spec_to_pixel(),
            forall|i: int, j: int|
                in_bounds(old(self).img.spec_width(), old(self).img.spec_height(), i, j) && j != y
                    ==> #[trigger] final(self).img.spec_pixel(i, j) == old(self).img.spec_pixel(
                    i,
                    j,
                ),
    {
        let width = self.img.get_width();
        let mut x: u32 = 0;
        while x < width
            invariant
                self.wf(),
                self.view == old(self).view,
                self.aa == old(self).aa,
                width == self.view.width,
                y < self.view.height,
                colors@.len() == width,
                x <= width,
                forall|i: int|
                    0 <= i < x ==> #[trigger] self.img.spec_pixel(i, y as int)
                        == colors@[i].spec_to_pixel(),
                forall|i: int, j: int|
                    in_bounds(self.img.spec_width(), self.img.spec_height(), i, j) && j != y
                        ==> #[trigger] self.img.spec_pixel(i, j) == old(self).img.spec_pixel(i, j),
            decreases width - x,
        {
            let ghost before = *self;
            self.img.set_pixelu32(x, y, colors[x as usize]);
            proof {
                assert forall|i: int| 0 <= i < x + 1 implies #[trigger] self.img.spec_pixel(
                    i,
                    y as int,
                ) == colors@[i].spec_to_pixel() by {
                    if i != x {
                        assert(before.img.spec_pixel(i, y as int) == colors@[i].spec_to_pixel());
                    }
                }
                assert forall|i: int, j: int|
                    in_bounds(self.img.spec_width(), self.img.spec_height(), i, j) && j
                        != y implies #[trigger] self.img.spec_pixel(i, j) == old(
                    self,
                ).img.spec_pixel(i, j) by {
                    assert(before.img.spec_pixel(i, j) == old(self).img.spec_pixel(i, j));
                }
            }
            x += 1;
        }
    }

    /// Computes every pixel of the image, row by row, and returns the number
    /// of rays followed. At least one bounce must be allowed.
    pub fn render(&mut self, scene: &Vec<Geometry>, lights: &Lights, reflections: u32) -> (rays: u64)
        requires
            old(self).wf(),
            reflections > 0,
        ensures
            final(self).wf(),
            final(self).view == old(self).view,
            final(self).aa == old(self).aa,
            forall|i: int, j: int|
                in_bounds(old(self).img.spec_width(), old(self).img.spec_height(), i, j)
                    ==> #[trigger] final(self).pixel_done(
                    scene@,
                    lights.sources@,
                    lights.total_intensity,
                    reflections as nat,
                    i,
                    j,
                ),
            rays == sat_count(
                rays_upto(
                    old(self).view,
                    old(self).aa,
                    scene@,
                    lights.sources@,
                    lights.total_intensity,
                    reflections as nat,
                    old(self).view.height as nat,
                    0,
                ),
            ),
    {
        let width = self.img.get_width();
        let height = self.img.get_height();
        let mut ray_count: u64 = 0;
        let mut y: u32 = 0;
        while y < height
            invariant
                reflections > 0,
                self.wf(),
                self.view == old(self).view,
                self.aa == old(self).aa,
                width == self.view.width,
                height == self.view.height,
                y <= height,
                forall|i: int, j: int|
                    in_bounds(width as nat, height as nat, i, j) && j < y
                        ==> #[trigger] self.pixel_done(
                        scene@,
                        lights.sources@,
                        lights.total_intensity,
                        reflections as nat,
                        i,
                        j,
                    ),
                ray_count == sat_count(
                    rays_upto(
                        self.view,
                        self.aa,
                        scene@,
                        lights.sources@,
                        lights.total_intensity,
                        reflections as nat,
                        y as nat,
                        0,
                    ),
                ),
            decreases height - y,
        {
            let mut x: u32 = 0;
            while x < width
                invariant
                    reflections > 0,
                    self.wf(),
                    self.view == old(self).view,
                    self.aa == old(self).aa,
                    width == self.view.width,
                    height == self.view.height,
                    y < height,
                    x <= width,
                    forall|i: int, j: int|
                        in_bounds(width as nat, height as nat, i, j) && (j < y || (j == y && i < x))
                            ==> #[trigger] self.pixel_done(
                            scene@,
                            lights.sources@,
                            lights.total_intensity,
                            reflections as nat,
                            i,
                            j,
                        ),
                    ray_count == sat_count(
                        rays_upto(
                            self.view,
                            self.aa,
                            scene@,
                            lights.sources@,
                            lights.total_intensity,
                            reflections as nat,
                            y as nat,
                            x as nat,
                        ),
                    ),
                decreases width - x,
            {
                let ghost before = *self;
                let rays = self.render_pixel(x, y, scene, lights, reflections);
                ray_count = ray_count.saturating_add(rays);
                proof {
                    assert forall|i: int, j: int|
                        in_bounds(width as nat, height as nat, i, j) && (j < y || (j == y && i < x
                            + 1)) implies #[trigger] self.pixel_done(
                        scene@,
                        lights.sources@,
                        lights.total_intensity,
                        reflections as nat,
                        i,
                        j,
                    ) by {
                        if i != x || j != y {
                            assert(before.pixel_done(
                                scene@,
                                lights.sources@,
                                lights.total_intensity,
                                reflections as nat,
                                i,
                                j,
                            ));
                            assert(self.img.spec_pixel(i, j) == before.img.spec_pixel(i, j));
                        }
                    }
                }
                x += 1;
            }
            y += 1;
        }
        ray_count
    }

    /// The rendered image as a PNG byte stream, as [`Image::encode_png`] makes it.
    pub fn encode_png(&self) -> (out: Result<Vec<u8>, EncodeError>)
        requires
            self.wf(),
        ensures
            self.img.encoded(out),
            out is Ok <==> self.img.spec_width() > 0 && self.img.spec_height() > 0,
    {
        self.img.encode_png()
    }
}

/// The offset of the right eye from the middle between the eyes: half the
/// distance `ipd` between the eyes, along the `right` vector of the camera.
pub open spec fn eye_shift(cam: Camera, ipd: Fixed) -> Vector3D {
    cam.look.spec_unit_cross(cam.up).spec_scale(ipd.spec_div(Fixed::spec_from_int(2)))
}

/// The camera of the left eye.
pub open spec fn left_eye(cam: Camera, ipd: Fixed) -> Camera {
    Camera {
        position: cam.position.spec_sub(eye_shift(cam, ipd)),
        look: cam.look,
        up: cam.up,
        half_fov_tan: cam.half_fov_tan,
    }
}

/// The camera of the right eye.
pub open spec fn right_eye(cam: Camera, ipd: Fixed) -> Camera {
    Camera {
        position: cam.position.spec_add(eye_shift(cam, ipd)),
        look: cam.look,
        up: cam.up,
        half_fov_tan: cam.half_fov_tan,
    }
}

/// The pixel of the composite: the luminance of the left pixel in cyan plus
/// the luminance of the right pixel in red.
pub open spec fn anaglyph_pixel(left: Pixel, right: Pixel) -> Pixel {
    Color::spec_new(0, 255, 255, 255).spec_scale(Color::of_pixel(left).spec_to_gray()).spec_add(
        Color::spec_new(255, 0, 0, 255).spec_scale(Color::of_pixel(right).spec_to_gray()),
    ).spec_to_pixel()
}

/// A stereo renderer: one renderer for each eye and the image that holds
/// their composite.
pub struct Anaglyph {
    pub left: Raytracer,
    pub right: Raytracer,
    pub img: Image,
}

impl Anaglyph {
    /// The three images have one size.
    pub open spec fn wf(&self) -> bool {
        &&& self.left.wf()
        &&& self.right.wf()
        &&& self.img.wf()
        &&& self.left.img.spec_width() == self.img.spec_width()
        &&& self.left.img.spec_height() == self.img.spec_height()
        &&& self.right.img.spec_width() == self.img.spec_width()
        &&& self.right.img.spec_height() == self.img.spec_height()
    }

    /// Whether the pixel `(i, j)` of the composite is made of the pixels of
    /// the two eyes.
    pub open spec fn pixel_merged(&self, i: int, j: int) -> bool {
        self.img.spec_pixel(i, j) == anaglyph_pixel(
            self.left.img.spec_pixel(i, j),
            self.right.img.spec_pixel(i, j),
        )
    }

    /// The stereo renderer of `cam` into `img`, with the eyes `ipd` apart.
    pub fn new(cam: &Camera, img: Image, aa: Antialiasing, ipd: Fixed) -> (stereo: Anaglyph)
        requires
            img.wf(),
            img.fits(),
        ensures
            stereo.wf(),
            stereo.img == img,
            stereo.left.aa == aa,
            stereo.right.aa == aa,
            stereo.left.view == Viewport::of_camera(
                left_eye(*cam, ipd),
                img.spec_width() as u32,
                img.spec_height() as u32,
            ),
            stereo.right.view == Viewport::of_camera(
                right_eye(*cam, ipd),
                img.spec_width() as u32,
                img.spec_height() as u32,
            ),
    {
        let right_vector = cam.look.unit_cross(&cam.up);
        let shift = right_vector.scale(ipd.div(Fixed::from_int(2)));
        let left_cam = Camera {
            position: cam.position.sub(shift),
            look: cam.look,
            up: cam.up,
            half_fov_tan: cam.half_fov_tan,
        };
        let right_cam = Camera {
            position: cam.position.add(shift),
            look: cam.look,
            up: cam.up,
            half_fov_tan: cam.half_fov_tan,
        };
        let left = Raytracer::new(&left_cam, Image::new_like(&img), aa);
        let right = Raytracer::new(&right_cam, Image::new_like(&img), aa);
        Anaglyph { left, right, img }
    }

    /// Renders both eyes, each on its own, and merges them pixel by pixel.
    /// Returns the number of rays followed. At least one bounce must be
    /// allowed.
    pub fn render(&mut self, scene: &Vec<Geometry>, lights: &Lights, reflections: u32) -> (rays: u64)
        requires
            old(self).wf(),
            reflections > 0,
        ensures
            final(self).wf(),
            final(self).left.view == old(self).left.view,
            final(self).left.aa == old(self).left.aa,
            final(self).right.view == old(self).right.view,
            final(self).right.aa == old(self).right.aa,
            forall|i: int, j: int|
                in_bounds(old(self).img.spec_width(), old(self).img.spec_height(), i, j) ==> {
                    &&& #[trigger] final(self).pixel_merged(i, j)
                    &&& final(self).left.pixel_done(
                        scene@,
                        lights.sources@,
                        lights.total_intensity,
                        reflections as nat,
                        i,
                        j,
                    )
                    &&& final(self).right.pixel_done(
                        scene@,
                        lights.sources@,
                        lights.total_intensity,
                        reflections as nat,
                        i,
                        j,
                    )
                },
            rays == sat_count(
                rays_upto(
                    old(self).left.view,
                    old(self).left.aa,
                    scene@,
                    lights.sources@,
                    lights.total_intensity,
                    reflections as nat,
                    old(self).left.view.height as nat,
                    0,
                ) + rays_upto(
                    old(self).right.view,
                    old(self).right.aa,
                    scene@,
                    lights.sources@,
                    lights.total_intensity,
                    reflections as nat,
                    old(self).right.view.height as nat,
                    0,
                ),
            ),
    {
        let left_rays = self.left.render(scene, lights, reflections);
        let right_rays = self.right.render(scene, lights, reflections);
        self.merge();
        left_rays.saturating_add(right_rays)
    }

    /// Makes every pixel of the composite of the pixels of the two eyes: the
    /// luminance of the left pixel in cyan plus the luminance of the right
    /// pixel in red. The images of the eyes stay as they are.
    pub fn merge(&mut self)
        requires
            old(self).wf(),
        ensures
            final(self).wf(),
            final(self).left == old(self).left,
            final(self).right == old(self).right,
            forall|i: int, j: int|
                in_bounds(old(self).img.spec_width(), old(self).img.spec_height(), i, j)
                    ==> #[trigger] final(self).pixel_merged(i, j),
    {
        let left_filter = Color::new(0, 255, 255, 255);
        let right_filter = Color::new(255, 0, 0, 255);
        let width = self.img.get_width();
        let height = self.img.get_height();
        let ghost rendered = *self;
        let mut y: u32 = 0;
        while y < height
            invariant
                self.wf(),
                self.left == rendered.left,
                self.right == rendered.right,
                width == self.img.spec_width(),
                height == self.img.spec_height(),
                left_filter == Color::spec_new(0, 255, 255, 255),
                right_filter == Color::spec_new(255, 0, 0, 255),
                y <= height,
                forall|i: int, j: int|
                    in_bounds(width as nat, height as nat, i, j) && j < y
                        ==> #[trigger] self.pixel_merged(i, j),
            decreases height - y,
        {
            let mut x: u32 = 0;
            while x < width
                invariant
                    self.wf(),
                    self.left == rendered.left,
                    self.right == rendered.right,
                    width == self.img.spec_width(),
                    height == self.img.spec_height(),
                    left_filter == Color::spec_new(0, 255, 255, 255),
                    right_filter == Color::spec_new(255, 0, 0, 255),
                    y < height,
                    x <= width,
                    forall|i: int, j: int|
                        in_bounds(width as nat, height as nat, i, j) && (j < y || (j == y && i < x))
                            ==> #[trigger] self.pixel_merged(i, j),
                decreases width - x,
            {
                let ghost before = *self;
                let color = left_filter.scale(self.left.img.get_pixelu32(x, y).to_gray()).add(
                    right_filter.scale(self.right.img.get_pixelu32(x, y).to_gray()),
                );
                self.img.set_pixelu32(x, y, color);
                proof {
                    assert forall|i: int, j: int|
                        in_bounds(width as nat, height as nat, i, j) && (j < y || (j == y && i < x
                            + 1)) implies #[trigger] self.pixel_merged(i, j) by {
                        if i != x || j != y {
                            assert(before.pixel_merged(i, j));
                            assert(self.img.spec_pixel(i, j) == before.img.spec_pixel(i, j));
                        }
                    }
                }
                x += 1;
            }
            y += 1;
        }
    }

    /// The composite as a PNG byte stream, as [`Image::encode_png`] makes it.
    pub fn encode_png(&self) -> (out: Result<Vec<u8>, EncodeError>)
        requires
            self.wf(),
        ensures
            self.img.encoded(out),
            out is Ok <==> self.img.spec_width() > 0 && self.img.spec_height() > 0,
    {
        self.img.encode_png()
    }
}

} // verus!
